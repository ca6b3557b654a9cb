//! From tokens to formulas.

pub mod errors;
pub mod lexer;
pub mod node;
pub mod parser;
