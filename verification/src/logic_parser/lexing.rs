//! From source text to tokens.

pub mod lexer;
pub mod token;
