//! A lexer and a parser for formulas of propositional logic.

pub mod bindings;
pub mod errors;
pub mod lexer;
pub mod lexing;
pub mod parser;
pub mod parsing;
pub mod svg_generation;
