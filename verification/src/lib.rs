//! Two exercises in one verified library: the job engine of a link-discovery
//! service, and a lexer and parser for propositional logic.

pub mod interlinker;
pub mod json;
pub mod logic_parser;
pub mod text;
