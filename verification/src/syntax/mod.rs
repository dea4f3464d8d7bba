//! The front-end's vocabulary: tokens, and the errors of the parser.

pub mod lexer;
pub mod parser;
