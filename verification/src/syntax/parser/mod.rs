//! The parser's side of the front-end.

pub mod error;
