//! The errors of the parser.

use vstd::prelude::*;
use crate::syntax::lexer::{Token, TokenKind};

verus! {

/// What kind of token the parser was expecting.
#[derive(Debug)]
pub enum Expected {
    Token(TokenKind),
    Message(&'static str),
}

/// Why the parser stopped.
#[derive(Debug)]
pub enum Error {
    /// The input ended where a token had to follow.
    UnexpectedEof,
    /// The parser met `token` where it was expecting `expected`.
    Unexpected { token: Token, expected: Expected },
}

impl Error {
    /// The error of an input that ends too early.
    pub fn unexpected_eof() -> (e: Error)
        ensures
            e == Error::UnexpectedEof,
    {
        Error::UnexpectedEof
    }

    /// The error of meeting `token` where a token of the kind `expected` had
    /// to stand.
    pub fn unexpected(token: Token, expected: TokenKind) -> (e: Error)
        ensures
            e == (Error::Unexpected { token, expected: Expected::Token(expected) }),
    {
        Error::Unexpected { token, expected: Expected::Token(expected) }
    }

    /// The error of meeting `token` where something had to stand that
    /// `message` describes.
    pub fn unexpected_msg(token: Token, message: &'static str) -> (e: Error)
        ensures
            e == (Error::Unexpected { token, expected: Expected::Message(message) }),
    {
        Error::Unexpected { token, expected: Expected::Message(message) }
    }

    /// Whether the error is that of an input that ends too early.
    pub fn is_eof(&self) -> (r: bool)
        ensures
            r == (*self is UnexpectedEof),
    {
        match self {
            Error::UnexpectedEof => true,
            Error::Unexpected { .. } => false,
        }
    }
}

} // verus!
