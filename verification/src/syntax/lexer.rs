//! Tokens.

use vstd::prelude::*;
use crate::source::SourcePos;
use crate::symbol::Symbol;
use crate::value::Float;

verus! {

/// The reserved words.
#[derive(Clone, Copy, Debug, PartialEq, Eq, Structural)]
pub enum Keyword {
    Let,
    If,
    Then,
    Else,
    End,
    For,
    In,
    Do,
    While,
    Function,
    Return,
    Break,
    Myself,
}

/// The operators.
#[derive(Clone, Copy, Debug, PartialEq, Eq, Structural)]
pub enum Operator {
    Plus,
    Minus,
    Times,
    Div,
    Mod,
    Equals,
    NotEquals,
    Greater,
    GreaterEquals,
    Lower,
    LowerEquals,
    Not,
    And,
    Or,
    Concat,
    Dot,
    Assign,
}

/// A literal as the lexer reads it.
#[derive(Clone, Debug)]
pub enum Literal {
    Nil,
    Bool(bool),
    Int(i64),
    Float(Float),
    Byte(u8),
    String(Vec<u8>),
}

/// What a token is.
#[derive(Clone, Debug)]
pub enum TokenKind {
    Identifier(Symbol),
    Keyword(Keyword),
    Operator(Operator),
    Literal(Literal),
    Colon,
    Comma,
    OpenParens,
    CloseParens,
    OpenBracket,
    CloseBracket,
    OpenDict,
    Command,
}

/// A token and where it stands.
#[derive(Clone, Debug)]
pub struct Token {
    pub token: TokenKind,
    pub pos: SourcePos,
}

} // verus!
