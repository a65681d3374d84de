//! Why a sequence of tokens is not a program.

use crate::lexer::{Token, TokenKind};
use vstd::prelude::*;

verus! {

/// Where and why the parser stopped.
#[derive(Debug, Clone, Copy, PartialEq)]
pub enum ParserError {
    /// The tokens ended where one of kind `expected` had to follow.
    ExpectedTokenNotFound { expected: TokenKind },
    /// A token of kind `expected` had to follow, and `actual` did.
    InvalidToken { expected: TokenKind, actual: Token },
    /// Nothing can start or go on with this token here.
    UnexpectedToken { token: Token },
    /// The token looks like a float, and no float has this text.
    InvalidFloat { token: Token },
    /// The token looks like an integer, and no integer of 64 bits has this
    /// text.
    InvalidInteger { token: Token },
}

impl ParserError {
    /// The token at which parsing stopped, where there is one.
    pub fn token(&self) -> (token: Option<Token>)
        ensures
            token == match *self {
                ParserError::ExpectedTokenNotFound { .. } => None,
                ParserError::InvalidToken { actual, .. } => Some(actual),
                ParserError::UnexpectedToken { token } => Some(token),
                ParserError::InvalidFloat { token } => Some(token),
                ParserError::InvalidInteger { token } => Some(token),
            },
    {
        match self {
            ParserError::ExpectedTokenNotFound { .. } => None,
            ParserError::InvalidToken { actual, .. } => Some(*actual),
            ParserError::UnexpectedToken { token } => Some(*token),
            ParserError::InvalidFloat { token } => Some(*token),
            ParserError::InvalidInteger { token } => Some(*token),
        }
    }
}

} // verus!
