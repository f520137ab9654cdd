//! Errors of the lexer.
use vstd::prelude::*;

use crate::lexer::token::Token;

verus! {

/// Errors that can occur during lexing
#[derive(Debug)]
pub enum LexError {
    /// Channel was closed while trying to send data
    ChannelClosed(String),
    /// Encountered an unsupported token type
    UnsupportedToken(String),
    /// Invalid token sequence detected
    InvalidSequence {
        /// Previous token in the sequence
        prev: Token,
        /// Next token that caused the error
        next: Token,
    },
    /// Unexpected end of file reached
    UnexpectedEof,
    /// Invalid UTF-8 sequence at position
    InvalidUtf8(usize),
    /// Generic parse error with message
    ParseError(String),
    /// Lexing operation timed out
    Timeout,
    /// Position counter overflowed
    PositionOverflow,
    /// Token channel is full
    ChannelFull,
}

} // verus!
