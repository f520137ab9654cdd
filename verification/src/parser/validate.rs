//! Which tokens may follow which in a rule condition.
use vstd::prelude::*;

use crate::lexer::token::Token;

verus! {

/// Whether `t2` may follow `t1` in a condition.
pub open spec fn valid_sequence_spec(t1: Token, t2: Token) -> bool {
    match t2 {
        Token::StmtAllOf | Token::StmtOneOf => t1 is Begin || t1 is SepLpar || t1 is KeywordAnd
            || t1 is KeywordOr || t1 is KeywordNot,
        Token::IdentifierAll => t1 is StmtAllOf || t1 is StmtOneOf,
        Token::Identifier | Token::IdentifierWithWildcard => t1 is SepLpar || t1 is Begin
            || t1 is KeywordAnd || t1 is KeywordOr || t1 is KeywordNot || t1 is StmtOneOf
            || t1 is StmtAllOf,
        Token::KeywordAnd | Token::KeywordOr => t1 is Identifier || t1 is IdentifierAll
            || t1 is IdentifierWithWildcard || t1 is SepRpar,
        Token::KeywordNot => t1 is KeywordAnd || t1 is KeywordOr || t1 is SepLpar || t1 is Begin,
        Token::SepLpar => t1 is KeywordAnd || t1 is KeywordOr || t1 is KeywordNot || t1 is Begin
            || t1 is SepLpar,
        Token::SepRpar => t1 is Identifier || t1 is IdentifierAll || t1 is IdentifierWithWildcard
            || t1 is SepLpar || t1 is SepRpar,
        Token::LitEof | Token::SepPipe => t1 is Identifier || t1 is IdentifierAll
            || t1 is IdentifierWithWildcard || t1 is SepRpar,
        _ => false,
    }
}

/// Validates that two tokens can appear in sequence
pub fn valid_token_sequence(t1: Token, t2: Token) -> (r: bool)
    ensures
        r == valid_sequence_spec(t1, t2),
{
    match t2 {
        Token::StmtAllOf | Token::StmtOneOf => match t1 {
            Token::Begin | Token::SepLpar | Token::KeywordAnd | Token::KeywordOr
            | Token::KeywordNot => true,
            _ => false,
        },
        Token::IdentifierAll => match t1 {
            Token::StmtAllOf | Token::StmtOneOf => true,
            _ => false,
        },
        Token::Identifier | Token::IdentifierWithWildcard => match t1 {
            Token::SepLpar | Token::Begin | Token::KeywordAnd | Token::KeywordOr
            | Token::KeywordNot | Token::StmtOneOf | Token::StmtAllOf => true,
            _ => false,
        },
        Token::KeywordAnd | Token::KeywordOr => match t1 {
            Token::Identifier | Token::IdentifierAll | Token::IdentifierWithWildcard
            | Token::SepRpar => true,
            _ => false,
        },
        Token::KeywordNot => match t1 {
            Token::KeywordAnd | Token::KeywordOr | Token::SepLpar | Token::Begin => true,
            _ => false,
        },
        Token::SepLpar => match t1 {
            Token::KeywordAnd | Token::KeywordOr | Token::KeywordNot | Token::Begin
            | Token::SepLpar => true,
            _ => false,
        },
        Token::SepRpar => match t1 {
            Token::Identifier | Token::IdentifierAll | Token::IdentifierWithWildcard
            | Token::SepLpar | Token::SepRpar => true,
            _ => false,
        },
        Token::LitEof => match t1 {
            Token::Identifier | Token::IdentifierAll | Token::IdentifierWithWildcard
            | Token::SepRpar => true,
            _ => false,
        },
        Token::SepPipe => match t1 {
            Token::Identifier | Token::IdentifierAll | Token::IdentifierWithWildcard
            | Token::SepRpar => true,
            _ => false,
        },
        _ => false,
    }
}

} // verus!
