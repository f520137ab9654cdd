//! Pattern matching implementations for Sigma rules
use vstd::prelude::*;

pub mod arrow_string_matcher;
pub mod coercion;
pub mod engines;
pub mod escape;
pub mod factory;
pub mod grouped_matcher;
pub mod intern;
pub mod num_matcher;
pub mod security;
pub mod string_matcher;
pub mod whitespace;

pub use escape::{escape_sigma_for_glob, escape_sigma_for_glob_cow};
pub use whitespace::handle_whitespace;

verus! {

/// Type of sigma detection identifier
#[derive(Debug, Clone, Copy, PartialEq, Eq, Structural)]
pub enum IdentifierType {
    /// Selection-style identifier (object with field matches)
    Selection,
    /// Keywords-style identifier (array of keywords)
    Keywords,
}

/// Text pattern modifiers for string matching
#[derive(Debug, Clone, Copy, PartialEq, Eq, Structural)]
pub enum TextPatternModifier {
    /// No modifier (exact match)
    NoModifier,
    /// Pattern contains substring
    Contains,
    /// Pattern starts with substring
    Prefix,
    /// Pattern ends with substring
    Suffix,
    /// Match all patterns
    All,
    /// Regular expression pattern
    Regex,
    /// Keyword pattern
    Keyword,
}

} // verus!
