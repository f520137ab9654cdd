//! Error types of the engine.
use vstd::prelude::*;

verus! {

/// Errors of rule loading, matcher construction and evaluation.
#[derive(Debug)]
pub enum SigmaError {
    /// A matcher could not be built or reduced.
    InvalidMatcher(String),
    /// A regular expression was refused as unsafe or failed to compile.
    UnsafeRegex {
        /// The refused pattern.
        pattern: String,
        /// Why it was refused.
        reason: String,
    },
    /// A columnar operation failed.
    Arrow(String),
    /// A pattern could not be compiled.
    Pattern(String),
    /// A pattern could not be applied.
    InvalidPattern(String),
    /// A rule or ruleset could not be parsed.
    Parse(String),
    /// A rule does not meet the minimum requirements.
    InvalidRule(String),
    /// The detection section has no condition.
    MissingCondition,
    /// A column was missing or of another type.
    Field(String),
    /// Reading input failed.
    Io(String),
}

} // verus!
