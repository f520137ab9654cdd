//! The glob and regex engines that patterns are matched with.
//!
//! Compiling and matching are done by the `glob` and `regex` crates. Their
//! results are named here: they depend on the pattern's text and the value
//! alone.
use vstd::prelude::*;

verus! {

/// `glob::Pattern`, carried opaquely.
#[verifier::external_type_specification]
#[verifier::external_body]
pub struct ExGlobPattern(glob::Pattern);

/// `regex::Regex`, carried opaquely.
#[verifier::external_type_specification]
#[verifier::external_body]
pub struct ExRegex(regex::Regex);

/// What `glob::Pattern::new` refuses the pattern text with: the `Display`
/// of its error, or nothing when it accepts the text.
pub uninterp spec fn glob_error(pattern: Seq<char>) -> Option<Seq<char>>;

/// Whether `glob::Pattern::new` accepts the pattern text.
pub open spec fn glob_compiles(pattern: Seq<char>) -> bool {
    glob_error(pattern) is None
}

/// Whether the glob compiled from the pattern text matches the value
/// (`glob::Pattern::matches`, default options).
pub uninterp spec fn glob_matches(pattern: Seq<char>, value: Seq<char>) -> bool;

/// What `regex::RegexBuilder` refuses the pattern text with, under the
/// given lazy DFA cache limit and NFA size limit: the `Display` of its
/// error, or nothing when it builds the regex.
pub uninterp spec fn regex_error(pattern: Seq<char>, dfa_limit: usize, nfa_limit: usize) -> Option<Seq<char>>;

/// Whether `regex::RegexBuilder` builds the pattern text with the given lazy
/// DFA cache limit and NFA size limit.
pub open spec fn regex_compiles(pattern: Seq<char>, dfa_limit: usize, nfa_limit: usize) -> bool {
    regex_error(pattern, dfa_limit, nfa_limit) is None
}

/// Whether the regex compiled from the pattern text matches somewhere in
/// the value (`regex::Regex::is_match`).
pub uninterp spec fn regex_matches(pattern: Seq<char>, value: Seq<char>) -> bool;

/// A compiled glob together with the text it was compiled from.
#[derive(Debug)]
pub struct CompiledGlob {
    glob: glob::Pattern,
    source: String,
}

impl View for CompiledGlob {
    type V = Seq<char>;

    closed spec fn view(&self) -> Seq<char> {
        self.source@
    }
}

/// A compiled regex together with the text it was compiled from.
#[derive(Debug)]
pub struct CompiledRegex {
    regex: regex::Regex,
    source: String,
}

impl View for CompiledRegex {
    type V = Seq<char>;

    closed spec fn view(&self) -> Seq<char> {
        self.source@
    }
}

/// Compiles a glob pattern.
///
/// Trusted: calls `glob::Pattern::new`. Claims that the result is `Ok`
/// exactly when the crate accepts the text, that it remembers the text it
/// was compiled from, and that an error's message is the one named
/// `glob_error` for the text (the crate's `Display` of its error).
#[verifier::external_body]
pub fn compile_glob(pattern: &str) -> (r: Result<CompiledGlob, String>)
    ensures
        r is Ok <==> glob_compiles(pattern@),
        r matches Ok(g) ==> g@ == pattern@,
        r matches Err(m) ==> glob_error(pattern@) == Some(m@),
{
    match glob::Pattern::new(pattern) {
        Ok(glob) => Ok(CompiledGlob { glob, source: pattern.to_string() }),
        Err(e) => Err(format!("{}", e)),
    }
}

/// Matches a value against a compiled glob.
///
/// Trusted: calls `glob::Pattern::matches`. Claims that the answer is the one
/// named `glob_matches` for the glob's source text and the value.
#[verifier::external_body]
pub fn glob_is_match(g: &CompiledGlob, value: &str) -> (r: bool)
    ensures
        r == glob_matches(g@, value@),
{
    g.glob.matches(value)
}

/// Compiles a regex with a lazy DFA cache limit and an NFA size limit.
///
/// Trusted: calls `regex::RegexBuilder::new(..).dfa_size_limit(..)
/// .size_limit(..).build()`. Claims that the result is `Ok` exactly when the
/// crate builds the text with these limits, that the regex remembers its
/// text, and that an error's message is the one named `regex_error` for the
/// text and limits (the crate's `Display` of its error). With the limits
/// 2 MiB and 10 MiB this is what `regex::Regex::new` does (the crate's
/// defaults).
#[verifier::external_body]
pub fn compile_regex(pattern: &str, dfa_limit: usize, nfa_limit: usize) -> (r: Result<CompiledRegex, String>)
    ensures
        r is Ok <==> regex_compiles(pattern@, dfa_limit, nfa_limit),
        r matches Ok(re) ==> re@ == pattern@,
        r matches Err(m) ==> regex_error(pattern@, dfa_limit, nfa_limit) == Some(m@),
{
    match regex::RegexBuilder::new(pattern).dfa_size_limit(dfa_limit).size_limit(nfa_limit).build() {
        Ok(regex) => Ok(CompiledRegex { regex, source: pattern.to_string() }),
        Err(e) => Err(format!("{}", e)),
    }
}

/// Searches a value with a compiled regex.
///
/// Trusted: calls `regex::Regex::is_match`. Claims that the answer is the one
/// named `regex_matches` for the regex's source text and the value.
#[verifier::external_body]
pub fn regex_is_match(re: &CompiledRegex, value: &str) -> (r: bool)
    ensures
        r == regex_matches(re@, value@),
{
    re.regex.is_match(value)
}

} // verus!
