//! Security utilities for pattern matching
//!
//! This module provides protections against common security vulnerabilities
//! in pattern matching, particularly ReDoS (Regular Expression Denial of Service).
use vstd::prelude::*;
use vstd::string::StringExecFns;
use vstd::utf8::encode_utf8;

use crate::error::SigmaError;
use crate::pattern::engines::{compile_regex, regex_compiles, regex_error, regex_is_match, regex_matches, CompiledRegex};
use crate::text::{chars_of, contains_chars, contains_seq, digits_of, owned, usize_to_decimal};

verus! {

/// Maximum regex pattern length (in bytes)
pub const MAX_REGEX_PATTERN_LENGTH: usize = 1000;

/// Maximum DFA size limit (2 MB)
pub const MAX_DFA_SIZE: usize = 2 * 1024 * 1024;

/// Maximum NFA size limit (10 MB)
pub const MAX_NFA_SIZE: usize = 10 * 1024 * 1024;

/// Maximum nesting depth of groups in a regex pattern
pub const MAX_NESTING_DEPTH: usize = 10;

/// Number of known dangerous regex patterns
pub const REDOS_PATTERN_COUNT: usize = 9;

/// Number of nested-quantifier probes
pub const NESTED_QUANTIFIER_COUNT: usize = 4;

/// Known dangerous regex patterns that can cause ReDoS, by index.
pub open spec fn redos_pattern(i: int) -> Seq<char> {
    if i == 0 {
        r"\(\.\*\+\)\+"@
    } else if i == 1 {
        r"\(\.\+\*\)\*"@
    } else if i == 2 {
        r"\(\.\*\)\+\$"@
    } else if i == 3 {
        r"\(\.\+\)\*\$"@
    } else if i == 4 {
        r"\([a-zA-Z]+\)\*\$"@
    } else if i == 5 {
        r"\(.*\|.*\)\*"@
    } else if i == 6 {
        r"\(a\+\)\+"@
    } else if i == 7 {
        r"\(a\*\)\+"@
    } else {
        r"\(a\|a\)\*"@
    }
}

fn redos_pattern_at(i: usize) -> (r: &'static str)
    requires
        i < REDOS_PATTERN_COUNT,
    ensures
        r@ == redos_pattern(i as int),
{
    if i == 0 {
        r"\(\.\*\+\)\+"
    } else if i == 1 {
        r"\(\.\+\*\)\*"
    } else if i == 2 {
        r"\(\.\*\)\+\$"
    } else if i == 3 {
        r"\(\.\+\)\*\$"
    } else if i == 4 {
        r"\([a-zA-Z]+\)\*\$"
    } else if i == 5 {
        r"\(.*\|.*\)\*"
    } else if i == 6 {
        r"\(a\+\)\+"
    } else if i == 7 {
        r"\(a\*\)\+"
    } else {
        r"\(a\|a\)\*"
    }
}

/// Probes for nested quantifiers like `(a+)+` or `(a*)*`, by index.
pub open spec fn nested_quantifier_pattern(i: int) -> Seq<char> {
    if i == 0 {
        r"\([^)]*\+[^)]*\)\+"@
    } else if i == 1 {
        r"\([^)]*\*[^)]*\)\*"@
    } else if i == 2 {
        r"\([^)]*\+[^)]*\)\*"@
    } else {
        r"\([^)]*\*[^)]*\)\+"@
    }
}

fn nested_quantifier_pattern_at(i: usize) -> (r: &'static str)
    requires
        i < NESTED_QUANTIFIER_COUNT,
    ensures
        r@ == nested_quantifier_pattern(i as int),
{
    if i == 0 {
        r"\([^)]*\+[^)]*\)\+"
    } else if i == 1 {
        r"\([^)]*\*[^)]*\)\*"
    } else if i == 2 {
        r"\([^)]*\+[^)]*\)\*"
    } else {
        r"\([^)]*\*[^)]*\)\+"
    }
}

/// The probe `probe` (compiled with the default limits) finds a match in `p`.
pub open spec fn probe_hits(probe: Seq<char>, p: Seq<char>) -> bool {
    regex_compiles(probe, MAX_DFA_SIZE, MAX_NFA_SIZE) && regex_matches(probe, p)
}

/// `i` is the first known ReDoS pattern that finds a match in `p`.
pub open spec fn is_first_redos(p: Seq<char>, i: int) -> bool {
    &&& 0 <= i < REDOS_PATTERN_COUNT
    &&& probe_hits(redos_pattern(i), p)
    &&& forall|j: int| 0 <= j < i ==> !#[trigger] probe_hits(redos_pattern(j), p)
}

/// The first known ReDoS pattern that finds a match in `p`.
pub open spec fn first_redos(p: Seq<char>) -> int {
    choose|i: int| is_first_redos(p, i)
}

/// Why `safe_regex_compile` refuses a pattern: the first check it fails,
/// in the order the checks are made.
pub open spec fn refusal_reason(p: Seq<char>) -> Seq<char> {
    if byte_len(p) > MAX_REGEX_PATTERN_LENGTH {
        too_long_reason(p, MAX_REGEX_PATTERN_LENGTH as nat)
    } else if p.len() == 0 {
        "Empty regex pattern"@
    } else if redos_hit(p) {
        "Pattern matches known ReDoS vulnerability: "@ + redos_pattern(first_redos(p))
    } else if excessive_nesting_spec(p) {
        "Pattern has excessive nesting depth"@
    } else if catastrophic_spec(p) {
        "Pattern may cause catastrophic backtracking"@
    } else {
        "Regex compilation failed: "@ + regex_error(p, MAX_DFA_SIZE, MAX_NFA_SIZE).unwrap()
    }
}

/// Some known ReDoS pattern finds a match in `p`.
pub open spec fn redos_hit(p: Seq<char>) -> bool {
    exists|i: int| 0 <= i < REDOS_PATTERN_COUNT && #[trigger] probe_hits(redos_pattern(i), p)
}

/// Depth and maximal depth of groups, counting `(` up and `)` down (not below zero).
pub open spec fn nesting_scan(s: Seq<char>) -> (int, int)
    decreases s.len(),
{
    if s.len() == 0 {
        (0, 0)
    } else {
        let (d, m) = nesting_scan(s.drop_last());
        let c = s.last();
        if c == '(' {
            (d + 1, if m > d + 1 {
                m
            } else {
                d + 1
            })
        } else if c == ')' {
            (if d > 0 {
                d - 1
            } else {
                0
            }, m)
        } else {
            (d, m)
        }
    }
}

/// The pattern nests groups deeper than [`MAX_NESTING_DEPTH`].
pub open spec fn excessive_nesting_spec(s: Seq<char>) -> bool {
    nesting_scan(s).1 > MAX_NESTING_DEPTH
}

/// The pattern may cause catastrophic backtracking.
pub open spec fn catastrophic_spec(p: Seq<char>) -> bool {
    ||| (exists|i: int| 0 <= i < NESTED_QUANTIFIER_COUNT && #[trigger] probe_hits(nested_quantifier_pattern(i), p))
    ||| contains_seq(p, "(.*|.*)"@)
    ||| contains_seq(p, "(.+|.+)"@)
    ||| contains_seq(p, "([a-zA-Z]+)*$"@)
}

/// Length of a pattern in bytes, as `str::len` returns it.
pub open spec fn byte_len(p: Seq<char>) -> int {
    (encode_utf8(p).len() as usize) as int
}

/// Whether `safe_regex_compile` accepts the pattern.
pub open spec fn safe_regex_accepts(p: Seq<char>) -> bool {
    &&& byte_len(p) <= MAX_REGEX_PATTERN_LENGTH
    &&& p.len() > 0
    &&& !redos_hit(p)
    &&& !excessive_nesting_spec(p)
    &&& !catastrophic_spec(p)
    &&& regex_compiles(p, MAX_DFA_SIZE, MAX_NFA_SIZE)
}

/// Configuration for regex security limits
#[derive(Debug, Clone)]
pub struct RegexSecurityConfig {
    /// Maximum pattern length
    pub max_pattern_length: usize,
    /// Maximum DFA size
    pub max_dfa_size: usize,
    /// Maximum NFA size
    pub max_nfa_size: usize,
    /// Enable ReDoS pattern scanning
    pub enable_redos_scanning: bool,
}

impl Default for RegexSecurityConfig {
    fn default() -> (r: Self)
        ensures
            r.max_pattern_length == MAX_REGEX_PATTERN_LENGTH,
            r.max_dfa_size == MAX_DFA_SIZE,
            r.max_nfa_size == MAX_NFA_SIZE,
            r.enable_redos_scanning,
    {
        RegexSecurityConfig {
            max_pattern_length: MAX_REGEX_PATTERN_LENGTH,
            max_dfa_size: MAX_DFA_SIZE,
            max_nfa_size: MAX_NFA_SIZE,
            enable_redos_scanning: true,
        }
    }
}

/// Whether `safe_regex_compile_with_config` accepts the pattern.
pub open spec fn config_accepts(p: Seq<char>, config: RegexSecurityConfig) -> bool {
    &&& byte_len(p) <= config.max_pattern_length
    &&& (config.enable_redos_scanning ==> !redos_hit(p))
    &&& regex_compiles(p, config.max_dfa_size, config.max_nfa_size)
}

fn unsafe_regex(pattern: &str, reason: &str) -> (r: SigmaError)
    ensures
        r matches SigmaError::UnsafeRegex { pattern: p, reason: m } && p@ == pattern@ && m@ == reason@,
{
    SigmaError::UnsafeRegex { pattern: owned(pattern), reason: owned(reason) }
}

/// The first known ReDoS pattern that finds a match in the pattern, if any.
fn scan_redos(pattern: &str) -> (r: Option<usize>)
    ensures
        r is Some <==> redos_hit(pattern@),
        r matches Some(i) ==> is_first_redos(pattern@, i as int),
{
    let mut i: usize = 0;
    while i < REDOS_PATTERN_COUNT
        invariant
            i <= REDOS_PATTERN_COUNT,
            forall|j: int| 0 <= j < i ==> !#[trigger] probe_hits(redos_pattern(j), pattern@),
        decreases REDOS_PATTERN_COUNT - i,
    {
        let probe = redos_pattern_at(i);
        match compile_regex(probe, MAX_DFA_SIZE, MAX_NFA_SIZE) {
            Ok(re) => {
                if regex_is_match(&re, pattern) {
                    assert(probe_hits(redos_pattern(i as int), pattern@));
                    return Some(i);
                }
            },
            Err(_) => {},
        }
        i = i + 1;
    }
    None
}

/// The reason given for a pattern longer than `max` bytes.
pub open spec fn too_long_reason(p: Seq<char>, max: nat) -> Seq<char> {
    "Pattern too long: "@ + digits_of(byte_len(p) as nat) + " characters (max: "@ + digits_of(max) + ")"@
}

fn too_long_error(pattern: &str, max: usize) -> (r: SigmaError)
    ensures
        r matches SigmaError::UnsafeRegex { pattern: p, reason } && p@ == pattern@ && reason@
            == too_long_reason(pattern@, max as nat),
{
    let reason = owned("Pattern too long: ").concat(usize_to_decimal(pattern.len()).as_str()).concat(
        " characters (max: ",
    ).concat(usize_to_decimal(max).as_str()).concat(")");
    SigmaError::UnsafeRegex { pattern: owned(pattern), reason }
}

fn redos_error(pattern: &str, i: usize) -> (r: SigmaError)
    requires
        i < REDOS_PATTERN_COUNT,
    ensures
        r matches SigmaError::UnsafeRegex { pattern: p, reason } && p@ == pattern@ && reason@
            == "Pattern matches known ReDoS vulnerability: "@ + redos_pattern(i as int),
{
    let reason = owned("Pattern matches known ReDoS vulnerability: ").concat(redos_pattern_at(i));
    SigmaError::UnsafeRegex { pattern: owned(pattern), reason }
}

/// Check for excessive nesting in regex pattern
pub fn has_excessive_nesting(pattern: &str) -> (r: bool)
    ensures
        r == excessive_nesting_spec(pattern@),
{
    let v = chars_of(pattern);
    let mut depth: usize = 0;
    let mut max_depth: usize = 0;
    let mut i: usize = 0;
    while i < v.len()
        invariant
            i <= v@.len(),
            depth <= i,
            max_depth <= i,
            (depth as int, max_depth as int) == nesting_scan(v@.subrange(0, i as int)),
        decreases v.len() - i,
    {
        let c = v[i];
        if c == '(' {
            depth = depth + 1;
            if depth > max_depth {
                max_depth = depth;
            }
        } else if c == ')' {
            if depth > 0 {
                depth = depth - 1;
            }
        }
        assert(v@.subrange(0, i + 1).drop_last() =~= v@.subrange(0, i as int));
        i = i + 1;
    }
    assert(v@.subrange(0, v@.len() as int) =~= v@);
    max_depth > MAX_NESTING_DEPTH
}

/// Check for patterns that may cause catastrophic backtracking
pub fn has_catastrophic_backtracking(pattern: &str) -> (r: bool)
    ensures
        r == catastrophic_spec(pattern@),
{
    let mut i: usize = 0;
    while i < NESTED_QUANTIFIER_COUNT
        invariant
            i <= NESTED_QUANTIFIER_COUNT,
            forall|j: int| 0 <= j < i ==> !#[trigger] probe_hits(nested_quantifier_pattern(j), pattern@),
        decreases NESTED_QUANTIFIER_COUNT - i,
    {
        let probe = nested_quantifier_pattern_at(i);
        match compile_regex(probe, MAX_DFA_SIZE, MAX_NFA_SIZE) {
            Ok(re) => {
                if regex_is_match(&re, pattern) {
                    assert(probe_hits(nested_quantifier_pattern(i as int), pattern@));
                    return true;
                }
            },
            Err(_) => {},
        }
        i = i + 1;
    }
    let v = chars_of(pattern);
    let a = chars_of("(.*|.*)");
    let b = chars_of("(.+|.+)");
    let c = chars_of("([a-zA-Z]+)*$");
    contains_chars(v.as_slice(), a.as_slice()) || contains_chars(v.as_slice(), b.as_slice())
        || contains_chars(v.as_slice(), c.as_slice())
}

/// Validate and compile a regex pattern safely
///
/// This function protects against ReDoS attacks by:
/// - Checking pattern length limits
/// - Scanning for known dangerous patterns
/// - Setting size limits for compilation
pub fn safe_regex_compile(pattern: &str) -> (r: Result<CompiledRegex, SigmaError>)
    ensures
        r is Ok <==> safe_regex_accepts(pattern@),
        r matches Ok(re) ==> re@ == pattern@,
        r matches Err(e) ==> (e matches SigmaError::UnsafeRegex { pattern: p, .. } && p@ == pattern@),
        byte_len(pattern@) > MAX_REGEX_PATTERN_LENGTH ==> (r matches Err(SigmaError::UnsafeRegex { reason, .. })
            && reason@ == too_long_reason(pattern@, MAX_REGEX_PATTERN_LENGTH as nat)),
        r matches Err(SigmaError::UnsafeRegex { reason, .. }) ==> reason@ == refusal_reason(pattern@),
{
    if pattern.len() > MAX_REGEX_PATTERN_LENGTH {
        return Err(too_long_error(pattern, MAX_REGEX_PATTERN_LENGTH));
    }
    if pattern.is_empty() {
        return Err(unsafe_regex(pattern, "Empty regex pattern"));
    }
    match scan_redos(pattern) {
        Some(i) => {
            proof {
                let c = first_redos(pattern@);
                assert(is_first_redos(pattern@, c));
                if c < i as int {
                    assert(!probe_hits(redos_pattern(c), pattern@));
                } else if c > i as int {
                    assert(!probe_hits(redos_pattern(i as int), pattern@));
                }
            }
            return Err(redos_error(pattern, i));
        },
        None => {},
    }
    if has_excessive_nesting(pattern) {
        return Err(unsafe_regex(pattern, "Pattern has excessive nesting depth"));
    }
    if has_catastrophic_backtracking(pattern) {
        return Err(unsafe_regex(pattern, "Pattern may cause catastrophic backtracking"));
    }
    match compile_regex(pattern, MAX_DFA_SIZE, MAX_NFA_SIZE) {
        Ok(re) => Ok(re),
        Err(msg) => {
            let reason = owned("Regex compilation failed: ").concat(msg.as_str());
            Err(SigmaError::UnsafeRegex { pattern: owned(pattern), reason })
        },
    }
}

/// Compile regex with custom security configuration
pub fn safe_regex_compile_with_config(pattern: &str, config: &RegexSecurityConfig) -> (r: Result<
    CompiledRegex,
    SigmaError,
>)
    ensures
        r is Ok <==> config_accepts(pattern@, *config),
        r matches Ok(re) ==> re@ == pattern@,
        r matches Err(e) ==> (e matches SigmaError::UnsafeRegex { pattern: p, .. } && p@ == pattern@),
        byte_len(pattern@) > config.max_pattern_length ==> (r matches Err(SigmaError::UnsafeRegex { reason, .. })
            && reason@ == too_long_reason(pattern@, config.max_pattern_length as nat)),
{
    if pattern.len() > config.max_pattern_length {
        return Err(too_long_error(pattern, config.max_pattern_length));
    }
    if config.enable_redos_scanning {
        match scan_redos(pattern) {
            Some(i) => {
                return Err(redos_error(pattern, i));
            },
            None => {},
        }
    }
    match compile_regex(pattern, config.max_dfa_size, config.max_nfa_size) {
        Ok(re) => Ok(re),
        Err(msg) => {
            let mut reason = owned("Regex compilation failed: ");
            reason.append(msg.as_str());
            Err(SigmaError::UnsafeRegex { pattern: owned(pattern), reason })
        },
    }
}

} // verus!
