//! Columnar string matching: a pattern applied to a column of values at
//! once, a missing value giving a missing answer.
//!
//! Case-insensitive matching goes through the `regex` crate: the pattern is
//! escaped and anchored as the modifier asks, and matched with `(?i)`.
use vstd::prelude::*;

use crate::error::SigmaError;
use crate::pattern::engines::{compile_regex, regex_compiles, regex_error, regex_is_match, regex_matches, CompiledRegex};
use crate::pattern::grouped_matcher::{ends_with, starts_with};
use crate::pattern::security::{MAX_DFA_SIZE, MAX_NFA_SIZE};
use crate::pattern::TextPatternModifier;
use crate::text::{chars_of, contains_chars, contains_seq, occurs_at_exec, owned};

verus! {

/// A character with a meaning in a regex, which `regex::escape` escapes.
pub open spec fn is_regex_meta(c: char) -> bool {
    c == '\\' || c == '.' || c == '+' || c == '*' || c == '?' || c == '(' || c == ')' || c == '|' || c == '['
        || c == ']' || c == '{' || c == '}' || c == '^' || c == '$' || c == '#' || c == '&' || c == '-'
        || c == '~'
}

/// The text `regex::escape` gives for a literal: a backslash before each
/// meta character.
pub open spec fn regex_escaped(text: Seq<char>) -> Seq<char>
    decreases text.len(),
{
    if text.len() == 0 {
        Seq::empty()
    } else {
        regex_escaped(text.drop_last()) + if is_regex_meta(text.last()) {
            seq!['\\', text.last()]
        } else {
            seq![text.last()]
        }
    }
}

/// Escapes a literal for a regex.
///
/// Trusted: calls `regex::escape`. Claims that the result is the text with
/// a backslash before each meta character, as `regex-syntax` writes it.
#[verifier::external_body]
fn regex_escape(text: &str) -> (r: String)
    ensures
        r@ == regex_escaped(text@),
{
    regex::escape(text)
}

/// Vectorized string matcher for columns of values
#[derive(Debug)]
pub struct ArrowStringMatcher {
    pattern: String,
    modifier: TextPatternModifier,
    case_insensitive: bool,
}

/// The regex a case-insensitive match is made with, for a pattern and a
/// modifier: the escaped pattern, anchored at both ends for an exact match,
/// at the start for a prefix and at the end for a suffix; a regex pattern
/// as it is.
pub open spec fn insensitive_regex(pattern: Seq<char>, modifier: TextPatternModifier) -> Seq<char> {
    match modifier {
        TextPatternModifier::NoModifier => "(?i)"@ + ("^"@ + regex_escaped(pattern) + "$"@),
        TextPatternModifier::Prefix => "(?i)"@ + ("^"@ + regex_escaped(pattern)),
        TextPatternModifier::Suffix => "(?i)"@ + (regex_escaped(pattern) + "$"@),
        TextPatternModifier::Regex => "(?i)"@ + pattern,
        _ => "(?i)"@ + regex_escaped(pattern),
    }
}

/// The regex a matcher needs, if it needs one: every case-insensitive
/// match but `All`, and a case-sensitive regex match.
pub open spec fn needed_regex(pattern: Seq<char>, modifier: TextPatternModifier, case_insensitive: bool) -> Option<
    Seq<char>,
> {
    if modifier == TextPatternModifier::All {
        None
    } else if case_insensitive {
        Some(insensitive_regex(pattern, modifier))
    } else if modifier == TextPatternModifier::Regex {
        Some(pattern)
    } else {
        None
    }
}

/// Whether a present value matches.
pub open spec fn cell_matches(pattern: Seq<char>, modifier: TextPatternModifier, case_insensitive: bool, v: Seq<
    char,
>) -> bool {
    match needed_regex(pattern, modifier, case_insensitive) {
        Some(re) => regex_matches(re, v),
        None => match modifier {
            TextPatternModifier::NoModifier => v == pattern,
            TextPatternModifier::Prefix => starts_with(v, pattern),
            TextPatternModifier::Suffix => ends_with(v, pattern),
            _ => contains_seq(v, pattern),
        },
    }
}

/// Whether matching can be done: `All` cannot be applied to a column, and
/// a needed regex must compile.
pub open spec fn evaluates(pattern: Seq<char>, modifier: TextPatternModifier, case_insensitive: bool) -> bool {
    &&& modifier != TextPatternModifier::All
    &&& match needed_regex(pattern, modifier, case_insensitive) {
        Some(re) => regex_compiles(re, MAX_DFA_SIZE, MAX_NFA_SIZE),
        None => true,
    }
}

/// The answers for a column: none for a missing value.
pub open spec fn column_answers(
    pattern: Seq<char>,
    modifier: TextPatternModifier,
    case_insensitive: bool,
    column: Seq<Option<String>>,
) -> Seq<Option<bool>> {
    column.map_values(
        |c: Option<String>|
            match c {
                Some(v) => Some(cell_matches(pattern, modifier, case_insensitive, v@)),
                None => None,
            },
    )
}

/// The text a failed case-insensitive match starts its message with, by
/// modifier.
pub open spec fn failure_prefix(modifier: TextPatternModifier) -> Seq<char> {
    match modifier {
        TextPatternModifier::NoModifier => "Exact match failed: "@,
        TextPatternModifier::Prefix => "Prefix match failed: "@,
        TextPatternModifier::Suffix => "Suffix match failed: "@,
        _ => "Contains match failed: "@,
    }
}

/// The error a matching that cannot be done gives: `All` is refused, a regex
/// that does not compile is an invalid pattern, and a case-insensitive match
/// whose regex does not build is a failed columnar match.
pub open spec fn failure_of(
    pattern: Seq<char>,
    modifier: TextPatternModifier,
    case_insensitive: bool,
    e: SigmaError,
) -> bool {
    let reason = regex_error(needed_regex(pattern, modifier, case_insensitive).unwrap(), MAX_DFA_SIZE, MAX_NFA_SIZE).unwrap();
    if modifier == TextPatternModifier::All {
        e matches SigmaError::Pattern(m) && m@ == "All modifier not supported at array level"@
    } else if modifier == TextPatternModifier::Regex {
        e matches SigmaError::Pattern(m) && m@ == "Invalid regex: "@ + reason
    } else {
        e matches SigmaError::Arrow(m) && m@ == failure_prefix(modifier) + reason
    }
}

/// What evaluating a column gives: the answers when matching can be done,
/// and otherwise the error of the modifier.
pub open spec fn evaluated(
    pattern: Seq<char>,
    modifier: TextPatternModifier,
    case_insensitive: bool,
    column: Seq<Option<String>>,
    r: Result<Vec<Option<bool>>, SigmaError>,
) -> bool {
    &&& r is Ok <==> evaluates(pattern, modifier, case_insensitive)
    &&& r matches Ok(answers) ==> answers@ == column_answers(pattern, modifier, case_insensitive, column)
    &&& r matches Err(e) ==> failure_of(pattern, modifier, case_insensitive, e)
}

fn answer_with_regex(re: &CompiledRegex, column: &[Option<String>]) -> (r: Vec<Option<bool>>)
    ensures
        r@ == column@.map_values(
            |c: Option<String>|
                match c {
                    Some(v) => Some(regex_matches(re@, v@)),
                    None => None,
                },
        ),
{
    let mut out: Vec<Option<bool>> = Vec::new();
    let mut i: usize = 0;
    while i < column.len()
        invariant
            i <= column@.len(),
            out@ =~= column@.take(i as int).map_values(
                |c: Option<String>|
                    match c {
                        Some(v) => Some(regex_matches(re@, v@)),
                        None => None,
                    },
            ),
        decreases column.len() - i,
    {
        match &column[i] {
            Some(v) => out.push(Some(regex_is_match(re, v.as_str()))),
            None => out.push(None),
        }
        i = i + 1;
    }
    assert(column@.take(column@.len() as int) =~= column@);
    out
}

impl ArrowStringMatcher {
    /// The pattern text.
    pub closed spec fn pattern_spec(&self) -> Seq<char> {
        self.pattern@
    }

    /// The modifier.
    pub closed spec fn modifier_spec(&self) -> TextPatternModifier {
        self.modifier
    }

    /// Whether matching ignores case.
    pub closed spec fn insensitive_spec(&self) -> bool {
        self.case_insensitive
    }

    /// Create a new matcher
    pub fn new(pattern: String, modifier: TextPatternModifier, case_insensitive: bool) -> (r: Self)
        ensures
            r.pattern_spec() == pattern@,
            r.modifier_spec() == modifier,
            r.insensitive_spec() == case_insensitive,
    {
        ArrowStringMatcher { pattern, modifier, case_insensitive }
    }

    /// The regex a case-insensitive match is made with
    fn insensitive_pattern(&self) -> (r: String)
        ensures
            r@ == insensitive_regex(self.pattern@, self.modifier),
    {
        match self.modifier {
            TextPatternModifier::Regex => owned("(?i)").concat(self.pattern.as_str()),
            TextPatternModifier::NoModifier => {
                let body = owned("^").concat(regex_escape(self.pattern.as_str()).as_str()).concat("$");
                owned("(?i)").concat(body.as_str())
            },
            TextPatternModifier::Prefix => {
                let body = owned("^").concat(regex_escape(self.pattern.as_str()).as_str());
                owned("(?i)").concat(body.as_str())
            },
            TextPatternModifier::Suffix => {
                let body = regex_escape(self.pattern.as_str()).concat("$");
                owned("(?i)").concat(body.as_str())
            },
            _ => owned("(?i)").concat(regex_escape(self.pattern.as_str()).as_str()),
        }
    }

    /// Evaluate this matcher against a column of values
    pub fn evaluate(&self, column: &[Option<String>]) -> (r: Result<Vec<Option<bool>>, SigmaError>)
        ensures
            evaluated(self.pattern_spec(), self.modifier_spec(), self.insensitive_spec(), column@, r),
    {
        match self.modifier {
            TextPatternModifier::NoModifier => self.exact_match(column),
            TextPatternModifier::Contains => self.contains_match(column),
            TextPatternModifier::Prefix => self.prefix_match(column),
            TextPatternModifier::Suffix => self.suffix_match(column),
            TextPatternModifier::Regex => self.regex_match(column),
            TextPatternModifier::All => self.all_match(column),
            TextPatternModifier::Keyword => self.keyword_match(column),
        }
    }

    /// Exact string matching
    fn exact_match(&self, column: &[Option<String>]) -> (r: Result<Vec<Option<bool>>, SigmaError>)
        requires
            self.modifier == TextPatternModifier::NoModifier,
        ensures
            evaluated(self.pattern@, self.modifier, self.case_insensitive, column@, r),
    {
        if self.case_insensitive {
            self.insensitive_match(column, "Exact match failed: ")
        } else {
            self.literal_match(column)
        }
    }

    /// Contains matching
    fn contains_match(&self, column: &[Option<String>]) -> (r: Result<Vec<Option<bool>>, SigmaError>)
        requires
            self.modifier == TextPatternModifier::Contains || self.modifier == TextPatternModifier::Keyword,
        ensures
            evaluated(self.pattern@, self.modifier, self.case_insensitive, column@, r),
    {
        if self.case_insensitive {
            self.insensitive_match(column, "Contains match failed: ")
        } else {
            self.literal_match(column)
        }
    }

    /// Prefix matching
    fn prefix_match(&self, column: &[Option<String>]) -> (r: Result<Vec<Option<bool>>, SigmaError>)
        requires
            self.modifier == TextPatternModifier::Prefix,
        ensures
            evaluated(self.pattern@, self.modifier, self.case_insensitive, column@, r),
    {
        if self.case_insensitive {
            self.insensitive_match(column, "Prefix match failed: ")
        } else {
            self.literal_match(column)
        }
    }

    /// Suffix matching
    fn suffix_match(&self, column: &[Option<String>]) -> (r: Result<Vec<Option<bool>>, SigmaError>)
        requires
            self.modifier == TextPatternModifier::Suffix,
        ensures
            evaluated(self.pattern@, self.modifier, self.case_insensitive, column@, r),
    {
        if self.case_insensitive {
            self.insensitive_match(column, "Suffix match failed: ")
        } else {
            self.literal_match(column)
        }
    }

    /// Regex matching
    fn regex_match(&self, column: &[Option<String>]) -> (r: Result<Vec<Option<bool>>, SigmaError>)
        requires
            self.modifier == TextPatternModifier::Regex,
        ensures
            evaluated(self.pattern@, self.modifier, self.case_insensitive, column@, r),
    {
        let source = if self.case_insensitive {
            self.insensitive_pattern()
        } else {
            self.pattern.clone()
        };
        match compile_regex(source.as_str(), MAX_DFA_SIZE, MAX_NFA_SIZE) {
            Ok(re) => {
                let out = answer_with_regex(&re, column);
                assert(out@ =~= column_answers(self.pattern@, self.modifier, self.case_insensitive, column@));
                Ok(out)
            },
            Err(e) => {
                let m = owned("Invalid regex: ").concat(e.as_str());
                Err(SigmaError::Pattern(m))
            },
        }
    }

    /// All matching (for keywords): it needs every field, which a single
    /// column does not hold.
    fn all_match(&self, _column: &[Option<String>]) -> (r: Result<Vec<Option<bool>>, SigmaError>)
        requires
            self.modifier == TextPatternModifier::All,
        ensures
            evaluated(self.pattern@, self.modifier, self.case_insensitive, _column@, r),
    {
        Err(SigmaError::Pattern(owned("All modifier not supported at array level")))
    }

    /// Keyword matching: a substring match
    fn keyword_match(&self, column: &[Option<String>]) -> (r: Result<Vec<Option<bool>>, SigmaError>)
        requires
            self.modifier == TextPatternModifier::Keyword,
        ensures
            evaluated(self.pattern@, self.modifier, self.case_insensitive, column@, r),
    {
        self.contains_match(column)
    }

    /// A case-insensitive match through the anchored, escaped pattern; a
    /// regex that does not build fails with `failure` before the reason.
    fn insensitive_match(&self, column: &[Option<String>], failure: &str) -> (r: Result<Vec<Option<bool>>, SigmaError>)
        requires
            self.case_insensitive,
            self.modifier != TextPatternModifier::Regex,
            self.modifier != TextPatternModifier::All,
            failure@ == failure_prefix(self.modifier),
        ensures
            evaluated(self.pattern@, self.modifier, self.case_insensitive, column@, r),
    {
        let source = self.insensitive_pattern();
        match compile_regex(source.as_str(), MAX_DFA_SIZE, MAX_NFA_SIZE) {
            Ok(re) => {
                let out = answer_with_regex(&re, column);
                assert(out@ =~= column_answers(self.pattern@, self.modifier, self.case_insensitive, column@));
                Ok(out)
            },
            Err(e) => {
                let m = owned(failure).concat(e.as_str());
                Err(SigmaError::Arrow(m))
            },
        }
    }

    /// A case-sensitive literal match, value by value.
    fn literal_match(&self, column: &[Option<String>]) -> (r: Result<Vec<Option<bool>>, SigmaError>)
        requires
            !self.case_insensitive,
            self.modifier != TextPatternModifier::Regex,
            self.modifier != TextPatternModifier::All,
        ensures
            evaluated(self.pattern@, self.modifier, self.case_insensitive, column@, r),
    {
        let pc = chars_of(self.pattern.as_str());
        let mut out: Vec<Option<bool>> = Vec::new();
        let mut i: usize = 0;
        while i < column.len()
            invariant
                i <= column@.len(),
                pc@ == self.pattern@,
                !self.case_insensitive,
                self.modifier != TextPatternModifier::Regex,
                self.modifier != TextPatternModifier::All,
                out@ =~= column_answers(self.pattern@, self.modifier, self.case_insensitive, column@.take(i as int)),
            decreases column.len() - i,
        {
            match &column[i] {
                Some(v) => {
                    let vc = chars_of(v.as_str());
                    let hit = match self.modifier {
                        TextPatternModifier::NoModifier => crate::text::chars_eq(&vc, &pc),
                        TextPatternModifier::Prefix => occurs_at_exec(&vc, &pc, 0),
                        TextPatternModifier::Suffix => pc.len() <= vc.len() && occurs_at_exec(
                            &vc,
                            &pc,
                            vc.len() - pc.len(),
                        ),
                        _ => contains_chars(&vc, &pc),
                    };
                    out.push(Some(hit));
                },
                None => out.push(None),
            }
            i = i + 1;
        }
        assert(column@.take(column@.len() as int) =~= column@);
        Ok(out)
    }
}

/// Vectorized pattern matching for multiple patterns
#[derive(Debug)]
pub struct ArrowMultiStringMatcher {
    matchers: Vec<ArrowStringMatcher>,
    combine_with_and: bool,
}

/// Two answers combined with AND: missing if either is missing.
pub open spec fn and_answer(a: Option<bool>, b: Option<bool>) -> Option<bool> {
    match (a, b) {
        (Some(x), Some(y)) => Some(x && y),
        _ => None,
    }
}

/// Two answers combined with OR: missing if either is missing.
pub open spec fn or_answer(a: Option<bool>, b: Option<bool>) -> Option<bool> {
    match (a, b) {
        (Some(x), Some(y)) => Some(x || y),
        _ => None,
    }
}

/// The answers of several matchers combined, the first with the second,
/// the result with the third, and so on.
pub open spec fn combined_answers(
    ms: Seq<ArrowStringMatcher>,
    and: bool,
    column: Seq<Option<String>>,
) -> Seq<Option<bool>>
    decreases ms.len(),
{
    if ms.len() <= 1 {
        if ms.len() == 0 {
            Seq::new(column.len(), |i: int| Some(false))
        } else {
            column_answers(ms[0].pattern_spec(), ms[0].modifier_spec(), ms[0].insensitive_spec(), column)
        }
    } else {
        let before = combined_answers(ms.drop_last(), and, column);
        let last = column_answers(ms.last().pattern_spec(), ms.last().modifier_spec(), ms.last().insensitive_spec(), column);
        Seq::new(column.len(), |i: int| if and {
            and_answer(before[i], last[i])
        } else {
            or_answer(before[i], last[i])
        })
    }
}

impl ArrowMultiStringMatcher {
    /// The matchers, in order.
    pub closed spec fn matchers_spec(&self) -> Seq<ArrowStringMatcher> {
        self.matchers@
    }

    /// Whether answers combine with AND (else OR).
    pub closed spec fn and_spec(&self) -> bool {
        self.combine_with_and
    }

    /// Create a new multi-pattern matcher, combining with OR
    pub fn new(patterns: Vec<String>, modifier: TextPatternModifier, case_insensitive: bool) -> (r: Self)
        ensures
            r.matchers_spec().len() == patterns@.len(),
            forall|i: int|
                0 <= i < patterns@.len() ==> (#[trigger] r.matchers_spec()[i]).pattern_spec() == patterns@[i]@
                    && r.matchers_spec()[i].modifier_spec() == modifier && r.matchers_spec()[i].insensitive_spec()
                    == case_insensitive,
            !r.and_spec(),
    {
        let mut matchers: Vec<ArrowStringMatcher> = Vec::new();
        let mut i: usize = 0;
        while i < patterns.len()
            invariant
                i <= patterns@.len(),
                matchers@.len() == i,
                forall|k: int|
                    0 <= k < i ==> (#[trigger] matchers@[k]).pattern_spec() == patterns@[k]@
                        && matchers@[k].modifier_spec() == modifier && matchers@[k].insensitive_spec()
                        == case_insensitive,
            decreases patterns.len() - i,
        {
            matchers.push(ArrowStringMatcher::new(patterns[i].clone(), modifier, case_insensitive));
            i = i + 1;
        }
        ArrowMultiStringMatcher { matchers, combine_with_and: false }
    }

    /// Combine with AND instead of OR
    pub fn with_and_combination(self) -> (r: Self)
        ensures
            r.matchers_spec() == self.matchers_spec(),
            r.and_spec(),
    {
        ArrowMultiStringMatcher { matchers: self.matchers, combine_with_and: true }
    }

    /// Evaluate all patterns against the column, stopping at the first
    /// matcher that cannot be evaluated
    pub fn evaluate(&self, column: &[Option<String>]) -> (r: Result<Vec<Option<bool>>, SigmaError>)
        ensures
            r is Ok <==> forall|k: int|
                0 <= k < self.matchers_spec().len() ==> evaluates(
                    (#[trigger] self.matchers_spec()[k]).pattern_spec(),
                    self.matchers_spec()[k].modifier_spec(),
                    self.matchers_spec()[k].insensitive_spec(),
                ),
            r matches Ok(answers) ==> answers@ == combined_answers(self.matchers_spec(), self.and_spec(), column@),
    {
        if self.matchers.len() == 0 {
            let mut out: Vec<Option<bool>> = Vec::new();
            let mut i: usize = 0;
            while i < column.len()
                invariant
                    i <= column@.len(),
                    out@ =~= Seq::new(i as nat, |j: int| Some(false)),
                decreases column.len() - i,
            {
                out.push(Some(false));
                i = i + 1;
            }
            return Ok(out);
        }
        let mut result = match self.matchers[0].evaluate(column) {
            Ok(a) => a,
            Err(e) => {
                return Err(e);
            },
        };
        assert(self.matchers@.take(1).drop_last() =~= Seq::<ArrowStringMatcher>::empty());
        let mut k: usize = 1;
        while k < self.matchers.len()
            invariant
                1 <= k <= self.matchers@.len(),
                result@.len() == column@.len(),
                result@ == combined_answers(self.matchers@.take(k as int), self.combine_with_and, column@),
                forall|q: int|
                    0 <= q < k ==> evaluates(
                        (#[trigger] self.matchers@[q]).pattern_spec(),
                        self.matchers@[q].modifier_spec(),
                        self.matchers@[q].insensitive_spec(),
                    ),
            decreases self.matchers.len() - k,
        {
            let mask = match self.matchers[k].evaluate(column) {
                Ok(a) => a,
                Err(e) => {
                    return Err(e);
                },
            };
            let ghost before = result@;
            let mut next: Vec<Option<bool>> = Vec::new();
            let mut i: usize = 0;
            while i < column.len()
                invariant
                    i <= column@.len(),
                    result@ == before,
                    before.len() == column@.len(),
                    mask@.len() == column@.len(),
                    next@.len() == i,
                    forall|j: int|
                        0 <= j < i ==> #[trigger] next@[j] == (if self.combine_with_and {
                            and_answer(before[j], mask@[j])
                        } else {
                            or_answer(before[j], mask@[j])
                        }),
                decreases column.len() - i,
            {
                let a = result[i];
                let b = mask[i];
                let c = match (a, b) {
                    (Some(x), Some(y)) => Some(if self.combine_with_and {
                        x && y
                    } else {
                        x || y
                    }),
                    _ => None,
                };
                next.push(c);
                i = i + 1;
            }
            assert(self.matchers@.take(k + 1).drop_last() =~= self.matchers@.take(k as int));
            assert(self.matchers@.take(k + 1).last() == self.matchers@[k as int]);
            assert(next@ =~= combined_answers(self.matchers@.take(k + 1), self.combine_with_and, column@));
            result = next;
            k = k + 1;
        }
        assert(self.matchers@.take(self.matchers@.len() as int) =~= self.matchers@);
        Ok(result)
    }
}

} // verus!
