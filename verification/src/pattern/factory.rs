//! Factory functions for creating pattern matchers
use vstd::prelude::*;

use crate::pattern::engines::{compile_glob, glob_compiles, glob_error, glob_matches, regex_matches};
use crate::pattern::escape::{escape_chars, escape_spec};
use crate::pattern::num_matcher::{num_matcher_values, NumMatcher, NumMatchers, NumPattern};
use crate::pattern::security::{refusal_reason, safe_regex_accepts, safe_regex_compile};
use crate::pattern::string_matcher::{
    all_match_spec, any_match_spec, content_match, lemma_prefix_match_is_beginning,
    lemma_suffix_match_is_ending, prefix_match, string_match_spec, suffix_match,
    ContentPattern, GlobPatternMatcher, PrefixPattern, RegexPattern, StringMatcher,
    StringMatchers, StringMatchersConj, SuffixPattern,
};
use crate::pattern::whitespace::handle_ws_spec;
use crate::pattern::TextPatternModifier;
use crate::error::SigmaError;
use crate::text::{chars_of, contains_char, eq_ignore_ascii_case, owned, string_from_chars, sub_chars};
use vstd::string::StringExecFns;

verus! {

/// How one pattern text is matched.
pub enum PatternPlan {
    /// A regex with this text
    Regex(Seq<char>),
    /// A glob with this text
    Glob(Seq<char>),
    /// Equality with the pattern
    Content,
    /// The pattern is a prefix
    Prefix,
    /// The pattern is a suffix
    Suffix,
}

/// `*`, the text, `*`: a glob that finds the text anywhere.
pub open spec fn contains_glob(escaped: Seq<char>) -> Seq<char> {
    seq!['*'] + escaped + seq!['*']
}

/// How `new_string_matcher` matches the pattern text `p` under `modifier`.
pub open spec fn plan_of(modifier: TextPatternModifier, p: Seq<char>) -> PatternPlan {
    match modifier {
        TextPatternModifier::Regex => PatternPlan::Regex(p),
        TextPatternModifier::Contains => PatternPlan::Glob(contains_glob(escape_spec(p))),
        TextPatternModifier::Suffix => PatternPlan::Suffix,
        TextPatternModifier::Prefix => PatternPlan::Prefix,
        _ => {
            if p.len() > 2 && p[0] == '/' && p.last() == '/' {
                PatternPlan::Regex(p.subrange(1, p.len() - 1))
            } else if modifier == TextPatternModifier::Keyword {
                PatternPlan::Glob(contains_glob(escape_spec(p)))
            } else if p.contains('*') {
                PatternPlan::Glob(escape_spec(p))
            } else {
                PatternPlan::Content
            }
        },
    }
}

/// What each modifier makes a pattern text `p` match, for every value `v`
/// (after its whitespace is handled): `startswith` the values that begin
/// with `p`, `endswith` those that end with it (up to ASCII case when
/// matching ignores case), `re` those the regex `p` finds a match in, and a
/// plain text without `*` (not written `/.../`) under no modifier exactly
/// `p` itself.
pub proof fn lemma_modifier_meaning(p: Seq<char>, lowercase: bool, no_collapse_ws: bool, v: Seq<char>)
    ensures
        ({
            let h = handle_ws_spec(v, no_collapse_ws);
            &&& !lowercase ==> (plan_matches(plan_of(TextPatternModifier::Prefix, p), p, lowercase, no_collapse_ws, v)
                <==> exists|rest: Seq<char>| h == #[trigger] (p + rest))
            &&& lowercase ==> (plan_matches(plan_of(TextPatternModifier::Prefix, p), p, lowercase, no_collapse_ws, v)
                <==> exists|u: Seq<char>, rest: Seq<char>| h == #[trigger] (u + rest) && eq_ignore_ascii_case(u, p))
            &&& !lowercase ==> (plan_matches(plan_of(TextPatternModifier::Suffix, p), p, lowercase, no_collapse_ws, v)
                <==> exists|front: Seq<char>| h == #[trigger] (front + p))
            &&& lowercase ==> (plan_matches(plan_of(TextPatternModifier::Suffix, p), p, lowercase, no_collapse_ws, v)
                <==> exists|front: Seq<char>, u: Seq<char>| h == #[trigger] (front + u) && eq_ignore_ascii_case(u, p))
            &&& plan_matches(plan_of(TextPatternModifier::Regex, p), p, lowercase, no_collapse_ws, v)
                == regex_matches(p, v)
            &&& (!p.contains('*') && !(p.len() > 2 && p[0] == '/' && p.last() == '/') && !lowercase) ==> (
                plan_matches(plan_of(TextPatternModifier::NoModifier, p), p, lowercase, no_collapse_ws, v) <==> h == p)
        }),
{
    let h = handle_ws_spec(v, no_collapse_ws);
    lemma_prefix_match_is_beginning(p, h);
    lemma_suffix_match_is_ending(p, h);
}

/// Whether a plan can be built (its regex is safe and compiles, its glob compiles).
pub open spec fn plan_ok(plan: PatternPlan) -> bool {
    match plan {
        PatternPlan::Regex(src) => safe_regex_accepts(src),
        PatternPlan::Glob(src) => glob_compiles(src),
        _ => true,
    }
}

/// What the matcher built from pattern `p` answers for the value `v`.
pub open spec fn plan_matches(
    plan: PatternPlan,
    p: Seq<char>,
    lowercase: bool,
    no_collapse_ws: bool,
    v: Seq<char>,
) -> bool {
    let h = handle_ws_spec(v, no_collapse_ws);
    match plan {
        PatternPlan::Regex(src) => regex_matches(src, v),
        PatternPlan::Glob(src) => glob_matches(src, h),
        PatternPlan::Content => content_match(p, lowercase, h),
        PatternPlan::Prefix => prefix_match(p, lowercase, h),
        PatternPlan::Suffix => suffix_match(p, lowercase, h),
    }
}

/// The message a plan that cannot be built fails with: an unsafe regex
/// is refused with the reason of the check it fails, a glob that does not
/// compile with the glob crate's reason.
pub open spec fn plan_error(plan: PatternPlan, e: Seq<char>) -> bool {
    match plan {
        PatternPlan::Regex(src) => e == "Unsafe regex pattern: "@ + refusal_reason(src),
        PatternPlan::Glob(src) => e == "Invalid glob pattern: "@ + glob_error(src).unwrap(),
        _ => false,
    }
}

/// The error of a list of patterns: the message of the first pattern that
/// cannot be built.
pub open spec fn first_plan_error(modifier: TextPatternModifier, patterns: Seq<String>, e: Seq<char>) -> bool {
    exists|i: int|
        0 <= i < patterns.len() && (forall|j: int| 0 <= j < i ==> #[trigger] plan_ok(plan_of(modifier, patterns[j]@)))
            && !plan_ok(plan_of(modifier, patterns[i]@)) && #[trigger] plan_error(plan_of(modifier, patterns[i]@), e)
}

/// Every pattern of the list can be built.
pub open spec fn all_plans_ok(modifier: TextPatternModifier, patterns: Seq<String>) -> bool {
    forall|i: int| 0 <= i < patterns.len() ==> #[trigger] plan_ok(plan_of(modifier, patterns[i]@))
}

/// What the matcher built from the pattern list answers for `v`: with `all`,
/// every pattern must match; else one of them.
pub open spec fn patterns_match(
    modifier: TextPatternModifier,
    lowercase: bool,
    all: bool,
    no_collapse_ws: bool,
    patterns: Seq<String>,
    v: Seq<char>,
) -> bool {
    if all {
        forall|i: int|
            0 <= i < patterns.len() ==> #[trigger] plan_matches(
                plan_of(modifier, patterns[i]@),
                patterns[i]@,
                lowercase,
                no_collapse_ws,
                v,
            )
    } else {
        exists|i: int|
            0 <= i < patterns.len() && #[trigger] plan_matches(
                plan_of(modifier, patterns[i]@),
                patterns[i]@,
                lowercase,
                no_collapse_ws,
                v,
            )
    }
}

/// `any_match_spec` is "one of the matchers matches".
pub proof fn lemma_any_match(ms: Seq<StringMatcher>, v: Seq<char>)
    ensures
        any_match_spec(ms, v) <==> exists|i: int| 0 <= i < ms.len() && #[trigger] string_match_spec(ms[i], v),
    decreases ms.len(),
{
    if ms.len() > 0 {
        assert(any_match_spec(ms, v) == (string_match_spec(ms[0], v) || any_match_spec(ms.drop_first(), v)));
        lemma_any_match(ms.drop_first(), v);
        if any_match_spec(ms.drop_first(), v) {
            let i = choose|i: int| 0 <= i < ms.drop_first().len() && #[trigger] string_match_spec(ms.drop_first()[i], v);
            assert(string_match_spec(ms[i + 1], v));
        }
        if exists|i: int| 0 <= i < ms.len() && #[trigger] string_match_spec(ms[i], v) {
            let i = choose|i: int| 0 <= i < ms.len() && #[trigger] string_match_spec(ms[i], v);
            if i > 0 {
                assert(string_match_spec(ms.drop_first()[i - 1], v));
            }
        }
    }
}

/// `all_match_spec` is "every matcher matches".
pub proof fn lemma_all_match(ms: Seq<StringMatcher>, v: Seq<char>)
    ensures
        all_match_spec(ms, v) <==> forall|i: int| 0 <= i < ms.len() ==> #[trigger] string_match_spec(ms[i], v),
    decreases ms.len(),
{
    if ms.len() > 0 {
        assert(all_match_spec(ms, v) == (string_match_spec(ms[0], v) && all_match_spec(ms.drop_first(), v)));
        lemma_all_match(ms.drop_first(), v);
        if all_match_spec(ms, v) {
            assert forall|i: int| 0 <= i < ms.len() implies #[trigger] string_match_spec(ms[i], v) by {
                if i > 0 {
                    assert(string_match_spec(ms.drop_first()[i - 1], v));
                }
            }
        }
        if forall|i: int| 0 <= i < ms.len() ==> #[trigger] string_match_spec(ms[i], v) {
            assert forall|i: int| 0 <= i < ms.drop_first().len() implies #[trigger] string_match_spec(ms.drop_first()[i], v) by {
                assert(string_match_spec(ms[i + 1], v));
            }
        }
    }
}

/// Efficiently create a contains pattern by prepending and appending "*"
fn create_contains_pattern(escaped: &[char]) -> (r: String)
    ensures
        r@ == contains_glob(escaped@),
{
    let mut v: Vec<char> = Vec::new();
    v.push('*');
    let mut i: usize = 0;
    while i < escaped.len()
        invariant
            i <= escaped@.len(),
            v@ == seq!['*'] + escaped@.subrange(0, i as int),
        decreases escaped.len() - i,
    {
        v.push(escaped[i]);
        i = i + 1;
        assert(v@ =~= seq!['*'] + escaped@.subrange(0, i as int));
    }
    v.push('*');
    assert(escaped@.subrange(0, escaped@.len() as int) =~= escaped@);
    assert(v@ =~= contains_glob(escaped@));
    string_from_chars(v.as_slice())
}

fn glob_matcher(glob_pattern: &str, no_collapse_ws: bool) -> (r: Result<StringMatcher, String>)
    ensures
        r is Ok <==> glob_compiles(glob_pattern@),
        r matches Err(e) ==> e@ == "Invalid glob pattern: "@ + glob_error(glob_pattern@).unwrap(),
        r matches Ok(m) ==> forall|v: Seq<char>| #[trigger] string_match_spec(m, v) == glob_matches(glob_pattern@, handle_ws_spec(v, no_collapse_ws)),
{
    match compile_glob(glob_pattern) {
        Ok(glob) => Ok(StringMatcher::Glob(GlobPatternMatcher { glob, no_collapse_ws })),
        Err(e) => Err(owned("Invalid glob pattern: ").concat(e.as_str())),
    }
}

fn regex_matcher(regex_str: &str) -> (r: Result<StringMatcher, String>)
    ensures
        r is Ok <==> safe_regex_accepts(regex_str@),
        r matches Err(e) ==> e@ == "Unsafe regex pattern: "@ + refusal_reason(regex_str@),
        r matches Ok(m) ==> forall|v: Seq<char>| #[trigger] string_match_spec(m, v) == regex_matches(regex_str@, v),
{
    match safe_regex_compile(regex_str) {
        Ok(regex) => Ok(StringMatcher::Regex(RegexPattern { regex })),
        Err(e) => {
            let reason = match e {
                SigmaError::UnsafeRegex { reason, .. } => reason,
                _ => String::new(),
            };
            Err(owned("Unsafe regex pattern: ").concat(reason.as_str()))
        },
    }
}

/// Builds the matcher of one pattern.
fn new_single_matcher(
    modifier: TextPatternModifier,
    lowercase: bool,
    no_collapse_ws: bool,
    pattern: &String,
) -> (r: Result<StringMatcher, String>)
    ensures
        r is Ok <==> plan_ok(plan_of(modifier, pattern@)),
        r matches Err(e) ==> plan_error(plan_of(modifier, pattern@), e@),
        r matches Ok(m) ==> forall|v: Seq<char>| #[trigger] string_match_spec(m, v) == plan_matches(plan_of(modifier, pattern@), pattern@, lowercase, no_collapse_ws, v),
{
    let p = chars_of(pattern.as_str());
    match modifier {
        TextPatternModifier::Regex => regex_matcher(pattern.as_str()),
        TextPatternModifier::Contains => {
            let escaped = escape_chars(p.as_slice());
            let glob_pattern = create_contains_pattern(escaped.as_slice());
            glob_matcher(glob_pattern.as_str(), no_collapse_ws)
        },
        TextPatternModifier::Suffix => Ok(
            StringMatcher::Suffix(SuffixPattern { token: pattern.clone(), lowercase, no_collapse_ws }),
        ),
        TextPatternModifier::Prefix => Ok(
            StringMatcher::Prefix(PrefixPattern { token: pattern.clone(), lowercase, no_collapse_ws }),
        ),
        _ => {
            let n = p.len();
            if n > 2 && p[0] == '/' && p[n - 1] == '/' {
                let inner = sub_chars(p.as_slice(), 1, n - 1);
                let regex_str = string_from_chars(inner.as_slice());
                regex_matcher(regex_str.as_str())
            } else if modifier == TextPatternModifier::Keyword {
                let escaped = escape_chars(p.as_slice());
                let glob_pattern = create_contains_pattern(escaped.as_slice());
                glob_matcher(glob_pattern.as_str(), no_collapse_ws)
            } else if contains_char(p.as_slice(), '*') {
                let escaped = escape_chars(p.as_slice());
                let glob_pattern = string_from_chars(escaped.as_slice());
                glob_matcher(glob_pattern.as_str(), no_collapse_ws)
            } else {
                Ok(StringMatcher::Content(ContentPattern { token: pattern.clone(), lowercase, no_collapse_ws }))
            }
        },
    }
}

/// Create a new string matcher based on patterns and modifiers
pub fn new_string_matcher(
    modifier: TextPatternModifier,
    lowercase: bool,
    all: bool,
    no_collapse_ws: bool,
    patterns: Vec<String>,
) -> (r: Result<StringMatcher, String>)
    ensures
        patterns@.len() == 0 ==> (r matches Err(e) && e@ == "No patterns defined for matcher object"@),
        r is Ok <==> patterns@.len() > 0 && all_plans_ok(modifier, patterns@),
        patterns@.len() > 0 ==> (r matches Err(e) ==> first_plan_error(modifier, patterns@, e@)),
        r matches Ok(m) ==> forall|v: Seq<char>| #[trigger] string_match_spec(m, v) == patterns_match(modifier, lowercase, all, no_collapse_ws, patterns@, v),
{
    if patterns.len() == 0 {
        return Err(owned("No patterns defined for matcher object"));
    }
    let mut matchers: Vec<StringMatcher> = Vec::new();
    let mut i: usize = 0;
    while i < patterns.len()
        invariant
            i <= patterns@.len(),
            matchers@.len() == i,
            forall|j: int| 0 <= j < i ==> #[trigger] plan_ok(plan_of(modifier, patterns@[j]@)),
            forall|j: int, v: Seq<char>| 0 <= j < i ==> #[trigger] string_match_spec(matchers@[j], v) == plan_matches(plan_of(modifier, patterns@[j]@), patterns@[j]@, lowercase, no_collapse_ws, v),
        decreases patterns.len() - i,
    {
        match new_single_matcher(modifier, lowercase, no_collapse_ws, &patterns[i]) {
            Ok(m) => {
                matchers.push(m);
            },
            Err(e) => {
                assert(plan_error(plan_of(modifier, patterns@[i as int]@), e@));
                return Err(e);
            },
        }
        i = i + 1;
    }
    if matchers.len() == 1 {
        let m = matchers.pop().unwrap();
        assert forall|v: Seq<char>| #[trigger] string_match_spec(m, v) == patterns_match(modifier, lowercase, all, no_collapse_ws, patterns@, v) by {
            assert(string_match_spec(matchers@.push(m)[0], v) == plan_matches(plan_of(modifier, patterns@[0]@), patterns@[0]@, lowercase, no_collapse_ws, v));
        }
        Ok(m)
    } else if all {
        let ghost ms = matchers@;
        let r = StringMatcher::All(StringMatchersConj::new(matchers).optimize());
        assert forall|v: Seq<char>| #[trigger] string_match_spec(r, v) == patterns_match(modifier, lowercase, all, no_collapse_ws, patterns@, v) by {
            lemma_all_match(ms, v);
            assert(string_match_spec(r, v) == all_match_spec(ms, v));
            if patterns_match(modifier, lowercase, all, no_collapse_ws, patterns@, v) {
                assert forall|j: int| 0 <= j < ms.len() implies #[trigger] string_match_spec(ms[j], v) by {
                    assert(plan_matches(plan_of(modifier, patterns@[j]@), patterns@[j]@, lowercase, no_collapse_ws, v));
                }
            }
            if all_match_spec(ms, v) {
                assert forall|j: int| 0 <= j < patterns@.len() implies #[trigger] plan_matches(plan_of(modifier, patterns@[j]@), patterns@[j]@, lowercase, no_collapse_ws, v) by {
                    assert(string_match_spec(ms[j], v));
                }
            }
        }
        Ok(r)
    } else {
        let ghost ms = matchers@;
        let r = StringMatcher::Any(StringMatchers::new(matchers).optimize());
        assert forall|v: Seq<char>| #[trigger] string_match_spec(r, v) == patterns_match(modifier, lowercase, all, no_collapse_ws, patterns@, v) by {
            lemma_any_match(ms, v);
            if patterns_match(modifier, lowercase, all, no_collapse_ws, patterns@, v) {
                let j = choose|j: int| 0 <= j < patterns@.len() && #[trigger] plan_matches(plan_of(modifier, patterns@[j]@), patterns@[j]@, lowercase, no_collapse_ws, v);
                assert(string_match_spec(ms[j], v));
            }
        }
        Ok(r)
    }
}

/// Create a new numeric matcher from a list of values
pub fn new_num_matcher(values: Vec<i64>) -> (r: Result<NumMatcher, String>)
    ensures
        values@.len() == 0 ==> (r matches Err(e) && e@ == "No patterns defined for matcher object"@),
        r is Ok <==> values@.len() > 0,
        r matches Ok(m) ==> num_matcher_values(m) == values@,
{
    if values.len() == 0 {
        return Err(owned("No patterns defined for matcher object"));
    }
    if values.len() == 1 {
        let m = NumMatcher::Single(NumPattern { value: values[0] });
        assert(num_matcher_values(m) =~= values@);
        return Ok(m);
    }
    let mut matchers: Vec<NumPattern> = Vec::new();
    let mut i: usize = 0;
    while i < values.len()
        invariant
            i <= values@.len(),
            matchers@.map_values(|p: NumPattern| p.value) == values@.subrange(0, i as int),
        decreases values.len() - i,
    {
        let ghost before = matchers@;
        matchers.push(NumPattern { value: values[i] });
        assert(matchers@.map_values(|p: NumPattern| p.value) =~= before.map_values(|p: NumPattern| p.value).push(values@[i as int]));
        i = i + 1;
        assert(values@.subrange(0, i as int) =~= values@.subrange(0, i - 1).push(values@[i - 1]));
    }
    assert(values@.subrange(0, values@.len() as int) =~= values@);
    Ok(NumMatcher::Many(NumMatchers::new(matchers)))
}

} // verus!
