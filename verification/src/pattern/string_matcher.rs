//! String pattern matching implementations
use vstd::prelude::*;

use crate::pattern::engines::{
    glob_is_match, glob_matches, regex_is_match, regex_matches, CompiledGlob, CompiledRegex,
};
use crate::pattern::escape::{escape_chars, escape_spec};
use crate::pattern::whitespace::{handle_whitespace_chars, handle_ws_spec};
use crate::text::{
    ascii_lower, chars_eq, chars_eq_ignore_ascii_case_at, chars_of, eq_ignore_ascii_case, occurs_at_exec,
    string_from_chars,
};

verus! {

/// Pattern for exact content matching
#[derive(Debug, Clone)]
pub struct ContentPattern {
    /// The token to match
    pub token: String,
    /// Whether to perform case-insensitive matching
    pub lowercase: bool,
    /// Whether to preserve whitespace
    pub no_collapse_ws: bool,
}

/// Pattern for prefix matching
#[derive(Debug, Clone)]
pub struct PrefixPattern {
    /// The token to match as prefix
    pub token: String,
    /// Whether to perform case-insensitive matching
    pub lowercase: bool,
    /// Whether to preserve whitespace
    pub no_collapse_ws: bool,
}

/// Pattern for suffix matching
#[derive(Debug, Clone)]
pub struct SuffixPattern {
    /// The token to match as suffix
    pub token: String,
    /// Whether to perform case-insensitive matching
    pub lowercase: bool,
    /// Whether to preserve whitespace
    pub no_collapse_ws: bool,
}

/// Pattern for regular expression matching
#[derive(Debug)]
pub struct RegexPattern {
    /// The compiled regular expression
    pub regex: CompiledRegex,
}

/// Pattern for glob matching
#[derive(Debug)]
pub struct GlobPatternMatcher {
    /// The compiled glob pattern
    pub glob: CompiledGlob,
    /// Whether to preserve whitespace
    pub no_collapse_ws: bool,
}

/// Collection of string matchers (OR logic)
#[derive(Debug)]
pub struct StringMatchers {
    /// The matchers, of which one must match
    pub matchers: Vec<StringMatcher>,
}

/// Collection of string matchers (AND logic)
#[derive(Debug)]
pub struct StringMatchersConj {
    /// The matchers, all of which must match
    pub matchers: Vec<StringMatcher>,
}

/// A string matcher of any kind.
#[derive(Debug)]
pub enum StringMatcher {
    /// Exact content
    Content(ContentPattern),
    /// Prefix
    Prefix(PrefixPattern),
    /// Suffix
    Suffix(SuffixPattern),
    /// Regular expression
    Regex(RegexPattern),
    /// Glob
    Glob(GlobPatternMatcher),
    /// One of several
    Any(StringMatchers),
    /// All of several
    All(StringMatchersConj),
}

/// Whether `v` (already whitespace-handled) equals the token.
pub open spec fn content_match(token: Seq<char>, lowercase: bool, h: Seq<char>) -> bool {
    if lowercase {
        eq_ignore_ascii_case(h, token)
    } else {
        h == token
    }
}

/// Whether `h` starts with the token.
pub open spec fn prefix_match(token: Seq<char>, lowercase: bool, h: Seq<char>) -> bool {
    &&& h.len() >= token.len()
    &&& if lowercase {
        eq_ignore_ascii_case(h.subrange(0, token.len() as int), token)
    } else {
        h.subrange(0, token.len() as int) == token
    }
}

/// Whether `h` ends with the token.
pub open spec fn suffix_match(token: Seq<char>, lowercase: bool, h: Seq<char>) -> bool {
    &&& h.len() >= token.len()
    &&& if lowercase {
        eq_ignore_ascii_case(h.subrange(h.len() - token.len(), h.len() as int), token)
    } else {
        h.subrange(h.len() - token.len(), h.len() as int) == token
    }
}

/// A value ends with a token exactly when it is some text followed by the
/// token; with `lowercase` set, followed by a text equal to the token up to
/// ASCII case.
pub proof fn lemma_suffix_match_is_ending(token: Seq<char>, h: Seq<char>)
    ensures
        suffix_match(token, false, h) <==> exists|p: Seq<char>| h == #[trigger] (p + token),
        suffix_match(token, true, h) <==> exists|p: Seq<char>, u: Seq<char>|
            h == #[trigger] (p + u) && eq_ignore_ascii_case(u, token),
{
    if suffix_match(token, false, h) {
        let p = h.subrange(0, h.len() - token.len());
        assert(h == p + token);
    }
    if exists|p: Seq<char>| h == #[trigger] (p + token) {
        let p = choose|p: Seq<char>| h == #[trigger] (p + token);
        assert(h.subrange(h.len() - token.len(), h.len() as int) =~= token);
    }
    if suffix_match(token, true, h) {
        let p = h.subrange(0, h.len() - token.len());
        let u = h.subrange(h.len() - token.len(), h.len() as int);
        assert(h == p + u);
    }
    if exists|p: Seq<char>, u: Seq<char>| h == #[trigger] (p + u) && eq_ignore_ascii_case(u, token) {
        let (p, u) = choose|p: Seq<char>, u: Seq<char>| h == #[trigger] (p + u) && eq_ignore_ascii_case(u, token);
        assert(h.subrange(h.len() - token.len(), h.len() as int) =~= u);
    }
}

/// A value starts with a token exactly when it is the token followed by
/// some text; with `lowercase` set, a text equal to the token up to ASCII
/// case followed by some text.
pub proof fn lemma_prefix_match_is_beginning(token: Seq<char>, h: Seq<char>)
    ensures
        prefix_match(token, false, h) <==> exists|p: Seq<char>| h == #[trigger] (token + p),
        prefix_match(token, true, h) <==> exists|u: Seq<char>, p: Seq<char>|
            h == #[trigger] (u + p) && eq_ignore_ascii_case(u, token),
{
    if prefix_match(token, false, h) {
        let p = h.subrange(token.len() as int, h.len() as int);
        assert(h == token + p);
    }
    if exists|p: Seq<char>| h == #[trigger] (token + p) {
        let p = choose|p: Seq<char>| h == #[trigger] (token + p);
        assert(h.subrange(0, token.len() as int) =~= token);
    }
    if prefix_match(token, true, h) {
        let u = h.subrange(0, token.len() as int);
        let p = h.subrange(token.len() as int, h.len() as int);
        assert(h == u + p);
    }
    if exists|u: Seq<char>, p: Seq<char>| h == #[trigger] (u + p) && eq_ignore_ascii_case(u, token) {
        let (u, p) = choose|u: Seq<char>, p: Seq<char>| h == #[trigger] (u + p) && eq_ignore_ascii_case(u, token);
        assert(h.subrange(0, token.len() as int) =~= u);
    }
}

proof fn lemma_case_equal_same_partners(a: Seq<char>, b: Seq<char>, c: Seq<char>)
    requires
        eq_ignore_ascii_case(a, b),
    ensures
        eq_ignore_ascii_case(a, c) == eq_ignore_ascii_case(b, c),
{
    if eq_ignore_ascii_case(a, c) {
        assert forall|i: int| 0 <= i < b.len() implies #[trigger] ascii_lower(b[i]) == ascii_lower(c[i]) by {
            assert(ascii_lower(a[i]) == ascii_lower(b[i]));
            assert(ascii_lower(a[i]) == ascii_lower(c[i]));
        }
    }
    if eq_ignore_ascii_case(b, c) {
        assert forall|i: int| 0 <= i < a.len() implies #[trigger] ascii_lower(a[i]) == ascii_lower(c[i]) by {
            assert(ascii_lower(a[i]) == ascii_lower(b[i]));
            assert(ascii_lower(b[i]) == ascii_lower(c[i]));
        }
    }
}

/// With `lowercase` set, the exact, prefix and suffix matchers do not see
/// the ASCII case of the value: two values equal up to case are matched
/// alike. Without it, each is at least as strict as with it.
pub proof fn lemma_lowercase_matching_ignores_case(token: Seq<char>, h1: Seq<char>, h2: Seq<char>)
    requires
        eq_ignore_ascii_case(h1, h2),
    ensures
        content_match(token, true, h1) == content_match(token, true, h2),
        prefix_match(token, true, h1) == prefix_match(token, true, h2),
        suffix_match(token, true, h1) == suffix_match(token, true, h2),
        content_match(token, false, h1) ==> content_match(token, true, h1),
        prefix_match(token, false, h1) ==> prefix_match(token, true, h1),
        suffix_match(token, false, h1) ==> suffix_match(token, true, h1),
{
    if h1.len() >= token.len() {
        let s1 = h1.subrange(h1.len() - token.len(), h1.len() as int);
        let s2 = h2.subrange(h2.len() - token.len(), h2.len() as int);
        assert forall|i: int| 0 <= i < s1.len() implies #[trigger] ascii_lower(s1[i]) == ascii_lower(s2[i]) by {
            assert(s1[i] == h1[h1.len() - token.len() + i]);
            assert(s2[i] == h2[h2.len() - token.len() + i]);
        }
        let q1 = h1.subrange(0, token.len() as int);
        let q2 = h2.subrange(0, token.len() as int);
        assert forall|i: int| 0 <= i < q1.len() implies #[trigger] ascii_lower(q1[i]) == ascii_lower(q2[i]) by {
            assert(q1[i] == h1[i]);
            assert(q2[i] == h2[i]);
        }
        lemma_case_equal_same_partners(s1, s2, token);
        lemma_case_equal_same_partners(q1, q2, token);
    }
    lemma_case_equal_same_partners(h1, h2, token);
    assert(eq_ignore_ascii_case(h1, h1));
}

/// What a matcher answers for the value `v`.
pub open spec fn string_match_spec(m: StringMatcher, v: Seq<char>) -> bool
    decreases m,
{
    match m {
        StringMatcher::Content(p) => content_match(
            p.token@,
            p.lowercase,
            handle_ws_spec(v, p.no_collapse_ws),
        ),
        StringMatcher::Prefix(p) => prefix_match(
            p.token@,
            p.lowercase,
            handle_ws_spec(v, p.no_collapse_ws),
        ),
        StringMatcher::Suffix(p) => suffix_match(
            p.token@,
            p.lowercase,
            handle_ws_spec(v, p.no_collapse_ws),
        ),
        StringMatcher::Regex(p) => regex_matches(p.regex@, v),
        StringMatcher::Glob(p) => glob_matches(p.glob@, handle_ws_spec(v, p.no_collapse_ws)),
        StringMatcher::Any(ms) => any_match_spec(ms.matchers@, v),
        StringMatcher::All(ms) => all_match_spec(ms.matchers@, v),
    }
}

/// Some matcher of `ms` matches `v`.
pub open spec fn any_match_spec(ms: Seq<StringMatcher>, v: Seq<char>) -> bool
    decreases ms,
{
    if ms.len() == 0 {
        false
    } else {
        string_match_spec(ms[0], v) || any_match_spec(ms.drop_first(), v)
    }
}

/// Every matcher of `ms` matches `v`.
pub open spec fn all_match_spec(ms: Seq<StringMatcher>, v: Seq<char>) -> bool
    decreases ms,
{
    if ms.len() == 0 {
        true
    } else {
        string_match_spec(ms[0], v) && all_match_spec(ms.drop_first(), v)
    }
}

impl ContentPattern {
    /// Whether the value equals the token
    pub fn string_match(&self, value: &str) -> (r: bool)
        ensures
            r == content_match(self.token@, self.lowercase, handle_ws_spec(value@, self.no_collapse_ws)),
    {
        let h = handle_whitespace_chars(value, self.no_collapse_ws);
        let t = chars_of(self.token.as_str());
        if self.lowercase {
            if h.len() != t.len() {
                return false;
            }
            let r = chars_eq_ignore_ascii_case_at(h.as_slice(), 0, t.as_slice());
            assert(h@.subrange(0, t@.len() as int) =~= h@);
            r
        } else {
            chars_eq(h.as_slice(), t.as_slice())
        }
    }
}

impl PrefixPattern {
    /// Whether the value starts with the token
    pub fn string_match(&self, value: &str) -> (r: bool)
        ensures
            r == prefix_match(self.token@, self.lowercase, handle_ws_spec(value@, self.no_collapse_ws)),
    {
        let h = handle_whitespace_chars(value, self.no_collapse_ws);
        let t = chars_of(self.token.as_str());
        if h.len() < t.len() {
            return false;
        }
        if self.lowercase {
            chars_eq_ignore_ascii_case_at(h.as_slice(), 0, t.as_slice())
        } else {
            occurs_at_exec(h.as_slice(), t.as_slice(), 0)
        }
    }
}

impl SuffixPattern {
    /// Whether the value ends with the token
    pub fn string_match(&self, value: &str) -> (r: bool)
        ensures
            r == suffix_match(self.token@, self.lowercase, handle_ws_spec(value@, self.no_collapse_ws)),
    {
        let h = handle_whitespace_chars(value, self.no_collapse_ws);
        let t = chars_of(self.token.as_str());
        if h.len() < t.len() {
            return false;
        }
        let start = h.len() - t.len();
        if self.lowercase {
            chars_eq_ignore_ascii_case_at(h.as_slice(), start, t.as_slice())
        } else {
            occurs_at_exec(h.as_slice(), t.as_slice(), start)
        }
    }
}

impl RegexPattern {
    /// Whether the regex finds a match in the value
    pub fn string_match(&self, value: &str) -> (r: bool)
        ensures
            r == regex_matches(self.regex@, value@),
    {
        regex_is_match(&self.regex, value)
    }
}

impl GlobPatternMatcher {
    /// Whether the glob matches the value
    pub fn string_match(&self, value: &str) -> (r: bool)
        ensures
            r == glob_matches(self.glob@, handle_ws_spec(value@, self.no_collapse_ws)),
    {
        let h = handle_whitespace_chars(value, self.no_collapse_ws);
        let s = string_from_chars(h.as_slice());
        glob_is_match(&self.glob, s.as_str())
    }
}

impl StringMatcher {
    /// Whether the matcher matches the value
    pub fn string_match(&self, value: &str) -> (r: bool)
        ensures
            r == string_match_spec(*self, value@),
        decreases self,
    {
        match self {
            StringMatcher::Content(p) => p.string_match(value),
            StringMatcher::Prefix(p) => p.string_match(value),
            StringMatcher::Suffix(p) => p.string_match(value),
            StringMatcher::Regex(p) => p.string_match(value),
            StringMatcher::Glob(p) => p.string_match(value),
            StringMatcher::Any(ms) => {
                let mut i: usize = 0;
                assert(ms.matchers@.subrange(0, ms.matchers@.len() as int) =~= ms.matchers@);
                while i < ms.matchers.len()
                    invariant
                        i <= ms.matchers@.len(),
                        *self == StringMatcher::Any(*ms),
                        any_match_spec(ms.matchers@, value@) == any_match_spec(
                            ms.matchers@.subrange(i as int, ms.matchers@.len() as int),
                            value@,
                        ),
                    decreases ms.matchers.len() - i,
                {
                    let ghost rest = ms.matchers@.subrange(i as int, ms.matchers@.len() as int);
                    assert(rest[0] == ms.matchers@[i as int]);
                    assert(rest.drop_first() =~= ms.matchers@.subrange(
                        i + 1,
                        ms.matchers@.len() as int,
                    ));
                    assert(decreases_to!(*self => (*self)->Any_0));
                    assert(decreases_to!(*ms => ms.matchers));
                    assert(decreases_to!(ms.matchers => ms.matchers@));
                    assert(decreases_to!(ms.matchers@ => ms.matchers@[i as int]));
                    assert(decreases_to!(*self => ms.matchers@[i as int]));
                    if ms.matchers[i].string_match(value) {
                        return true;
                    }
                    i = i + 1;
                }
                false
            },
            StringMatcher::All(ms) => {
                let mut i: usize = 0;
                assert(ms.matchers@.subrange(0, ms.matchers@.len() as int) =~= ms.matchers@);
                while i < ms.matchers.len()
                    invariant
                        i <= ms.matchers@.len(),
                        *self == StringMatcher::All(*ms),
                        all_match_spec(ms.matchers@, value@) == all_match_spec(
                            ms.matchers@.subrange(i as int, ms.matchers@.len() as int),
                            value@,
                        ),
                    decreases ms.matchers.len() - i,
                {
                    let ghost rest = ms.matchers@.subrange(i as int, ms.matchers@.len() as int);
                    assert(rest[0] == ms.matchers@[i as int]);
                    assert(rest.drop_first() =~= ms.matchers@.subrange(
                        i + 1,
                        ms.matchers@.len() as int,
                    ));
                    assert(decreases_to!(*self => (*self)->All_0));
                    assert(decreases_to!(*ms => ms.matchers));
                    assert(decreases_to!(ms.matchers => ms.matchers@));
                    assert(decreases_to!(ms.matchers@ => ms.matchers@[i as int]));
                    assert(decreases_to!(*self => ms.matchers@[i as int]));
                    if !ms.matchers[i].string_match(value) {
                        return false;
                    }
                    i = i + 1;
                }
                true
            },
        }
    }
}

impl StringMatchers {
    /// Create a new collection of string matchers (OR logic)
    pub fn new(matchers: Vec<StringMatcher>) -> (r: Self)
        ensures
            r.matchers@ == matchers@,
    {
        StringMatchers { matchers }
    }

    /// Optimize the matcher collection
    pub fn optimize(self) -> (r: Self)
        ensures
            r.matchers@ == self.matchers@,
    {
        self
    }

    /// Whether one of the matchers matches the value
    pub fn string_match(&self, value: &str) -> (r: bool)
        ensures
            r == any_match_spec(self.matchers@, value@),
    {
        let mut i: usize = 0;
        assert(self.matchers@.subrange(0, self.matchers@.len() as int) =~= self.matchers@);
        while i < self.matchers.len()
            invariant
                i <= self.matchers@.len(),
                any_match_spec(self.matchers@, value@) == any_match_spec(
                    self.matchers@.subrange(i as int, self.matchers@.len() as int),
                    value@,
                ),
            decreases self.matchers.len() - i,
        {
            let ghost rest = self.matchers@.subrange(i as int, self.matchers@.len() as int);
            assert(rest[0] == self.matchers@[i as int]);
            assert(rest.drop_first() =~= self.matchers@.subrange(i + 1, self.matchers@.len() as int));
            if self.matchers[i].string_match(value) {
                return true;
            }
            i = i + 1;
        }
        false
    }
}

impl StringMatchersConj {
    /// Create a new collection of string matchers (AND logic)
    pub fn new(matchers: Vec<StringMatcher>) -> (r: Self)
        ensures
            r.matchers@ == matchers@,
    {
        StringMatchersConj { matchers }
    }

    /// Optimize the matcher collection
    pub fn optimize(self) -> (r: Self)
        ensures
            r.matchers@ == self.matchers@,
    {
        self
    }

    /// Whether all of the matchers match the value
    pub fn string_match(&self, value: &str) -> (r: bool)
        ensures
            r == all_match_spec(self.matchers@, value@),
    {
        let mut i: usize = 0;
        assert(self.matchers@.subrange(0, self.matchers@.len() as int) =~= self.matchers@);
        while i < self.matchers.len()
            invariant
                i <= self.matchers@.len(),
                all_match_spec(self.matchers@, value@) == all_match_spec(
                    self.matchers@.subrange(i as int, self.matchers@.len() as int),
                    value@,
                ),
            decreases self.matchers.len() - i,
        {
            let ghost rest = self.matchers@.subrange(i as int, self.matchers@.len() as int);
            assert(rest[0] == self.matchers@[i as int]);
            assert(rest.drop_first() =~= self.matchers@.subrange(i + 1, self.matchers@.len() as int));
            if !self.matchers[i].string_match(value) {
                return false;
            }
            i = i + 1;
        }
        true
    }
}

/// Escape Sigma pattern for glob matching
pub fn escape_sigma_for_glob(pattern: &str) -> (r: String)
    ensures
        r@ == escape_spec(pattern@),
        r@.len() <= 2 * pattern@.len(),
{
    proof {
        crate::pattern::escape::lemma_escape_len(pattern@);
    }
    let v = chars_of(pattern);
    if v.len() == 0 {
        assert(escape_spec(pattern@) =~= Seq::<char>::empty());
        return String::new();
    }
    let e = escape_chars(v.as_slice());
    string_from_chars(e.as_slice())
}

} // verus!
