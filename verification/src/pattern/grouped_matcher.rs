//! Grouped pattern matching: the patterns of many rules, grouped by field and
//! by type, matched against a value in one pass.
//!
//! Substring patterns are searched with an Aho-Corasick automaton of the
//! `aho-corasick` crate, whose reports are named here: they depend on the
//! patterns and the value alone.
use vstd::prelude::*;

use crate::error::SigmaError;
use crate::pattern::engines::{compile_regex, regex_compiles, regex_is_match, regex_matches, CompiledRegex};
use crate::pattern::security::{MAX_DFA_SIZE, MAX_NFA_SIZE};
use crate::text::{chars_of, contains_seq, occurs_at, occurs_at_exec, owned, str_eq, string_views};

verus! {

/// `aho_corasick::AhoCorasick`, carried opaquely.
#[verifier::external_type_specification]
#[verifier::external_body]
pub struct ExAhoCorasick(aho_corasick::AhoCorasick);

/// Whether the crate builds an automaton over the patterns with its default
/// settings.
pub uninterp spec fn ac_builds(patterns: Seq<Seq<char>>) -> bool;

/// The numbers of the patterns that `find_iter` reports in the value, in
/// order, for an automaton built over the patterns with the default settings.
pub uninterp spec fn ac_find(patterns: Seq<Seq<char>>, value: Seq<char>) -> Seq<usize>;

/// An automaton together with the patterns it was built over.
#[derive(Debug)]
pub struct SubstringMatcher {
    automaton: aho_corasick::AhoCorasick,
    patterns: Vec<String>,
}

impl View for SubstringMatcher {
    type V = Seq<Seq<char>>;

    closed spec fn view(&self) -> Seq<Seq<char>> {
        string_views(self.patterns@)
    }
}

/// Builds an automaton over the patterns.
///
/// Trusted: calls `aho_corasick::AhoCorasickBuilder::new().build(..)`. Claims
/// that it succeeds exactly when the crate builds over these patterns (named
/// `ac_builds`) and that the automaton remembers its patterns. The error's
/// message, the crate's `Display` of its error, is left unsaid.
#[verifier::external_body]
fn build_substring_matcher(patterns: Vec<String>) -> (r: Result<SubstringMatcher, String>)
    ensures
        r is Ok <==> ac_builds(string_views(patterns@)),
        r matches Ok(m) ==> m@ == string_views(patterns@),
{
    match aho_corasick::AhoCorasickBuilder::new().build(&patterns) {
        Ok(automaton) => Ok(SubstringMatcher { automaton, patterns }),
        Err(e) => Err(format!("{}", e)),
    }
}

/// The numbers of the patterns found in a value.
///
/// Trusted: calls `AhoCorasick::find_iter` and takes `Match::pattern` of each
/// match. Claims that the numbers are the ones named `ac_find`, and, as the
/// crate documents a match, that each names one of the patterns and that this
/// pattern occurs in the value.
#[verifier::external_body]
fn substring_matches(m: &SubstringMatcher, value: &str) -> (r: Vec<usize>)
    ensures
        r@ == ac_find(m@, value@),
        forall|k: int| 0 <= k < r@.len() ==> (#[trigger] r@[k]) < m@.len() && contains_seq(value@, m@[r@[k] as int]),
{
    m.automaton.find_iter(value).map(|found| found.pattern().as_usize()).collect()
}

/// Pattern type for grouping
#[derive(Debug, Clone, Copy, PartialEq, Eq, Hash, Structural)]
pub enum PatternType {
    /// Substring anywhere
    Contains,
    /// Prefix
    StartsWith,
    /// Suffix
    EndsWith,
    /// Regular expression
    Regex,
    /// Whole value
    Exact,
}

/// Individual pattern with metadata
#[derive(Debug)]
pub struct GroupedPattern {
    /// The pattern text
    pub pattern: String,
    /// How the pattern is applied
    pub pattern_type: PatternType,
    /// The rule the pattern belongs to
    pub rule_id: String,
    /// The pattern's number
    pub pattern_id: usize,
}

/// Whether a regex compiles with the crate's default limits, as
/// `regex::Regex::new` compiles.
pub open spec fn regex_compiles_default(pattern: Seq<char>) -> bool {
    regex_compiles(pattern, MAX_DFA_SIZE, MAX_NFA_SIZE)
}

/// The value starts with the pattern.
pub open spec fn starts_with(value: Seq<char>, p: Seq<char>) -> bool {
    occurs_at(value, p, 0)
}

/// The value ends with the pattern.
pub open spec fn ends_with(value: Seq<char>, p: Seq<char>) -> bool {
    p.len() <= value.len() && occurs_at(value, p, value.len() - p.len())
}

/// The exact patterns as names and rule lists.
pub open spec fn exact_view(es: Seq<(String, Vec<String>)>) -> Seq<(Seq<char>, Seq<Seq<char>>)> {
    es.map_values(|e: (String, Vec<String>)| (e.0@, string_views(e.1@)))
}

/// The rules of the exact pattern equal to the value, if there is one.
pub open spec fn exact_rules(es: Seq<(Seq<char>, Seq<Seq<char>>)>, value: Seq<char>) -> Seq<Seq<char>>
    decreases es.len(),
{
    if es.len() == 0 {
        Seq::empty()
    } else if es[0].0 == value {
        es[0].1
    } else {
        exact_rules(es.drop_first(), value)
    }
}

/// The exact patterns after adding a rule to a pattern: appended to the
/// pattern's rules where it is present, else a new entry at the end.
pub open spec fn exact_add(es: Seq<(Seq<char>, Seq<Seq<char>>)>, p: Seq<char>, rule: Seq<char>) -> Seq<
    (Seq<char>, Seq<Seq<char>>),
>
    decreases es.len(),
{
    if es.len() == 0 {
        seq![(p, seq![rule])]
    } else if es[0].0 == p {
        es.update(0, (p, es[0].1.push(rule)))
    } else {
        seq![es[0]] + exact_add(es.drop_first(), p, rule)
    }
}

/// The rules of the substring patterns the automaton reported, in the order
/// of the reports; a number out of range names none.
pub open spec fn reported_rules(subs: Seq<(usize, String)>, found: Seq<usize>) -> Seq<Seq<char>>
    decreases found.len(),
{
    if found.len() == 0 {
        Seq::empty()
    } else {
        let before = reported_rules(subs, found.drop_last());
        if found.last() < subs.len() {
            before.push(subs[found.last() as int].1@)
        } else {
            before
        }
    }
}

/// The rules of the prefix patterns the value starts with, in order.
pub open spec fn prefix_rules(ps: Seq<GroupedPattern>, value: Seq<char>) -> Seq<Seq<char>>
    decreases ps.len(),
{
    if ps.len() == 0 {
        Seq::empty()
    } else {
        let before = prefix_rules(ps.drop_last(), value);
        if starts_with(value, ps.last().pattern@) {
            before.push(ps.last().rule_id@)
        } else {
            before
        }
    }
}

/// The rules of the suffix patterns the value ends with, in order.
pub open spec fn suffix_rules(ps: Seq<GroupedPattern>, value: Seq<char>) -> Seq<Seq<char>>
    decreases ps.len(),
{
    if ps.len() == 0 {
        Seq::empty()
    } else {
        let before = suffix_rules(ps.drop_last(), value);
        if ends_with(value, ps.last().pattern@) {
            before.push(ps.last().rule_id@)
        } else {
            before
        }
    }
}

/// The rules of the regexes found in the value, in order.
pub open spec fn regex_rules(rs: Seq<(CompiledRegex, String)>, value: Seq<char>) -> Seq<Seq<char>>
    decreases rs.len(),
{
    if rs.len() == 0 {
        Seq::empty()
    } else {
        let before = regex_rules(rs.drop_last(), value);
        if regex_matches(rs.last().0@, value) {
            before.push(rs.last().1@)
        } else {
            before
        }
    }
}

/// Groups patterns by field for efficient matching
#[derive(Debug)]
pub struct FieldPatternGroup {
    /// The field the patterns apply to
    pub field_name: String,
    /// The automaton over the substring patterns, once built
    pub substring_matcher: Option<SubstringMatcher>,
    /// The substring patterns: (pattern number, rule)
    pub substring_patterns: Vec<(usize, String)>,
    /// Suffix patterns for endswith
    pub suffix_patterns: Vec<GroupedPattern>,
    /// Prefix patterns for startswith
    pub prefix_patterns: Vec<GroupedPattern>,
    /// Compiled regex patterns: (regex, rule)
    pub regex_matchers: Vec<(CompiledRegex, String)>,
    /// Exact match patterns: pattern and its rules, each pattern once
    pub exact_patterns: Vec<(String, Vec<String>)>,
    /// The texts of the substring patterns, in the order of `substring_patterns`
    pub substring_texts: Vec<String>,
}

/// Building a group succeeds: it has no substring patterns, or the crate
/// builds an automaton over them.
pub open spec fn group_builds(g: FieldPatternGroup) -> bool {
    g.substring_patterns@.len() > 0 ==> ac_builds(g.substring_texts_spec())
}

/// `f` is the group `o` after a successful build: the same patterns, and an
/// automaton over the substring patterns if there are any.
pub open spec fn built_from(o: FieldPatternGroup, f: FieldPatternGroup) -> bool {
    &&& f.field_name == o.field_name
    &&& f.substring_patterns == o.substring_patterns
    &&& f.substring_texts == o.substring_texts
    &&& f.prefix_patterns == o.prefix_patterns
    &&& f.suffix_patterns == o.suffix_patterns
    &&& f.regex_matchers == o.regex_matchers
    &&& f.exact_patterns == o.exact_patterns
    &&& if o.substring_patterns@.len() > 0 {
        f.substring_matcher matches Some(m) && m@ == o.substring_texts_spec()
    } else {
        f.substring_matcher == o.substring_matcher
    }
}

/// The rules whose patterns match a value: exact matches first, then the
/// substring patterns found by the automaton, then prefixes, suffixes and
/// regexes.
pub open spec fn group_match(g: FieldPatternGroup, value: Seq<char>) -> Seq<Seq<char>> {
    exact_rules(exact_view(g.exact_patterns@), value) + match g.substring_matcher {
        Some(m) => reported_rules(g.substring_patterns@, ac_find(m@, value)),
        None => Seq::empty(),
    } + prefix_rules(g.prefix_patterns@, value) + suffix_rules(g.suffix_patterns@, value) + regex_rules(
        g.regex_matchers@,
        value,
    )
}

/// Some pattern of the group names the rule and matches the value.
pub open spec fn rule_supported(g: FieldPatternGroup, value: Seq<char>, rule: Seq<char>) -> bool {
    ||| exists|k: int|
        0 <= k < g.exact_patterns@.len() && (#[trigger] g.exact_patterns@[k]).0@ == value && string_views(
            g.exact_patterns@[k].1@,
        ).contains(rule)
    ||| (g.substring_matcher matches Some(m) && exists|k: int|
        0 <= k < g.substring_patterns@.len() && k < m@.len() && (#[trigger] g.substring_patterns@[k]).1@
            == rule && contains_seq(value, m@[k]))
    ||| exists|k: int|
        0 <= k < g.prefix_patterns@.len() && (#[trigger] g.prefix_patterns@[k]).rule_id@ == rule
            && starts_with(value, g.prefix_patterns@[k].pattern@)
    ||| exists|k: int|
        0 <= k < g.suffix_patterns@.len() && (#[trigger] g.suffix_patterns@[k]).rule_id@ == rule
            && ends_with(value, g.suffix_patterns@[k].pattern@)
    ||| exists|k: int|
        0 <= k < g.regex_matchers@.len() && (#[trigger] g.regex_matchers@[k]).1@ == rule && regex_matches(
            g.regex_matchers@[k].0@,
            value,
        )
}

/// The hits of a batch after recording that a rule matched an event: the
/// event is appended to the rule's entry, or a new entry is added at the end.
pub open spec fn add_hit(acc: Seq<(Seq<char>, Seq<usize>)>, rule: Seq<char>, idx: usize) -> Seq<
    (Seq<char>, Seq<usize>),
>
    decreases acc.len(),
{
    if acc.len() == 0 {
        seq![(rule, seq![idx])]
    } else if acc[0].0 == rule {
        acc.update(0, (rule, acc[0].1.push(idx)))
    } else {
        seq![acc[0]] + add_hit(acc.drop_first(), rule, idx)
    }
}

/// The hits after recording each of the rules, in order.
pub open spec fn add_hits(acc: Seq<(Seq<char>, Seq<usize>)>, rules: Seq<Seq<char>>, idx: usize) -> Seq<
    (Seq<char>, Seq<usize>),
>
    decreases rules.len(),
{
    if rules.len() == 0 {
        acc
    } else {
        add_hits(add_hit(acc, rules[0], idx), rules.drop_first(), idx)
    }
}

/// For each rule, the positions of the values that its patterns matched;
/// rules in the order they were first hit, missing values skipped.
pub open spec fn array_hits(g: FieldPatternGroup, values: Seq<Option<String>>) -> Seq<(Seq<char>, Seq<usize>)>
    decreases values.len(),
{
    if values.len() == 0 {
        Seq::empty()
    } else {
        let before = array_hits(g, values.drop_last());
        match values.last() {
            Some(v) => add_hits(before, group_match(g, v@), (values.len() - 1) as usize),
            None => before,
        }
    }
}

/// The hits as names and positions.
pub open spec fn hits_view(h: Seq<(String, Vec<usize>)>) -> Seq<(Seq<char>, Seq<usize>)> {
    h.map_values(|e: (String, Vec<usize>)| (e.0@, e.1@))
}

/// The rules of the exact pattern equal to the value.
fn exact_matches(es: &Vec<(String, Vec<String>)>, value: &str) -> (r: Vec<String>)
    ensures
        string_views(r@) == exact_rules(exact_view(es@), value@),
        forall|j: int|
            0 <= j < r@.len() ==> exists|k: int|
                0 <= k < es@.len() && (#[trigger] es@[k]).0@ == value@ && string_views(es@[k].1@).contains(
                    #[trigger] r@[j]@,
                ),
{
    let ghost ev = exact_view(es@);
    let mut i: usize = 0;
    assert(ev.skip(0) =~= ev);
    while i < es.len()
        invariant
            i <= es@.len(),
            ev == exact_view(es@),
            exact_rules(ev, value@) == exact_rules(ev.skip(i as int), value@),
        decreases es.len() - i,
    {
        let ghost rest = ev.skip(i as int);
        assert(rest[0] == ev[i as int]);
        if str_eq(es[i].0.as_str(), value) {
            let r = crate::text::clone_strings(&es[i].1);
            assert forall|j: int| 0 <= j < r@.len() implies exists|k: int|
                0 <= k < es@.len() && (#[trigger] es@[k]).0@ == value@ && string_views(es@[k].1@).contains(
                    #[trigger] r@[j]@,
                ) by {
                assert(string_views(es@[i as int].1@)[j] == r@[j]@);
                assert(es@[i as int].0@ == value@);
            }
            return r;
        }
        assert(rest.drop_first() =~= ev.skip(i + 1));
        i = i + 1;
    }
    assert(ev.skip(i as int) =~= Seq::<(Seq<char>, Seq<Seq<char>>)>::empty());
    Vec::new()
}

/// Records that a rule matched the value at `idx`.
fn record_hit(acc: &mut Vec<(String, Vec<usize>)>, rule: &String, idx: usize)
    ensures
        hits_view(final(acc)@) == add_hit(hits_view(old(acc)@), rule@, idx),
{
    let ghost before = hits_view(acc@);
    let mut i: usize = 0;
    assert(before.skip(0) =~= before);
    assert(before.take(0) + add_hit(before.skip(0), rule@, idx) =~= add_hit(before, rule@, idx));
    while i < acc.len()
        invariant
            i <= acc@.len(),
            before == hits_view(acc@),
            before == hits_view(old(acc)@),
            add_hit(before, rule@, idx) == before.take(i as int) + add_hit(before.skip(i as int), rule@, idx),
        decreases acc.len() - i,
    {
        let ghost rest = before.skip(i as int);
        assert(rest[0] == before[i as int]);
        if str_eq(acc[i].0.as_str(), rule.as_str()) {
            let name = acc[i].0.clone();
            let mut positions = acc[i].1.clone();
            positions.push(idx);
            let ghost x = (name@, positions@);
            acc.set(i, (name, positions));
            proof {
                assert(positions@ =~= rest[0].1.push(idx));
                assert(hits_view(acc@) =~= before.update(i as int, x));
                assert(before.take(i as int) + rest.update(0, x) =~= before.update(i as int, x));
            }
            return;
        }
        assert(rest.drop_first() =~= before.skip(i + 1));
        assert(before.take(i + 1) =~= before.take(i as int) + seq![rest[0]]);
        i = i + 1;
    }
    let positions = vec![idx];
    assert(positions@ =~= seq![idx]);
    acc.push((rule.clone(), positions));
    proof {
        assert(before.skip(i as int) =~= Seq::<(Seq<char>, Seq<usize>)>::empty());
        assert(hits_view(acc@) =~= before.push((rule@, seq![idx])));
        assert(before.take(i as int) =~= before);
    }
}

impl FieldPatternGroup {
    /// The texts of the substring patterns, in order.
    pub open spec fn substring_texts_spec(&self) -> Seq<Seq<char>> {
        string_views(self.substring_texts@)
    }

    /// Create a new field pattern group
    pub fn new(field_name: String) -> (r: Self)
        ensures
            r.field_name == field_name,
            r.substring_matcher is None,
            r.substring_patterns@.len() == 0,
            r.suffix_patterns@.len() == 0,
            r.prefix_patterns@.len() == 0,
            r.regex_matchers@.len() == 0,
            r.exact_patterns@.len() == 0,
            r.substring_texts_spec().len() == 0,
    {
        FieldPatternGroup {
            field_name,
            substring_matcher: None,
            substring_patterns: Vec::new(),
            suffix_patterns: Vec::new(),
            prefix_patterns: Vec::new(),
            regex_matchers: Vec::new(),
            exact_patterns: Vec::new(),
            substring_texts: Vec::new(),
        }
    }

    /// Add a pattern to the group
    pub fn add_pattern(&mut self, pattern: GroupedPattern) -> (r: Result<(), SigmaError>)
        ensures
            final(self).field_name == old(self).field_name,
            final(self).substring_matcher == old(self).substring_matcher,
            match pattern.pattern_type {
                PatternType::Regex => r is Ok <==> regex_compiles_default(pattern.pattern@),
                _ => r is Ok,
            },
            r is Err ==> *final(self) == *old(self),
            r matches Err(e) ==> e is Pattern,
            r is Ok ==> ({
                let (o, f) = (*old(self), *final(self));
                &&& f.substring_patterns@ == (if pattern.pattern_type == PatternType::Contains {
                    o.substring_patterns@.push((pattern.pattern_id, pattern.rule_id))
                } else {
                    o.substring_patterns@
                })
                &&& f.substring_texts_spec() == (if pattern.pattern_type == PatternType::Contains {
                    o.substring_texts_spec().push(pattern.pattern@)
                } else {
                    o.substring_texts_spec()
                })
                &&& f.prefix_patterns@ == (if pattern.pattern_type == PatternType::StartsWith {
                    o.prefix_patterns@.push(pattern)
                } else {
                    o.prefix_patterns@
                })
                &&& f.suffix_patterns@ == (if pattern.pattern_type == PatternType::EndsWith {
                    o.suffix_patterns@.push(pattern)
                } else {
                    o.suffix_patterns@
                })
                &&& (if pattern.pattern_type == PatternType::Regex {
                    &&& f.regex_matchers@.len() == o.regex_matchers@.len() + 1
                    &&& f.regex_matchers@.take(o.regex_matchers@.len() as int) == o.regex_matchers@
                    &&& f.regex_matchers@.last().0@ == pattern.pattern@
                    &&& f.regex_matchers@.last().1 == pattern.rule_id
                } else {
                    f.regex_matchers@ == o.regex_matchers@
                })
                &&& exact_view(f.exact_patterns@) == (if pattern.pattern_type == PatternType::Exact {
                    exact_add(exact_view(o.exact_patterns@), pattern.pattern@, pattern.rule_id@)
                } else {
                    exact_view(o.exact_patterns@)
                })
            }),
    {
        match pattern.pattern_type {
            PatternType::Contains => {
                self.substring_texts.push(pattern.pattern.clone());
                self.substring_patterns.push((pattern.pattern_id, pattern.rule_id));
                proof {
                    assert(string_views(self.substring_texts@) =~= string_views(
                        old(self).substring_texts@,
                    ).push(pattern.pattern@));
                }
            },
            PatternType::StartsWith => {
                self.prefix_patterns.push(pattern);
            },
            PatternType::EndsWith => {
                self.suffix_patterns.push(pattern);
            },
            PatternType::Regex => {
                match compile_regex(pattern.pattern.as_str(), MAX_DFA_SIZE, MAX_NFA_SIZE) {
                    Ok(regex) => {
                        self.regex_matchers.push((regex, pattern.rule_id));
                        assert(self.regex_matchers@.take(old(self).regex_matchers@.len() as int)
                            =~= old(self).regex_matchers@);
                    },
                    Err(e) => {
                        return Err(SigmaError::Pattern(owned("Invalid regex: ").concat(e.as_str())));
                    },
                }
            },
            PatternType::Exact => {
                let ghost before = exact_view(self.exact_patterns@);
                let mut i: usize = 0;
                assert(before.skip(0) =~= before);
                assert(before.take(0) + exact_add(before.skip(0), pattern.pattern@, pattern.rule_id@)
                    =~= exact_add(before, pattern.pattern@, pattern.rule_id@));
                while i < self.exact_patterns.len()
                    invariant
                        i <= self.exact_patterns@.len(),
                        before == exact_view(self.exact_patterns@),
                        self.field_name == old(self).field_name,
                        self.substring_matcher == old(self).substring_matcher,
                        self.substring_patterns == old(self).substring_patterns,
                        self.substring_texts == old(self).substring_texts,
                        self.prefix_patterns == old(self).prefix_patterns,
                        self.suffix_patterns == old(self).suffix_patterns,
                        self.regex_matchers == old(self).regex_matchers,
                        before == exact_view(old(self).exact_patterns@),
                        pattern.pattern_type == PatternType::Exact,
                        exact_add(before, pattern.pattern@, pattern.rule_id@) == before.take(i as int)
                            + exact_add(before.skip(i as int), pattern.pattern@, pattern.rule_id@),
                    decreases self.exact_patterns.len() - i,
                {
                    let ghost rest = before.skip(i as int);
                    assert(rest[0] == before[i as int]);
                    if str_eq(self.exact_patterns[i].0.as_str(), pattern.pattern.as_str()) {
                        let name = self.exact_patterns[i].0.clone();
                        let mut rules = crate::text::clone_strings(&self.exact_patterns[i].1);
                        rules.push(pattern.rule_id);
                        let ghost x = (name@, string_views(rules@));
                        self.exact_patterns.set(i, (name, rules));
                        proof {
                            assert(string_views(rules@) =~= rest[0].1.push(pattern.rule_id@));
                            assert(exact_view(self.exact_patterns@) =~= before.update(i as int, x));
                            assert(before.take(i as int) + rest.update(0, x) =~= before.update(i as int, x));
                        }
                        return Ok(());
                    }
                    assert(rest.drop_first() =~= before.skip(i + 1));
                    assert(before.take(i + 1) =~= before.take(i as int) + seq![rest[0]]);
                    i = i + 1;
                }
                let rules = vec![pattern.rule_id];
                self.exact_patterns.push((pattern.pattern, rules));
                proof {
                    assert(before.skip(i as int) =~= Seq::<(Seq<char>, Seq<Seq<char>>)>::empty());
                    assert(string_views(rules@) =~= seq![pattern.rule_id@]);
                    assert(exact_view(self.exact_patterns@) =~= before.push((pattern.pattern@, seq![pattern.rule_id@])));
                    assert(before.take(i as int) =~= before);
                }
            },
        }
        Ok(())
    }

    /// Build the automaton over the substring patterns, if there are any
    pub fn build(&mut self) -> (r: Result<(), SigmaError>)
        ensures
            r is Ok <==> group_builds(*old(self)),
            r is Ok ==> built_from(*old(self), *final(self)),
            r is Err ==> *final(self) == *old(self),
            r matches Err(e) ==> e is Parse,
    {
        if self.substring_patterns.len() > 0 {
            let texts = crate::text::clone_strings(&self.substring_texts);
            match build_substring_matcher(texts) {
                Ok(m) => {
                    self.substring_matcher = Some(m);
                },
                Err(e) => {
                    return Err(SigmaError::Parse(owned("Failed to build Aho-Corasick: ").concat(e.as_str())));
                },
            }
        }
        Ok(())
    }

    /// Match a single value against all patterns in this group
    pub fn match_value(&self, value: &str) -> (r: Vec<String>)
        ensures
            string_views(r@) == group_match(*self, value@),
            forall|j: int| 0 <= j < r@.len() ==> rule_supported(*self, value@, #[trigger] r@[j]@),
    {
        // Exact matches first
        let mut matched = exact_matches(&self.exact_patterns, value);
        let ghost exact_part = string_views(matched@);
        assert(forall|j: int| 0 <= j < matched@.len() ==> rule_supported(*self, value@, #[trigger] matched@[j]@));
        // Substring matches reported by the automaton
        match &self.substring_matcher {
            Some(m) => {
                let found = substring_matches(m, value);
                let mut k: usize = 0;
                assert(found@.take(0) =~= Seq::<usize>::empty());
                while k < found.len()
                    invariant
                        k <= found@.len(),
                        string_views(matched@) == exact_part + reported_rules(
                            self.substring_patterns@,
                            found@.take(k as int),
                        ),
                        self.substring_matcher == Some(*m),
                        found@ == ac_find(m@, value@),
                        forall|q: int| 0 <= q < found@.len() ==> (#[trigger] found@[q]) < m@.len() && contains_seq(value@, m@[found@[q] as int]),
                        forall|j: int| 0 <= j < matched@.len() ==> rule_supported(*self, value@, #[trigger] matched@[j]@),
                    decreases found.len() - k,
                {
                    assert(found@.take(k + 1).drop_last() =~= found@.take(k as int));
                    assert(found@.take(k + 1).last() == found@[k as int]);
                    let idx = found[k];
                    let ghost before = string_views(matched@);
                    if idx < self.substring_patterns.len() {
                        let ghost prev = matched@;
                        matched.push(self.substring_patterns[idx].1.clone());
                        assert(string_views(matched@) =~= before.push(self.substring_patterns@[idx as int].1@));
                        assert(found@[k as int] == idx);
                        assert forall|j: int| 0 <= j < matched@.len() implies rule_supported(*self, value@, #[trigger] matched@[j]@) by {
                            if j < prev.len() {
                                assert(matched@[j] == prev[j]);
                            } else {
                                assert(self.substring_patterns@[idx as int].1@ == matched@[j]@);
                            }
                        }
                    }
                    k = k + 1;
                }
                assert(found@.take(found@.len() as int) =~= found@);
            },
            None => {
                assert(exact_part + Seq::<Seq<char>>::empty() =~= exact_part);
            },
        }
        let ghost through_substrings = string_views(matched@);
        let value_chars = chars_of(value);
        // Prefix matches
        let mut p: usize = 0;
        assert(self.prefix_patterns@.take(0) =~= Seq::<GroupedPattern>::empty());
        assert(through_substrings + Seq::<Seq<char>>::empty() =~= through_substrings);
        while p < self.prefix_patterns.len()
            invariant
                p <= self.prefix_patterns@.len(),
                value_chars@ == value@,
                string_views(matched@) == through_substrings + prefix_rules(
                    self.prefix_patterns@.take(p as int),
                    value@,
                ),
                forall|j: int| 0 <= j < matched@.len() ==> rule_supported(*self, value@, #[trigger] matched@[j]@),
            decreases self.prefix_patterns.len() - p,
        {
            assert(self.prefix_patterns@.take(p + 1).drop_last() =~= self.prefix_patterns@.take(p as int));
            assert(self.prefix_patterns@.take(p + 1).last() == self.prefix_patterns@[p as int]);
            let pc = chars_of(self.prefix_patterns[p].pattern.as_str());
            let ghost before = string_views(matched@);
            if occurs_at_exec(&value_chars, &pc, 0) {
                let ghost prev = matched@;
                matched.push(self.prefix_patterns[p].rule_id.clone());
                assert(string_views(matched@) =~= before.push(self.prefix_patterns@[p as int].rule_id@));
                assert forall|j: int| 0 <= j < matched@.len() implies rule_supported(*self, value@, #[trigger] matched@[j]@) by {
                    if j < prev.len() {
                        assert(matched@[j] == prev[j]);
                    } else {
                        assert(self.prefix_patterns@[p as int].rule_id@ == matched@[j]@);
                    }
                }
            }
            p = p + 1;
        }
        assert(self.prefix_patterns@.take(self.prefix_patterns@.len() as int) =~= self.prefix_patterns@);
        let ghost through_prefixes = string_views(matched@);
        // Suffix matches
        let mut q: usize = 0;
        assert(self.suffix_patterns@.take(0) =~= Seq::<GroupedPattern>::empty());
        assert(through_prefixes + Seq::<Seq<char>>::empty() =~= through_prefixes);
        while q < self.suffix_patterns.len()
            invariant
                q <= self.suffix_patterns@.len(),
                value_chars@ == value@,
                string_views(matched@) == through_prefixes + suffix_rules(
                    self.suffix_patterns@.take(q as int),
                    value@,
                ),
                forall|j: int| 0 <= j < matched@.len() ==> rule_supported(*self, value@, #[trigger] matched@[j]@),
            decreases self.suffix_patterns.len() - q,
        {
            assert(self.suffix_patterns@.take(q + 1).drop_last() =~= self.suffix_patterns@.take(q as int));
            assert(self.suffix_patterns@.take(q + 1).last() == self.suffix_patterns@[q as int]);
            let sc = chars_of(self.suffix_patterns[q].pattern.as_str());
            let ghost before = string_views(matched@);
            if sc.len() <= value_chars.len() && occurs_at_exec(&value_chars, &sc, value_chars.len() - sc.len()) {
                let ghost prev = matched@;
                matched.push(self.suffix_patterns[q].rule_id.clone());
                assert(string_views(matched@) =~= before.push(self.suffix_patterns@[q as int].rule_id@));
                assert forall|j: int| 0 <= j < matched@.len() implies rule_supported(*self, value@, #[trigger] matched@[j]@) by {
                    if j < prev.len() {
                        assert(matched@[j] == prev[j]);
                    } else {
                        assert(self.suffix_patterns@[q as int].rule_id@ == matched@[j]@);
                    }
                }
            }
            q = q + 1;
        }
        assert(self.suffix_patterns@.take(self.suffix_patterns@.len() as int) =~= self.suffix_patterns@);
        let ghost through_suffixes = string_views(matched@);
        // Regex matches
        let mut x: usize = 0;
        assert(self.regex_matchers@.take(0) =~= Seq::<(CompiledRegex, String)>::empty());
        assert(through_suffixes + Seq::<Seq<char>>::empty() =~= through_suffixes);
        while x < self.regex_matchers.len()
            invariant
                x <= self.regex_matchers@.len(),
                string_views(matched@) == through_suffixes + regex_rules(
                    self.regex_matchers@.take(x as int),
                    value@,
                ),
                forall|j: int| 0 <= j < matched@.len() ==> rule_supported(*self, value@, #[trigger] matched@[j]@),
            decreases self.regex_matchers.len() - x,
        {
            assert(self.regex_matchers@.take(x + 1).drop_last() =~= self.regex_matchers@.take(x as int));
            assert(self.regex_matchers@.take(x + 1).last() == self.regex_matchers@[x as int]);
            let ghost before = string_views(matched@);
            if regex_is_match(&self.regex_matchers[x].0, value) {
                let ghost prev = matched@;
                matched.push(self.regex_matchers[x].1.clone());
                assert(string_views(matched@) =~= before.push(self.regex_matchers@[x as int].1@));
                assert forall|j: int| 0 <= j < matched@.len() implies rule_supported(*self, value@, #[trigger] matched@[j]@) by {
                    if j < prev.len() {
                        assert(matched@[j] == prev[j]);
                    } else {
                        assert(self.regex_matchers@[x as int].1@ == matched@[j]@);
                    }
                }
            }
            x = x + 1;
        }
        assert(self.regex_matchers@.take(self.regex_matchers@.len() as int) =~= self.regex_matchers@);
        matched
    }

    /// Match a column of values against all patterns: for each rule, the
    /// positions of the values its patterns matched
    pub fn match_array(&self, values: &[Option<String>]) -> (r: Vec<(String, Vec<usize>)>)
        ensures
            hits_view(r@) == array_hits(*self, values@),
    {
        let mut rule_matches: Vec<(String, Vec<usize>)> = Vec::new();
        let mut idx: usize = 0;
        assert(values@.take(0) =~= Seq::<Option<String>>::empty());
        assert(hits_view(rule_matches@) =~= Seq::<(Seq<char>, Seq<usize>)>::empty());
        while idx < values.len()
            invariant
                idx <= values@.len(),
                hits_view(rule_matches@) == array_hits(*self, values@.take(idx as int)),
            decreases values.len() - idx,
        {
            assert(values@.take(idx + 1).drop_last() =~= values@.take(idx as int));
            assert(values@.take(idx + 1).last() == values@[idx as int]);
            match &values[idx] {
                Some(val) => {
                    let matched = self.match_value(val.as_str());
                    let ghost rules = string_views(matched@);
                    let ghost start = hits_view(rule_matches@);
                    let mut k: usize = 0;
                    assert(rules.skip(0) =~= rules);
                    while k < matched.len()
                        invariant
                            k <= matched@.len(),
                            rules == string_views(matched@),
                            add_hits(start, rules, idx) == add_hits(hits_view(rule_matches@), rules.skip(k as int), idx),
                        decreases matched.len() - k,
                    {
                        assert(rules.skip(k as int).drop_first() =~= rules.skip(k + 1));
                        assert(rules.skip(k as int)[0] == matched@[k as int]@);
                        record_hit(&mut rule_matches, &matched[k], idx);
                        k = k + 1;
                    }
                    assert(rules.skip(k as int) =~= Seq::<Seq<char>>::empty());
                },
                None => {},
            }
            idx = idx + 1;
        }
        assert(values@.take(values@.len() as int) =~= values@);
        rule_matches
    }
}

/// Optimized pattern matcher that groups patterns by field
#[derive(Debug)]
pub struct GroupedPatternMatcher {
    field_groups: Vec<FieldPatternGroup>,
    pattern_count: usize,
}

/// The position of the group of a field, if there is one.
pub open spec fn group_index(groups: Seq<FieldPatternGroup>, field: Seq<char>) -> Option<int>
    decreases groups.len(),
{
    if groups.len() == 0 {
        None
    } else {
        match group_index(groups.drop_last(), field) {
            Some(i) => Some(i),
            None => if groups.last().field_name@ == field {
                Some(groups.len() - 1)
            } else {
                None
            },
        }
    }
}

fn find_group(groups: &Vec<FieldPatternGroup>, field: &str) -> (r: Option<usize>)
    ensures
        r matches Some(i) ==> i < groups@.len(),
        match group_index(groups@, field@) {
            Some(i) => r matches Some(k) && k == i,
            None => r is None,
        },
{
    let mut i: usize = 0;
    assert(groups@.take(0) =~= Seq::<FieldPatternGroup>::empty());
    while i < groups.len()
        invariant
            i <= groups@.len(),
            group_index(groups@.take(i as int), field@) is None,
        decreases groups.len() - i,
    {
        assert(groups@.take(i + 1).drop_last() =~= groups@.take(i as int));
        assert(groups@.take(i + 1).last() == groups@[i as int]);
        if str_eq(groups[i].field_name.as_str(), field) {
            proof {
                lemma_group_index_prefix(groups@, i + 1, field@);
                lemma_group_index_range(groups@.take(i + 1), field@);
                lemma_group_index_range(groups@.take(i as int), field@);
            }
            return Some(i);
        }
        i = i + 1;
    }
    assert(groups@.take(groups@.len() as int) =~= groups@);
    None
}

proof fn lemma_group_index_range(groups: Seq<FieldPatternGroup>, field: Seq<char>)
    ensures
        group_index(groups, field) matches Some(i) ==> 0 <= i < groups.len() && groups[i].field_name@ == field,
    decreases groups.len(),
{
    if groups.len() > 0 {
        lemma_group_index_range(groups.drop_last(), field);
    }
}

proof fn lemma_group_index_update(groups: Seq<FieldPatternGroup>, i: int, g: FieldPatternGroup, field: Seq<char>)
    requires
        0 <= i < groups.len(),
        g.field_name@ == groups[i].field_name@,
    ensures
        group_index(groups.update(i, g), field) == group_index(groups, field),
    decreases groups.len(),
{
    if i < groups.len() - 1 {
        assert(groups.update(i, g).drop_last() =~= groups.drop_last().update(i, g));
        lemma_group_index_update(groups.drop_last(), i, g, field);
    } else {
        assert(groups.update(i, g).drop_last() =~= groups.drop_last());
    }
}

proof fn lemma_group_index_prefix(groups: Seq<FieldPatternGroup>, k: int, field: Seq<char>)
    requires
        0 <= k <= groups.len(),
        group_index(groups.take(k), field) is Some,
    ensures
        group_index(groups, field) == group_index(groups.take(k), field),
    decreases groups.len() - k,
{
    if k < groups.len() {
        assert(groups.take(k + 1).drop_last() =~= groups.take(k));
        lemma_group_index_prefix(groups, k + 1, field);
    } else {
        assert(groups.take(k) =~= groups);
    }
}

impl GroupedPatternMatcher {
    /// The groups, one per field, in the order the fields were first seen.
    pub closed spec fn groups_spec(&self) -> Seq<FieldPatternGroup> {
        self.field_groups@
    }

    /// The number of patterns added.
    pub closed spec fn count_spec(&self) -> usize {
        self.pattern_count
    }

    /// Create a new grouped pattern matcher
    pub fn new() -> (r: Self)
        ensures
            r.groups_spec().len() == 0,
            r.count_spec() == 0,
    {
        GroupedPatternMatcher { field_groups: Vec::new(), pattern_count: 0 }
    }

    /// Add a pattern for a specific field: to the field's group, which is
    /// created (empty) first if the field has none
    pub fn add_pattern(&mut self, field: &str, pattern: GroupedPattern) -> (r: Result<(), SigmaError>)
        requires
            old(self).count_spec() < usize::MAX,
        ensures
            final(self).count_spec() == old(self).count_spec() + (if r is Ok { 1usize } else { 0usize }),
            match pattern.pattern_type {
                PatternType::Regex => r is Ok <==> regex_compiles_default(pattern.pattern@),
                _ => r is Ok,
            },
            match group_index(old(self).groups_spec(), field@) {
                Some(i) => final(self).groups_spec().len() == old(self).groups_spec().len()
                    && final(self).groups_spec() == old(self).groups_spec().update(i, final(self).groups_spec()[i])
                    && final(self).groups_spec()[i].field_name@ == field@,
                None => final(self).groups_spec().len() == old(self).groups_spec().len() + 1
                    && final(self).groups_spec().drop_last() == old(self).groups_spec()
                    && final(self).groups_spec().last().field_name@ == field@,
            },
            group_index(final(self).groups_spec(), field@) is Some,
    {
        let ghost old_groups = self.field_groups@;
        let index = match find_group(&self.field_groups, field) {
            Some(i) => i,
            None => {
                self.field_groups.push(FieldPatternGroup::new(owned(field)));
                proof {
                    assert(self.field_groups@.drop_last() =~= old_groups);
                    lemma_group_index_new(old_groups, self.field_groups@, field@);
                }
                self.field_groups.len() - 1
            },
        };
        let ghost mid = self.field_groups@;
        proof { lemma_group_index_range(mid, field@); }
        let mut group = self.field_groups.remove(index);
        let result = group.add_pattern(pattern);
        self.field_groups.insert(index, group);
        proof {
            assert(self.field_groups@ =~= mid.update(index as int, self.field_groups@[index as int]));
            lemma_group_index_update(mid, index as int, self.field_groups@[index as int], field@);
            lemma_group_index_range(old_groups, field@);
            if group_index(old_groups, field@) is None {
                assert(self.field_groups@.drop_last() =~= old_groups);
            }
        }
        if result.is_ok() {
            self.pattern_count = self.pattern_count + 1;
        }
        result
    }

    /// Build all optimized matchers, stopping at the first group that fails
    pub fn build(&mut self) -> (r: Result<(), SigmaError>)
        ensures
            final(self).count_spec() == old(self).count_spec(),
            final(self).groups_spec().len() == old(self).groups_spec().len(),
            r is Ok <==> forall|k: int| 0 <= k < old(self).groups_spec().len() ==> group_builds(
                #[trigger] old(self).groups_spec()[k],
            ),
            r is Ok ==> forall|k: int|
                0 <= k < old(self).groups_spec().len() ==> built_from(
                    #[trigger] old(self).groups_spec()[k],
                    final(self).groups_spec()[k],
                ),
            r matches Err(e) ==> e is Parse,
    {
        let ghost start = self.field_groups@;
        let mut i: usize = 0;
        while i < self.field_groups.len()
            invariant
                i <= self.field_groups@.len(),
                start == old(self).field_groups@,
                self.field_groups@.len() == start.len(),
                self.pattern_count == old(self).pattern_count,
                forall|k: int| 0 <= k < i ==> group_builds(#[trigger] start[k]),
                forall|k: int| 0 <= k < i ==> built_from(#[trigger] start[k], self.field_groups@[k]),
                forall|k: int| i <= k < start.len() ==> #[trigger] self.field_groups@[k] == start[k],
            decreases self.field_groups.len() - i,
        {
            let ghost before = self.field_groups@;
            let mut group = self.field_groups.remove(i);
            let result = group.build();
            self.field_groups.insert(i, group);
            assert(self.field_groups@ =~= before.update(i as int, self.field_groups@[i as int]));
            if result.is_err() {
                assert(!group_builds(start[i as int]));
                return result;
            }
            i = i + 1;
        }
        Ok(())
    }

    /// Get the pattern group for a field
    pub fn get_field_group(&self, field: &str) -> (r: Option<&FieldPatternGroup>)
        ensures
            match group_index(self.groups_spec(), field@) {
                Some(i) => r matches Some(g) && *g == self.groups_spec()[i],
                None => r is None,
            },
    {
        proof { lemma_group_index_range(self.field_groups@, field@); }
        match find_group(&self.field_groups, field) {
            Some(i) => {
                Some(&self.field_groups[i])
            },
            None => None,
        }
    }

    /// Get total pattern count
    pub fn pattern_count(&self) -> (r: usize)
        ensures
            r == self.count_spec(),
    {
        self.pattern_count
    }
}

proof fn lemma_group_index_new(old_groups: Seq<FieldPatternGroup>, groups: Seq<FieldPatternGroup>, field: Seq<char>)
    requires
        group_index(old_groups, field) is None,
        groups.len() == old_groups.len() + 1,
        groups.drop_last() == old_groups,
        groups.last().field_name@ == field,
    ensures
        group_index(groups, field) == Some(old_groups.len() as int),
{
}

} // verus!
