//! The abstract syntax tree of a rule condition: field rules and the logical
//! nodes that combine them.
use vstd::prelude::*;

use crate::event::{Event, Keyworder, Selector, Value};
use crate::pattern::coercion::{
    coerce_for_numeric_match, coerce_for_string_match, numeric_form, string_form,
};
use crate::pattern::factory::{all_plans_ok, first_plan_error, new_string_matcher, patterns_match, plan_error, plan_of};
use crate::pattern::num_matcher::{num_matcher_values, NumMatcher};
use crate::pattern::string_matcher::{string_match_spec, StringMatcher};
use crate::pattern::TextPatternModifier;
use crate::fmt::{debug_str, str_debug_text};
use crate::parser::error::{quoted_list, strings_debug};
use crate::text::{owned, string_views, vec_contains_string};
use vstd::string::StringExecFns;

/// AST node implementations
pub mod nodes;
/// Compilation of rules into evaluation tiers
pub mod tiered_compiler;

pub use nodes::{
    new_node_not_if_negated, Branch, ComparisonOp, Identifier, NodeAnd, NodeNot, NodeOr,
    NodeSimpleAnd, NodeSimpleOr,
};

verus! {

/// Result of a match operation
#[derive(Debug, Clone, Copy, PartialEq, Eq, Structural)]
pub struct MatchResult {
    /// Whether the match was successful
    pub matched: bool,
    /// Whether the rule was applicable
    pub applicable: bool,
}

impl MatchResult {
    /// Create a new match result
    pub fn new(matched: bool, applicable: bool) -> (r: Self)
        ensures
            r.matched == matched,
            r.applicable == applicable,
    {
        MatchResult { matched, applicable }
    }

    /// Create a successful match result
    pub fn matched() -> (r: Self)
        ensures
            r == (MatchResult { matched: true, applicable: true }),
    {
        MatchResult { matched: true, applicable: true }
    }

    /// Create a failed match result
    pub fn not_matched() -> (r: Self)
        ensures
            r == (MatchResult { matched: false, applicable: true }),
    {
        MatchResult { matched: false, applicable: true }
    }

    /// Create a not applicable result
    pub fn not_applicable() -> (r: Self)
        ensures
            r == (MatchResult { matched: false, applicable: false }),
    {
        MatchResult { matched: false, applicable: false }
    }
}

/// Field pattern types for matching
#[derive(Debug)]
pub enum FieldPattern {
    /// String-based pattern matching
    String {
        /// String matcher implementation
        matcher: StringMatcher,
        /// Human-readable description of the pattern
        pattern_desc: String,
    },
    /// Numeric pattern matching
    Numeric {
        /// Numeric matcher implementation
        matcher: NumMatcher,
        /// Human-readable description of the pattern
        pattern_desc: String,
    },
    /// Keyword matching against event keywords
    Keywords(Vec<String>),
}

/// Field rule for matching event fields
#[derive(Debug)]
pub struct FieldRule {
    /// The field name to match against
    pub field: String,
    /// The pattern to use for matching
    pub pattern: FieldPattern,
}

/// The lookup of field values of an event.
pub open spec fn selector_of<E: Event>(event: &E) -> spec_fn(Seq<char>) -> Option<Value> {
    |k: Seq<char>| event.select_spec(k)
}

/// Every keyword of `ks` is among the event keywords `ek`.
pub open spec fn keywords_all_present(ks: Seq<String>, ek: Seq<Seq<char>>) -> bool {
    forall|i: int| 0 <= i < ks.len() ==> ek.contains(#[trigger] ks[i]@)
}

/// What a field rule answers for an event whose fields `sel` looks up and
/// whose keywords are `kw`.
///
/// A string or numeric rule is not applicable when the event lacks the field.
/// A string rule matches the field's text form; a numeric rule matches its
/// integer form, and does not match a value that has none. A keyword rule is
/// applicable when the event offers keywords, and matches when every keyword
/// of the rule is among them.
pub open spec fn field_rule_eval(
    r: FieldRule,
    sel: spec_fn(Seq<char>) -> Option<Value>,
    kw: (Seq<Seq<char>>, bool),
) -> MatchResult {
    match r.pattern {
        FieldPattern::String { matcher, .. } => match sel(r.field@) {
            None => MatchResult { matched: false, applicable: false },
            Some(v) => MatchResult {
                matched: string_match_spec(matcher, string_form(v)),
                applicable: true,
            },
        },
        FieldPattern::Numeric { matcher, .. } => match sel(r.field@) {
            None => MatchResult { matched: false, applicable: false },
            Some(v) => match numeric_form(v) {
                None => MatchResult { matched: false, applicable: true },
                Some(n) => MatchResult {
                    matched: num_matcher_values(matcher).contains(n),
                    applicable: true,
                },
            },
        },
        FieldPattern::Keywords(ks) => {
            let (ek, applicable) = kw;
            if !applicable {
                MatchResult { matched: false, applicable: false }
            } else {
                MatchResult { matched: keywords_all_present(ks@, ek), applicable: true }
            }
        },
    }
}

/// A string or numeric rule applies to an event exactly when the event has
/// the rule's field. A string rule then matches exactly when its matcher
/// accepts the field's text form; a numeric rule exactly when the field has
/// an integer form that is one of the rule's numbers.
pub proof fn lemma_field_rule_reads_its_field(
    r: FieldRule,
    sel: spec_fn(Seq<char>) -> Option<Value>,
    kw: (Seq<Seq<char>>, bool),
)
    ensures
        !(r.pattern is Keywords) ==> (field_rule_eval(r, sel, kw).applicable <==> sel(r.field@) is Some),
        r.pattern is String ==> (field_rule_eval(r, sel, kw).matched <==> (sel(r.field@) is Some
            && string_match_spec(r.pattern->String_matcher, string_form(sel(r.field@)->0)))),
        r.pattern is Numeric ==> (field_rule_eval(r, sel, kw).matched <==> (sel(r.field@) is Some
            && numeric_form(sel(r.field@)->0) is Some
            && num_matcher_values(r.pattern->Numeric_matcher).contains(numeric_form(sel(r.field@)->0)->0))),
{
}

/// A keyword rule applies exactly when the event offers keywords, and then
/// matches exactly when each of its keywords is one of the event's: one
/// keyword missing from the event is enough to fail it.
pub proof fn lemma_keyword_rule_needs_every_keyword(
    r: FieldRule,
    sel: spec_fn(Seq<char>) -> Option<Value>,
    kw: (Seq<Seq<char>>, bool),
)
    requires
        r.pattern is Keywords,
    ensures
        field_rule_eval(r, sel, kw).applicable == kw.1,
        field_rule_eval(r, sel, kw).matched <==> kw.1 && forall|i: int|
            0 <= i < r.pattern->Keywords_0@.len() ==> #[trigger] kw.0.contains(r.pattern->Keywords_0@[i]@),
        forall|i: int|
            0 <= i < r.pattern->Keywords_0@.len() && !kw.0.contains(#[trigger] r.pattern->Keywords_0@[i]@)
                ==> !field_rule_eval(r, sel, kw).matched,
{
}

/// How a description writes a field pattern: its kind and its description
/// quoted, or the keywords quoted in a list.
pub open spec fn pattern_text(p: FieldPattern) -> Seq<char> {
    match p {
        FieldPattern::String { pattern_desc, .. } => "String { pattern_desc: "@ + str_debug_text(pattern_desc@) + " }"@,
        FieldPattern::Numeric { pattern_desc, .. } => "Numeric { pattern_desc: "@ + str_debug_text(pattern_desc@)
            + " }"@,
        FieldPattern::Keywords(ks) => "Keywords("@ + ("["@ + quoted_list(string_views(ks@)) + "]"@) + ")"@,
    }
}

/// How a description writes a field rule: the field, `matches`, the pattern.
pub open spec fn rule_text(r: FieldRule) -> Seq<char> {
    r.field@ + " matches "@ + pattern_text(r.pattern)
}

impl FieldRule {
    /// A human-readable description of the rule
    pub fn describe(&self) -> (r: String)
        ensures
            r@ == rule_text(*self),
    {
        let pattern = match &self.pattern {
            FieldPattern::String { pattern_desc, .. } => owned("String { pattern_desc: ").concat(
                debug_str(pattern_desc.as_str()).as_str(),
            ).concat(" }"),
            FieldPattern::Numeric { pattern_desc, .. } => owned("Numeric { pattern_desc: ").concat(
                debug_str(pattern_desc.as_str()).as_str(),
            ).concat(" }"),
            FieldPattern::Keywords(ks) => owned("Keywords(").concat(strings_debug(ks).as_str()).concat(")"),
        };
        owned(self.field.as_str()).concat(" matches ").concat(pattern.as_str())
    }


    /// Create a new field rule
    pub fn new(field: String, pattern: FieldPattern) -> (r: Self)
        ensures
            r.field == field,
            r.pattern == pattern,
    {
        FieldRule { field, pattern }
    }

    /// Create a string pattern
    pub fn string_pattern(field: String, pattern: String, modifier: TextPatternModifier) -> (r:
        Result<Self, String>)
        ensures
            r is Ok <==> all_plans_ok(modifier, seq![pattern]),
            r matches Err(e) ==> plan_error(plan_of(modifier, pattern@), e@),
            r matches Ok(fr) ==> {
                &&& fr.field == field
                &&& fr.pattern matches FieldPattern::String { matcher, pattern_desc }
                &&& pattern_desc@ == pattern@
                &&& forall|v: Seq<char>| #[trigger] string_match_spec(matcher, v)
                    == patterns_match(modifier, false, false, false, seq![pattern], v)
            },
    {
        let desc = pattern.clone();
        let ghost p = pattern;
        let mut patterns: Vec<String> = Vec::new();
        patterns.push(pattern);
        assert(patterns@ =~= seq![p]);
        match new_string_matcher(modifier, false, false, false, patterns) {
            Ok(matcher) => Ok(FieldRule { field, pattern: FieldPattern::String { matcher, pattern_desc: desc } }),
            Err(e) => {
                assert(first_plan_error(modifier, seq![p], e@));
                Err(e)
            },
        }
    }

    /// Create a glob pattern
    pub fn glob_pattern(field: String, pattern: String) -> (r: Result<Self, String>)
        ensures
            r is Ok <==> all_plans_ok(TextPatternModifier::NoModifier, seq![pattern]),
            r matches Err(e) ==> plan_error(plan_of(TextPatternModifier::NoModifier, pattern@), e@),
            r matches Ok(fr) ==> {
                &&& fr.field == field
                &&& fr.pattern matches FieldPattern::String { matcher, pattern_desc }
                &&& pattern_desc@ == pattern@
                &&& forall|v: Seq<char>| #[trigger] string_match_spec(matcher, v)
                    == patterns_match(TextPatternModifier::NoModifier, false, false, false, seq![pattern], v)
            },
    {
        Self::string_pattern(field, pattern, TextPatternModifier::NoModifier)
    }

    /// Check if this field rule matches the given event
    pub fn matches<E: Event>(&self, event: &E) -> (r: MatchResult)
        ensures
            r == field_rule_eval(*self, selector_of(event), event.keywords_spec()),
    {
        match &self.pattern {
            FieldPattern::String { matcher, .. } => {
                let (value_opt, found) = event.select(self.field.as_str());
                match value_opt {
                    Some(v) => {
                        if !found {
                            return MatchResult::not_applicable();
                        }
                        let s = coerce_for_string_match(&v);
                        MatchResult::new(matcher.string_match(s.as_str()), true)
                    },
                    None => MatchResult::not_applicable(),
                }
            },
            FieldPattern::Numeric { matcher, .. } => {
                let (value_opt, found) = event.select(self.field.as_str());
                match value_opt {
                    Some(v) => {
                        if !found {
                            return MatchResult::not_applicable();
                        }
                        match coerce_for_numeric_match(&v) {
                            Some(n) => MatchResult::new(matcher.num_match(n), true),
                            None => MatchResult::not_matched(),
                        }
                    },
                    None => MatchResult::not_applicable(),
                }
            },
            FieldPattern::Keywords(keywords) => {
                let (event_keywords, applicable) = event.keywords();
                if !applicable {
                    return MatchResult::not_applicable();
                }
                let ghost ek = string_views(event_keywords@);
                let mut i: usize = 0;
                while i < keywords.len()
                    invariant
                        i <= keywords@.len(),
                        ek == string_views(event_keywords@),
                        ek == event.keywords_spec().0,
                        event.keywords_spec().1,
                        self.pattern == FieldPattern::Keywords(*keywords),
                        forall|j: int| 0 <= j < i ==> ek.contains(#[trigger] keywords@[j]@),
                    decreases keywords.len() - i,
                {
                    if !vec_contains_string(&event_keywords, keywords[i].as_str()) {
                        assert(!ek.contains(keywords@[i as int]@));
                        return MatchResult::not_matched();
                    }
                    i = i + 1;
                }
                MatchResult::matched()
            },
        }
    }
}

} // verus!
