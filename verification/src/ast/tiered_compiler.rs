//! Tiered rule compiler for optimized evaluation
//!
//! This compiler categorizes rules into three tiers:
//! - Tier 1: Simple field equality (fastest)
//! - Tier 2: String pattern matching
//! - Tier 3: Complex expressions
//!
//! The condition analysis reads every condition as the equality of the
//! field `placeholder` with the value `value`, so every rule lands in tier 1.
use vstd::prelude::*;

use crate::error::SigmaError;
use crate::event::JsonValue;
use crate::pattern::grouped_matcher::{built_from, group_builds, GroupedPatternMatcher, PatternType};
use crate::rule::Rule;
use crate::text::owned;

verus! {

/// Reference to a pattern in the grouped matcher
#[derive(Debug)]
pub struct PatternRef {
    /// The field the pattern applies to
    pub field: String,
    /// The pattern's number
    pub pattern_id: usize,
    /// Whether the result is negated
    pub negate: bool,
}

/// Boolean expression for combining pattern results
#[derive(Debug)]
pub enum BooleanExpression {
    /// All must hold
    And(Vec<BooleanExpression>),
    /// One must hold
    Or(Vec<BooleanExpression>),
    /// Negation
    Not(Box<BooleanExpression>),
    /// Index into pattern_refs
    PatternRef(usize),
}

/// Compiled rule with tier assignment
#[derive(Debug)]
pub enum TieredRule {
    /// Simple field equality check
    Simple {
        /// The rule
        rule_id: String,
        /// The field compared
        field: String,
        /// The value it must equal
        value: JsonValue,
    },
    /// Pattern-based matching
    Pattern {
        /// The rule
        rule_id: String,
        /// The fields the patterns read
        required_fields: Vec<String>,
        /// The patterns, by reference
        pattern_refs: Vec<PatternRef>,
        /// How the pattern results combine
        logic: BooleanExpression,
    },
    /// Complex expression evaluated in full
    Complex {
        /// The rule
        rule_id: String,
        /// The estimated cost of evaluating it
        estimated_cost: usize,
    },
}

/// Statistics about rule compilation
#[derive(Debug)]
pub struct CompilationStats {
    /// All rules compiled
    pub total_rules: usize,
    /// Rules evaluated directly
    pub simple_rules: usize,
    /// Rules evaluated by grouped patterns
    pub pattern_rules: usize,
    /// Rules evaluated by the full tree
    pub complex_rules: usize,
    /// Patterns registered
    pub total_patterns: usize,
    /// Patterns registered, by type, each type once
    pub patterns_by_type: Vec<(PatternType, usize)>,
}

impl Default for CompilationStats {
    fn default() -> (r: Self)
        ensures
            r.total_rules == 0,
            r.simple_rules == 0,
            r.pattern_rules == 0,
            r.complex_rules == 0,
            r.total_patterns == 0,
            r.patterns_by_type@.len() == 0,
    {
        CompilationStats {
            total_rules: 0,
            simple_rules: 0,
            pattern_rules: 0,
            complex_rules: 0,
            total_patterns: 0,
            patterns_by_type: Vec::new(),
        }
    }
}

/// A condition as the analysis reads it.
enum ParsedCondition {
    Simple { field: String, value: JsonValue },
    Complex,
}

/// The tier the analysis assigns.
enum RuleCategory {
    Simple { field: String, value: JsonValue },
    Complex,
}

/// The field every condition is read as comparing.
pub open spec fn placeholder_field() -> Seq<char> {
    "placeholder"@
}

/// The value every condition is read as comparing with.
pub open spec fn placeholder_value() -> Seq<char> {
    "value"@
}

/// Reads a condition: every condition reads as the equality of the field
/// `placeholder` with the value `value`.
fn parse_condition(_condition: &str) -> (r: Result<ParsedCondition, SigmaError>)
    ensures
        r matches Ok(ParsedCondition::Simple { field, value }) && field@ == placeholder_field()
            && (value matches JsonValue::String(v) && v@ == placeholder_value()),
{
    Ok(ParsedCondition::Simple { field: owned("placeholder"), value: JsonValue::String(owned("value")) })
}

/// Assigns a tier: simple conditions to tier 1, anything else to tier 3.
fn analyze_ast(ast: ParsedCondition) -> (r: RuleCategory)
    ensures
        match ast {
            ParsedCondition::Simple { field, value } => r matches RuleCategory::Simple { field: f, value: v }
                && f == field && v == value,
            ParsedCondition::Complex => r is Complex,
        },
{
    match ast {
        ParsedCondition::Simple { field, value } => RuleCategory::Simple { field, value },
        ParsedCondition::Complex => RuleCategory::Complex,
    }
}

/// Tiered rule compiler
#[derive(Debug)]
pub struct TieredCompiler {
    pattern_matcher: GroupedPatternMatcher,
    simple_rules: Vec<TieredRule>,
    pattern_rules: Vec<TieredRule>,
    complex_rules: Vec<TieredRule>,
    stats: CompilationStats,
    next_pattern_id: usize,
}

impl TieredCompiler {
    /// The compilation statistics.
    pub closed spec fn stats_spec(&self) -> CompilationStats {
        self.stats
    }

    /// The tier-1 rules, in the order compiled.
    pub closed spec fn simple_spec(&self) -> Seq<TieredRule> {
        self.simple_rules@
    }

    /// The tier-2 rules, in the order compiled.
    pub closed spec fn pattern_spec(&self) -> Seq<TieredRule> {
        self.pattern_rules@
    }

    /// The tier-3 rules, in the order compiled.
    pub closed spec fn complex_spec(&self) -> Seq<TieredRule> {
        self.complex_rules@
    }

    /// The grouped matcher the tier-2 patterns are registered with.
    pub closed spec fn matcher_spec(&self) -> GroupedPatternMatcher {
        self.pattern_matcher
    }

    /// Create a new tiered compiler
    pub fn new() -> (r: Self)
        ensures
            r.stats_spec().total_rules == 0,
            r.stats_spec().simple_rules == 0,
            r.stats_spec().pattern_rules == 0,
            r.stats_spec().complex_rules == 0,
            r.stats_spec().total_patterns == 0,
            r.stats_spec().patterns_by_type@.len() == 0,
            r.simple_spec().len() == 0,
            r.pattern_spec().len() == 0,
            r.complex_spec().len() == 0,
            r.matcher_spec().groups_spec().len() == 0,
            r.matcher_spec().count_spec() == 0,
    {
        TieredCompiler {
            pattern_matcher: GroupedPatternMatcher::new(),
            simple_rules: Vec::new(),
            pattern_rules: Vec::new(),
            complex_rules: Vec::new(),
            stats: CompilationStats::default(),
            next_pattern_id: 0,
        }
    }

    /// Compile a rule into the appropriate tier: as the analysis reads every
    /// condition as the placeholder equality, the rule becomes a tier-1 rule
    /// on the placeholder field and value.
    pub fn compile_rule(&mut self, rule: &Rule) -> (r: Result<(), SigmaError>)
        requires
            old(self).stats_spec().total_rules < usize::MAX,
            old(self).stats_spec().simple_rules < usize::MAX,
            old(self).stats_spec().complex_rules < usize::MAX,
        ensures
            r is Ok,
            final(self).stats_spec().total_rules == old(self).stats_spec().total_rules + 1,
            final(self).stats_spec().simple_rules == old(self).stats_spec().simple_rules + 1,
            final(self).stats_spec().pattern_rules == old(self).stats_spec().pattern_rules,
            final(self).stats_spec().complex_rules == old(self).stats_spec().complex_rules,
            final(self).stats_spec().total_patterns == old(self).stats_spec().total_patterns,
            final(self).stats_spec().patterns_by_type == old(self).stats_spec().patterns_by_type,
            final(self).simple_spec().len() == old(self).simple_spec().len() + 1,
            final(self).simple_spec().drop_last() == old(self).simple_spec(),
            (final(self).simple_spec().last() matches TieredRule::Simple { rule_id, field, value }
                && rule_id@ == rule.id@ && field@ == placeholder_field()
                && (value matches JsonValue::String(v) && v@ == placeholder_value())),
            final(self).pattern_spec() == old(self).pattern_spec(),
            final(self).complex_spec() == old(self).complex_spec(),
            final(self).matcher_spec() == old(self).matcher_spec(),
    {
        self.stats.total_rules = self.stats.total_rules + 1;
        let condition_str = match rule.detection.condition() {
            Some(c) => c,
            None => "selection",
        };
        let ast = match parse_condition(condition_str) {
            Ok(ast) => ast,
            Err(e) => {
                return Err(e);
            },
        };
        match analyze_ast(ast) {
            RuleCategory::Simple { field, value } => {
                self.stats.simple_rules = self.stats.simple_rules + 1;
                self.simple_rules.push(TieredRule::Simple { rule_id: rule.id.clone(), field, value });
                assert(self.simple_rules@.drop_last() =~= old(self).simple_rules@);
            },
            RuleCategory::Complex => {
                self.stats.complex_rules = self.stats.complex_rules + 1;
                self.complex_rules.push(TieredRule::Complex { rule_id: rule.id.clone(), estimated_cost: 100 });
            },
        }
        Ok(())
    }

    /// Build the optimized matchers after all rules are compiled: it
    /// succeeds exactly when every field group of the matcher builds.
    pub fn build(&mut self) -> (r: Result<(), SigmaError>)
        ensures
            final(self).stats_spec() == old(self).stats_spec(),
            final(self).simple_spec() == old(self).simple_spec(),
            final(self).pattern_spec() == old(self).pattern_spec(),
            final(self).complex_spec() == old(self).complex_spec(),
            final(self).matcher_spec().count_spec() == old(self).matcher_spec().count_spec(),
            final(self).matcher_spec().groups_spec().len() == old(self).matcher_spec().groups_spec().len(),
            r is Ok <==> forall|k: int|
                0 <= k < old(self).matcher_spec().groups_spec().len() ==> group_builds(
                    #[trigger] old(self).matcher_spec().groups_spec()[k],
                ),
            r is Ok ==> forall|k: int|
                0 <= k < old(self).matcher_spec().groups_spec().len() ==> built_from(
                    #[trigger] old(self).matcher_spec().groups_spec()[k],
                    final(self).matcher_spec().groups_spec()[k],
                ),
            r matches Err(e) ==> e is Parse,
    {
        self.pattern_matcher.build()
    }

    /// Get compilation statistics
    pub fn stats(&self) -> (r: &CompilationStats)
        ensures
            *r == self.stats_spec(),
    {
        &self.stats
    }

    /// The tier-1 rules
    pub fn get_simple_rules(&self) -> (r: &[TieredRule])
        ensures
            r@ == self.simple_spec(),
    {
        self.simple_rules.as_slice()
    }

    /// The tier-2 rules
    pub fn get_pattern_rules(&self) -> (r: &[TieredRule])
        ensures
            r@ == self.pattern_spec(),
    {
        self.pattern_rules.as_slice()
    }

    /// The tier-3 rules
    pub fn get_complex_rules(&self) -> (r: &[TieredRule])
        ensures
            r@ == self.complex_spec(),
    {
        self.complex_rules.as_slice()
    }

    /// The grouped matcher of the tier-2 patterns
    pub fn get_pattern_matcher(&self) -> (r: &GroupedPatternMatcher)
        ensures
            *r == self.matcher_spec(),
    {
        &self.pattern_matcher
    }
}

} // verus!
