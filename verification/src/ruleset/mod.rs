//! A set of compiled rules, evaluated together against events.
use vstd::prelude::*;

use crate::ast::nodes::{eval, Branch};
use crate::ast::{selector_of, MatchResult};
use crate::clock::{elapsed, now};
use crate::error::SigmaError;
use crate::event::Event;
use crate::parser::condition_outcome;
use crate::parser::semantics::denotes;
use crate::rule::detection::{entry_value, DetectionValue};
use crate::rule::{Rule, RuleHandle};
use crate::text::{chars_of, digits_of, owned, str_eq, usize_to_decimal};
use crate::tree::{build_tree, Tree};
use vstd::string::StringExecFns;

verus! {

/// What the set knows of one rule: the key it is found by, its identifier
/// and title, its condition tree, and whether it is enabled.
pub struct RuleView {
    /// The key the rule is found by
    pub key: Seq<char>,
    /// The rule identifier
    pub id: Seq<char>,
    /// The rule title
    pub title: Seq<char>,
    /// The condition tree
    pub root: Branch,
    /// Whether the rule is evaluated
    pub enabled: bool,
}

#[derive(Debug)]
struct CompiledRule {
    key: String,
    tree: Tree,
    enabled: bool,
}

/// Metadata about the loaded ruleset
#[derive(Debug)]
pub struct RuleSetMetadata {
    /// Total number of rules loaded
    pub total_rules: usize,
    /// Number of enabled rules
    pub enabled_rules: usize,
    /// Number of rules that failed to load
    pub failed_rules: usize,
    /// When the set was created
    pub loaded_at: std::time::Instant,
}

/// Result of evaluating an event against the ruleset
#[derive(Debug)]
pub struct RuleSetResult {
    /// Rules that were evaluated, with their outcome
    pub matches: Vec<RuleMatch>,
    /// Number of rules evaluated
    pub rules_evaluated: usize,
    /// Total evaluation time
    pub evaluation_time: std::time::Duration,
}

/// Information about one rule evaluated against an event
#[derive(Debug)]
pub struct RuleMatch {
    /// Rule identifier, or `unknown` when the rule has none
    pub rule_id: String,
    /// Rule title
    pub rule_title: String,
    /// Whether the rule matched
    pub matched: bool,
    /// Detailed match result
    pub match_result: MatchResult,
    /// Time taken to evaluate this rule
    pub evaluation_time: std::time::Duration,
}

/// The number of enabled rules.
pub open spec fn count_enabled(rules: Seq<RuleView>) -> nat
    decreases rules.len(),
{
    if rules.len() == 0 {
        0
    } else {
        count_enabled(rules.drop_last()) + if rules.last().enabled {
            1nat
        } else {
            0nat
        }
    }
}

/// The enabled rules, in order.
pub open spec fn enabled_rules(rules: Seq<RuleView>) -> Seq<RuleView>
    decreases rules.len(),
{
    if rules.len() == 0 {
        Seq::empty()
    } else if rules.last().enabled {
        enabled_rules(rules.drop_last()).push(rules.last())
    } else {
        enabled_rules(rules.drop_last())
    }
}

/// The position of the last rule with the given key, which is the one the
/// key finds.
pub open spec fn key_index(rules: Seq<RuleView>, key: Seq<char>) -> Option<int>
    decreases rules.len(),
{
    if rules.len() == 0 {
        None
    } else if rules.last().key == key {
        Some(rules.len() - 1)
    } else {
        key_index(rules.drop_last(), key)
    }
}

/// The key a rule is stored under: its identifier, or `rule_` and its
/// position when it has none.
pub open spec fn rule_key(id: Seq<char>, index: nat) -> Seq<char> {
    if id.len() == 0 {
        "rule_"@ + digits_of(index)
    } else {
        id
    }
}

/// The identifier a match reports: the rule's, or `unknown`.
pub open spec fn reported_id(id: Seq<char>) -> Seq<char> {
    if id.len() == 0 {
        "unknown"@
    } else {
        id
    }
}

/// The rules after setting whether the rule stored under `key` is enabled;
/// unchanged when no rule is stored under it.
pub open spec fn with_enabled(rules: Seq<RuleView>, key: Seq<char>, enabled: bool) -> Seq<RuleView> {
    match key_index(rules, key) {
        Some(k) => rules.update(k, RuleView { enabled, ..rules[k] }),
        None => rules,
    }
}

proof fn lemma_key_index_keeps(rules: Seq<RuleView>, k: int, v: RuleView, key: Seq<char>)
    requires
        0 <= k < rules.len(),
        v.key == rules[k].key,
    ensures
        key_index(rules.update(k, v), key) == key_index(rules, key),
    decreases rules.len(),
{
    if k < rules.len() - 1 {
        assert(rules.update(k, v).drop_last() =~= rules.drop_last().update(k, v));
        lemma_key_index_keeps(rules.drop_last(), k, v, key);
    } else {
        assert(rules.update(k, v).drop_last() =~= rules.drop_last());
    }
}

proof fn lemma_key_index_range(rules: Seq<RuleView>, key: Seq<char>)
    ensures
        key_index(rules, key) matches Some(k) ==> 0 <= k < rules.len() && rules[k].key == key,
    decreases rules.len(),
{
    if rules.len() > 0 {
        lemma_key_index_range(rules.drop_last(), key);
    }
}

/// Enabling or disabling a rule a second time changes nothing: the rules
/// and so the count of enabled rules stay as the first time left them.
pub proof fn lemma_set_enabled_idempotent(rules: Seq<RuleView>, key: Seq<char>, enabled: bool)
    ensures
        with_enabled(with_enabled(rules, key, enabled), key, enabled) == with_enabled(rules, key, enabled),
        count_enabled(with_enabled(with_enabled(rules, key, enabled), key, enabled)) == count_enabled(
            with_enabled(rules, key, enabled),
        ),
{
    lemma_key_index_range(rules, key);
    match key_index(rules, key) {
        Some(k) => {
            let once = rules.update(k, RuleView { enabled, ..rules[k] });
            lemma_key_index_keeps(rules, k, RuleView { enabled, ..rules[k] }, key);
            assert(once.update(k, RuleView { enabled, ..once[k] }) =~= once);
        },
        None => {},
    }
}

/// Changing whether one rule is enabled changes the count by what changed.
pub proof fn lemma_count_enabled_update(rules: Seq<RuleView>, k: int, enabled: bool)
    requires
        0 <= k < rules.len(),
    ensures
        count_enabled(rules.update(k, RuleView { enabled, ..rules[k] })) + (if rules[k].enabled {
            1int
        } else {
            0int
        }) == count_enabled(rules) + (if enabled {
            1int
        } else {
            0int
        }),
    decreases rules.len(),
{
    let u = rules.update(k, RuleView { enabled, ..rules[k] });
    if k == rules.len() - 1 {
        assert(u.drop_last() =~= rules.drop_last());
    } else {
        assert(u.drop_last() =~= rules.drop_last().update(k, RuleView { enabled, ..rules[k] }));
        lemma_count_enabled_update(rules.drop_last(), k, enabled);
    }
}

/// There are no more enabled rules than rules.
pub proof fn lemma_count_enabled_bound(rules: Seq<RuleView>)
    ensures
        count_enabled(rules) <= rules.len(),
    decreases rules.len(),
{
    if rules.len() > 0 {
        lemma_count_enabled_bound(rules.drop_last());
    }
}

/// What one call does to the rules of a set: a successful `add_rule`
/// appends one rule; a refused `add_rule` keeps them; `set_rule_enabled`
/// changes at most whether one rule is enabled.
pub open spec fn call_effect(before: Seq<RuleView>, after: Seq<RuleView>, added: bool) -> bool {
    if added {
        after.len() == before.len() + 1 && after.drop_last() == before
    } else {
        after == before || exists|key: Seq<char>, enabled: bool| after == with_enabled(before, key, enabled)
    }
}

/// The number of `true` flags.
pub open spec fn count_true(flags: Seq<bool>) -> nat
    decreases flags.len(),
{
    if flags.len() == 0 {
        0
    } else {
        count_true(flags.drop_last()) + if flags.last() {
            1nat
        } else {
            0nat
        }
    }
}

/// Enabling or disabling a rule keeps the number of rules.
pub proof fn lemma_with_enabled_len(rules: Seq<RuleView>, key: Seq<char>, enabled: bool)
    ensures
        with_enabled(rules, key, enabled).len() == rules.len(),
{
    lemma_key_index_range(rules, key);
}

/// From an empty set, whatever calls are made, the set holds one rule per
/// successful `add_rule`, and no more rules are enabled than it holds.
/// `states` are the rules before and after each call, `added` whether the
/// call was a successful `add_rule`.
pub proof fn lemma_rules_count_successful_adds(states: Seq<Seq<RuleView>>, added: Seq<bool>)
    requires
        states.len() == added.len() + 1,
        states[0].len() == 0,
        forall|i: int| #![trigger added[i]] 0 <= i < added.len() ==> call_effect(states[i], states[i + 1], added[i]),
    ensures
        states.last().len() == count_true(added),
        count_enabled(states.last()) <= states.last().len(),
    decreases added.len(),
{
    lemma_count_enabled_bound(states.last());
    if added.len() > 0 {
        let n = added.len() - 1;
        assert forall|i: int| #![trigger added.drop_last()[i]] 0 <= i < added.drop_last().len() implies call_effect(
            states.drop_last()[i],
            states.drop_last()[i + 1],
            added.drop_last()[i],
        ) by {
            assert(added[i] == added.drop_last()[i]);
        }
        lemma_rules_count_successful_adds(states.drop_last(), added.drop_last());
        assert(added[n] == added.last());
        assert(call_effect(states[n], states[n + 1], added[n]));
        if !added[n] && states[n + 1] != states[n] {
            let (key, enabled) = choose|key: Seq<char>, enabled: bool| states[n + 1] == with_enabled(states[n], key, enabled);
            lemma_with_enabled_len(states[n], key, enabled);
        }
    }
}

/// RuleSet manages a collection of compiled rules
#[derive(Debug)]
pub struct RuleSet {
    rules: Vec<CompiledRule>,
    metadata: RuleSetMetadata,
}

/// What evaluating an event against rules gives: one match per enabled
/// rule, in order, with the rule's reported id, its title and the result of
/// its tree on the event.
pub open spec fn evaluation_of<E: Event>(rules: Seq<RuleView>, event: &E, r: RuleSetResult) -> bool {
    let en = enabled_rules(rules);
    &&& r.matches@.len() == en.len()
    &&& r.rules_evaluated == en.len()
    &&& forall|j: int|
        0 <= j < en.len() ==> {
            let m = #[trigger] r.matches@[j];
            let res = eval(en[j].root, selector_of(event), event.keywords_spec());
            &&& m.rule_id@ == reported_id(en[j].id)
            &&& m.rule_title@ == en[j].title
            &&& m.match_result == res
            &&& m.matched == res.matched
        }
}

impl RuleSet {
    /// The rules of the set, in the order they were added.
    pub closed spec fn rules_spec(&self) -> Seq<RuleView> {
        self.rules@.map_values(
            |c: CompiledRule|
                RuleView {
                    key: c.key@,
                    id: c.tree.rule.rule.id@,
                    title: c.tree.rule.rule.title@,
                    root: c.tree.root,
                    enabled: c.enabled,
                },
        )
    }

    /// The metadata of the set.
    pub closed spec fn metadata_spec(&self) -> RuleSetMetadata {
        self.metadata
    }

    /// The metadata counts the rules and the enabled rules, and each rule
    /// is stored under the key of its identifier and position.
    pub open spec fn wf(&self) -> bool {
        &&& self.metadata_spec().total_rules == self.rules_spec().len()
        &&& self.metadata_spec().enabled_rules == count_enabled(self.rules_spec())
        &&& forall|i: int|
            0 <= i < self.rules_spec().len() ==> #[trigger] self.rules_spec()[i].key == rule_key(
                self.rules_spec()[i].id,
                i as nat,
            )
    }

    /// Create a new empty ruleset
    pub fn new() -> (r: Self)
        ensures
            r.wf(),
            r.rules_spec().len() == 0,
            r.metadata_spec().failed_rules == 0,
    {
        let r = RuleSet {
            rules: Vec::new(),
            metadata: RuleSetMetadata { total_rules: 0, enabled_rules: 0, failed_rules: 0, loaded_at: now() },
        };
        assert(r.rules_spec() =~= Seq::<RuleView>::empty());
        r
    }

    /// Compile a rule and add it to the set, enabled. A rule whose condition
    /// does not parse is refused with the parser's message.
    pub fn add_rule(&mut self, rule: Rule) -> (r: Result<(), SigmaError>)
        requires
            old(self).wf(),
        ensures
            final(self).wf(),
            final(self).metadata_spec().failed_rules == old(self).metadata_spec().failed_rules,
            match entry_value(rule.detection@, "condition"@) {
                Some(DetectionValue::String(_)) => match condition_outcome(rule.detection@, false) {
                    Ok(c) => r is Ok && final(self).rules_spec().len() == old(self).rules_spec().len() + 1
                        && final(self).rules_spec().drop_last() == old(self).rules_spec() && ({
                        let v = final(self).rules_spec().last();
                        &&& v.key == rule_key(rule.id@, old(self).rules_spec().len())
                        &&& v.id == rule.id@
                        &&& v.title == rule.title@
                        &&& v.enabled
                        &&& denotes(v.root, c)
                    }),
                    Err(_) => r matches Err(SigmaError::Parse(_)) && final(self).rules_spec() == old(
                        self,
                    ).rules_spec(),
                },
                _ => r matches Err(SigmaError::Parse(_)) && final(self).rules_spec() == old(self).rules_spec(),
            },
    {
        let index = self.rules.len();
        let key = if chars_of(rule.id.as_str()).len() == 0 {
            owned("rule_").concat(usize_to_decimal(index).as_str())
        } else {
            rule.id.clone()
        };
        let handle = RuleHandle::new(rule, owned("ruleset"));
        let tree = match build_tree(handle) {
            Ok(t) => t,
            Err(e) => {
                return Err(SigmaError::Parse(e.message()));
            },
        };
        let ghost old_view = self.rules_spec();
        self.rules.push(CompiledRule { key, tree, enabled: true });
        assert(self.rules_spec().drop_last() =~= old_view);
        proof {
            lemma_count_enabled_bound(old_view);
            assert forall|i: int| 0 <= i < self.rules_spec().len() implies #[trigger] self.rules_spec()[i].key
                == rule_key(self.rules_spec()[i].id, i as nat) by {
                if i < old_view.len() {
                    assert(self.rules_spec()[i] == old_view[i]);
                }
            }
        }
        let n = self.rules.len();
        self.metadata.total_rules = n;
        self.metadata.enabled_rules = self.metadata.enabled_rules + 1;
        Ok(())
    }

    /// Count one more rule that failed to load
    pub fn record_failed_rule(&mut self)
        requires
            old(self).wf(),
        ensures
            final(self).wf(),
            final(self).rules_spec() == old(self).rules_spec(),
            final(self).metadata_spec().failed_rules == if old(self).metadata_spec().failed_rules
                == usize::MAX {
                usize::MAX as int
            } else {
                old(self).metadata_spec().failed_rules + 1
            },
    {
        if self.metadata.failed_rules < usize::MAX {
            self.metadata.failed_rules = self.metadata.failed_rules + 1;
        }
    }

    /// Get the number of rules in the set
    pub fn len(&self) -> (r: usize)
        requires
            self.wf(),
        ensures
            r == self.rules_spec().len(),
    {
        self.metadata.total_rules
    }

    /// Check if the ruleset is empty
    pub fn is_empty(&self) -> (r: bool)
        ensures
            r == (self.rules_spec().len() == 0),
    {
        self.rules.len() == 0
    }

    /// Evaluate an event against every enabled rule, in order.
    pub fn evaluate<E: Event>(&self, event: &E) -> (r: RuleSetResult)
        ensures
            evaluation_of(self.rules_spec(), event, r),
    {
        let start = now();
        let ghost rs = self.rules_spec();
        let mut matches: Vec<RuleMatch> = Vec::new();
        let mut i: usize = 0;
        while i < self.rules.len()
            invariant
                i <= self.rules@.len(),
                rs == self.rules_spec(),
                matches@.len() == enabled_rules(rs.take(i as int)).len(),
                forall|j: int|
                    0 <= j < matches@.len() ==> {
                        let en = enabled_rules(rs.take(i as int));
                        let m = #[trigger] matches@[j];
                        let res = eval(en[j].root, selector_of(event), event.keywords_spec());
                        &&& m.rule_id@ == reported_id(en[j].id)
                        &&& m.rule_title@ == en[j].title
                        &&& m.match_result == res
                        &&& m.matched == res.matched
                    },
            decreases self.rules.len() - i,
        {
            let ghost pre = rs.take(i as int);
            assert(rs.take(i + 1).drop_last() =~= pre);
            assert(rs.take(i + 1).last() == rs[i as int]);
            let compiled = &self.rules[i];
            if compiled.enabled {
                let rule_start = now();
                let (matched, applicable) = compiled.tree.match_event(event);
                let evaluation_time = elapsed(&rule_start);
                let rule = &compiled.tree.rule.rule;
                let rule_id = if chars_of(rule.id.as_str()).len() == 0 {
                    owned("unknown")
                } else {
                    rule.id.clone()
                };
                let ghost before = matches@;
                matches.push(
                    RuleMatch {
                        rule_id,
                        rule_title: rule.title.clone(),
                        matched,
                        match_result: MatchResult { matched, applicable },
                        evaluation_time,
                    },
                );
                assert(enabled_rules(rs.take(i + 1)) == enabled_rules(pre).push(rs[i as int]));
                assert forall|j: int| 0 <= j < matches@.len() implies {
                    let en = enabled_rules(rs.take(i + 1));
                    let m = #[trigger] matches@[j];
                    let res = eval(en[j].root, selector_of(event), event.keywords_spec());
                    &&& m.rule_id@ == reported_id(en[j].id)
                    &&& m.rule_title@ == en[j].title
                    &&& m.match_result == res
                    &&& m.matched == res.matched
                } by {
                    if j < before.len() {
                        assert(matches@[j] == before[j]);
                    }
                }
            } else {
                assert(enabled_rules(rs.take(i + 1)) == enabled_rules(pre));
            }
            i = i + 1;
        }
        assert(rs.take(self.rules@.len() as int) =~= rs);
        let rules_evaluated = matches.len();
        RuleSetResult { matches, rules_evaluated, evaluation_time: elapsed(&start) }
    }

    /// Enable or disable a rule by its key
    pub fn set_rule_enabled(&mut self, rule_id: &str, enabled: bool) -> (r: Result<(), String>)
        requires
            old(self).wf(),
        ensures
            final(self).wf(),
            final(self).metadata_spec().failed_rules == old(self).metadata_spec().failed_rules,
            final(self).rules_spec() == with_enabled(old(self).rules_spec(), rule_id@, enabled),
            match key_index(old(self).rules_spec(), rule_id@) {
                None => r matches Err(m) && m@ == "Rule not found: "@ + rule_id@ && final(self).rules_spec()
                    == old(self).rules_spec() && final(self).metadata_spec() == old(self).metadata_spec(),
                Some(k) => r is Ok && final(self).rules_spec() == old(self).rules_spec().update(
                    k,
                    RuleView { enabled, ..old(self).rules_spec()[k] },
                ),
            },
    {
        let ghost rs = self.rules_spec();
        let mut k = self.rules.len();
        assert(rs.take(rs.len() as int) =~= rs);
        while k > 0
            invariant
                k <= self.rules@.len(),
                rs == self.rules_spec(),
                rs == old(self).rules_spec(),
                self.rules@ == old(self).rules@,
                self.metadata == old(self).metadata,
                old(self).wf(),
                key_index(rs, rule_id@) == key_index(rs.take(k as int), rule_id@),
            decreases k,
        {
            let ghost pre = rs.take(k as int);
            assert(pre.drop_last() =~= rs.take(k - 1));
            assert(pre.last() == rs[k - 1]);
            if str_eq(self.rules[k - 1].key.as_str(), rule_id) {
                let idx = k - 1;
                let was = self.rules[idx].enabled;
                if was != enabled {
                    proof {
                        lemma_count_enabled_update(rs, idx as int, enabled);
                        lemma_count_enabled_bound(rs);
                        lemma_count_enabled_bound(rs.update(idx as int, RuleView { enabled, ..rs[idx as int] }));
                    }
                    let mut c = self.rules.remove(idx);
                    c.enabled = enabled;
                    self.rules.insert(idx, c);
                    if enabled {
                        self.metadata.enabled_rules = self.metadata.enabled_rules + 1;
                    } else {
                        self.metadata.enabled_rules = self.metadata.enabled_rules - 1;
                    }
                }
                assert(self.rules_spec() =~= rs.update(idx as int, RuleView { enabled, ..rs[idx as int] }));
                return Ok(());
            }
            k = k - 1;
        }
        Err(owned("Rule not found: ").concat(rule_id))
    }

    /// Get ruleset metadata
    pub fn get_metadata(&self) -> (r: &RuleSetMetadata)
        ensures
            *r == self.metadata_spec(),
    {
        &self.metadata
    }
}

} // verus!
