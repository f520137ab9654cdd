//! Grouped pattern evaluation over batches of events: pattern references,
//! the boolean expressions that combine them, and batch statistics.
use vstd::prelude::*;

use crate::ast::tiered_compiler::{BooleanExpression, PatternRef, TieredCompiler, TieredRule};
use crate::clock::{elapsed_millis, now};
use crate::error::SigmaError;
use crate::pattern::grouped_matcher::{array_hits, group_index, FieldPatternGroup};
use crate::text::owned;
use crate::pattern::grouped_matcher::hits_view;
use crate::text::str_eq;

verus! {

/// The events that the patterns of one field matched: for each rule, the
/// indices of the events.
#[derive(Debug)]
pub struct FieldMatches {
    /// The field
    pub field: String,
    /// For each rule, the events its patterns on the field matched
    pub rules: Vec<(String, Vec<usize>)>,
}

/// The matches of a field as names and event positions, per rule.
pub type RuleHits = Seq<(Seq<char>, Seq<usize>)>;

/// The matches of the fields: each field's name and its rules' hits.
pub open spec fn matches_view(pm: Seq<FieldMatches>) -> Seq<(Seq<char>, RuleHits)> {
    pm.map_values(|fm: FieldMatches| (fm.field@, hits_view(fm.rules@)))
}

/// Some rule's patterns on the field matched the event.
pub open spec fn rules_hit(rules: RuleHits, event_idx: usize) -> bool {
    exists|r: int| 0 <= r < rules.len() && #[trigger] rules[r].1.contains(event_idx)
}

/// The matches recorded for a field: the first entry for it, if any.
pub open spec fn field_entry(pm: Seq<(Seq<char>, RuleHits)>, field: Seq<char>) -> Option<RuleHits>
    decreases pm.len(),
{
    if pm.len() == 0 {
        None
    } else if pm[0].0 == field {
        Some(pm[0].1)
    } else {
        field_entry(pm.drop_first(), field)
    }
}

/// What a pattern reference answers for an event: whether a rule's patterns
/// on its field matched the event (negated if asked); a field without
/// matches answers the negation flag, and an index out of range `false`.
pub open spec fn ref_holds(refs: Seq<PatternRef>, idx: usize, pm: Seq<(Seq<char>, RuleHits)>, event_idx: usize) -> bool {
    if idx < refs.len() {
        let r = refs[idx as int];
        match field_entry(pm, r.field@) {
            Some(hits) => rules_hit(hits, event_idx) != r.negate,
            None => r.negate,
        }
    } else {
        false
    }
}

/// What an expression answers for an event.
pub open spec fn expr_holds(
    e: BooleanExpression,
    event_idx: usize,
    refs: Seq<PatternRef>,
    pm: Seq<(Seq<char>, RuleHits)>,
) -> bool
    decreases e,
{
    match e {
        BooleanExpression::And(es) => all_hold(es@, event_idx, refs, pm),
        BooleanExpression::Or(es) => any_holds(es@, event_idx, refs, pm),
        BooleanExpression::Not(b) => !expr_holds(*b, event_idx, refs, pm),
        BooleanExpression::PatternRef(i) => ref_holds(refs, i, pm, event_idx),
    }
}

/// Every expression holds.
pub open spec fn all_hold(es: Seq<BooleanExpression>, event_idx: usize, refs: Seq<PatternRef>, pm: Seq<(Seq<char>, RuleHits)>) -> bool
    decreases es,
{
    if es.len() == 0 {
        true
    } else {
        expr_holds(es[0], event_idx, refs, pm) && all_hold(es.drop_first(), event_idx, refs, pm)
    }
}

/// Some expression holds.
pub open spec fn any_holds(es: Seq<BooleanExpression>, event_idx: usize, refs: Seq<PatternRef>, pm: Seq<(Seq<char>, RuleHits)>) -> bool
    decreases es,
{
    if es.len() == 0 {
        false
    } else {
        expr_holds(es[0], event_idx, refs, pm) || any_holds(es.drop_first(), event_idx, refs, pm)
    }
}

fn find_field<'a>(pm: &'a [FieldMatches], field: &str) -> (r: Option<&'a FieldMatches>)
    ensures
        match field_entry(matches_view(pm@), field@) {
            Some(hits) => r matches Some(x) && hits_view(x.rules@) == hits,
            None => r is None,
        },
{
    let ghost pv = matches_view(pm@);
    let mut i: usize = 0;
    assert(pv.subrange(0, pv.len() as int) =~= pv);
    while i < pm.len()
        invariant
            i <= pm@.len(),
            pv == matches_view(pm@),
            field_entry(pv, field@) == field_entry(pv.subrange(i as int, pv.len() as int), field@),
        decreases pm.len() - i,
    {
        let ghost rest = pv.subrange(i as int, pv.len() as int);
        assert(rest[0] == pv[i as int]);
        assert(rest.drop_first() =~= pv.subrange(i + 1, pv.len() as int));
        if str_eq(pm[i].field.as_str(), field) {
            return Some(&pm[i]);
        }
        i = i + 1;
    }
    None
}

fn event_hit(rules: &Vec<(String, Vec<usize>)>, event_idx: usize) -> (r: bool)
    ensures
        r == rules_hit(hits_view(rules@), event_idx),
{
    let mut k: usize = 0;
    while k < rules.len()
        invariant
            k <= rules@.len(),
            forall|j: int| 0 <= j < k ==> !(#[trigger] rules@[j]).1@.contains(event_idx),
        decreases rules.len() - k,
    {
        let indices = &rules[k].1;
        let mut m: usize = 0;
        while m < indices.len()
            invariant
                m <= indices@.len(),
                k < rules@.len(),
                *indices == rules@[k as int].1,
                forall|q: int| 0 <= q < m ==> indices@[q] != event_idx,
            decreases indices.len() - m,
        {
            if indices[m] == event_idx {
                assert(rules@[k as int].1@.contains(event_idx));
                assert(hits_view(rules@)[k as int].1.contains(event_idx));
                return true;
            }
            m = m + 1;
        }
        assert(!rules@[k as int].1@.contains(event_idx)) by {
            if rules@[k as int].1@.contains(event_idx) {
                let q = choose|q: int| 0 <= q < indices@.len() && indices@[q] == event_idx;
                assert(indices@[q] != event_idx);
            }
        }
        k = k + 1;
    }
    assert(!rules_hit(hits_view(rules@), event_idx)) by {
        if rules_hit(hits_view(rules@), event_idx) {
            let r = choose|r: int| 0 <= r < rules@.len() && #[trigger] hits_view(rules@)[r].1.contains(event_idx);
            assert(!rules@[r].1@.contains(event_idx));
        }
    }
    false
}

/// Evaluate a boolean expression for one event of a batch, from the pattern
/// references and the matches of each field's patterns.
pub fn evaluate_boolean_expr(
    expr: &BooleanExpression,
    event_idx: usize,
    pattern_refs: &[PatternRef],
    pattern_matches: &[FieldMatches],
) -> (r: bool)
    ensures
        r == expr_holds(*expr, event_idx, pattern_refs@, matches_view(pattern_matches@)),
    decreases expr,
{
    match expr {
        BooleanExpression::And(exprs) => {
            let mut i: usize = 0;
            assert(exprs@.subrange(0, exprs@.len() as int) =~= exprs@);
            while i < exprs.len()
                invariant
                    *expr == BooleanExpression::And(*exprs),
                    i <= exprs@.len(),
                    all_hold(exprs@, event_idx, pattern_refs@, matches_view(pattern_matches@)) == all_hold(
                        exprs@.subrange(i as int, exprs@.len() as int),
                        event_idx,
                        pattern_refs@,
                        matches_view(pattern_matches@),
                    ),
                decreases exprs.len() - i,
            {
                let ghost rest = exprs@.subrange(i as int, exprs@.len() as int);
                assert(rest[0] == exprs@[i as int]);
                assert(rest.drop_first() =~= exprs@.subrange(i + 1, exprs@.len() as int));
                proof {
                    assert(decreases_to!(*expr => expr->And_0));
                    assert(decreases_to!(expr->And_0 => expr->And_0@));
                    assert(decreases_to!(exprs@ => exprs@[i as int]));
                }
                if !evaluate_boolean_expr(&exprs[i], event_idx, pattern_refs, pattern_matches) {
                    return false;
                }
                i = i + 1;
            }
            true
        },
        BooleanExpression::Or(exprs) => {
            let mut i: usize = 0;
            assert(exprs@.subrange(0, exprs@.len() as int) =~= exprs@);
            while i < exprs.len()
                invariant
                    *expr == BooleanExpression::Or(*exprs),
                    i <= exprs@.len(),
                    any_holds(exprs@, event_idx, pattern_refs@, matches_view(pattern_matches@)) == any_holds(
                        exprs@.subrange(i as int, exprs@.len() as int),
                        event_idx,
                        pattern_refs@,
                        matches_view(pattern_matches@),
                    ),
                decreases exprs.len() - i,
            {
                let ghost rest = exprs@.subrange(i as int, exprs@.len() as int);
                assert(rest[0] == exprs@[i as int]);
                assert(rest.drop_first() =~= exprs@.subrange(i + 1, exprs@.len() as int));
                proof {
                    assert(decreases_to!(*expr => expr->Or_0));
                    assert(decreases_to!(expr->Or_0 => expr->Or_0@));
                    assert(decreases_to!(exprs@ => exprs@[i as int]));
                }
                if evaluate_boolean_expr(&exprs[i], event_idx, pattern_refs, pattern_matches) {
                    return true;
                }
                i = i + 1;
            }
            false
        },
        BooleanExpression::Not(inner) => !evaluate_boolean_expr(inner, event_idx, pattern_refs, pattern_matches),
        BooleanExpression::PatternRef(idx) => {
            if *idx < pattern_refs.len() {
                let pattern_ref = &pattern_refs[*idx];
                match find_field(pattern_matches, pattern_ref.field.as_str()) {
                    Some(field_matches) => {
                        let matched = event_hit(&field_matches.rules, event_idx);
                        if pattern_ref.negate {
                            !matched
                        } else {
                            matched
                        }
                    },
                    None => pattern_ref.negate,
                }
            } else {
                false
            }
        },
    }
}

/// Optimal batch size for cache efficiency
pub const OPTIMAL_BATCH_SIZE: usize = 262144;

/// Match results for a batch
#[derive(Debug)]
pub struct BatchMatchResults {
    /// Rule ID -> Event indices that matched, each rule once
    pub rule_matches: Vec<(String, Vec<usize>)>,
    /// Processing statistics
    pub stats: ProcessingStats,
}

/// Processing statistics
#[derive(Debug)]
pub struct ProcessingStats {
    /// Events processed
    pub events_processed: usize,
    /// Rules evaluated
    pub rules_evaluated: usize,
    /// Matches found
    pub matches_found: usize,
    /// Total processing time
    pub processing_time_ms: u64,
    /// Time spent matching patterns
    pub pattern_matching_time_ms: u64,
    /// Time spent evaluating rules
    pub rule_evaluation_time_ms: u64,
}

impl Default for ProcessingStats {
    fn default() -> (r: Self)
        ensures
            r.events_processed == 0 && r.rules_evaluated == 0 && r.matches_found == 0,
            r.processing_time_ms == 0 && r.pattern_matching_time_ms == 0 && r.rule_evaluation_time_ms == 0,
    {
        ProcessingStats {
            events_processed: 0,
            rules_evaluated: 0,
            matches_found: 0,
            processing_time_ms: 0,
            pattern_matching_time_ms: 0,
            rule_evaluation_time_ms: 0,
        }
    }
}

/// Configuration for the batch processor
#[derive(Debug)]
pub struct BatchProcessorConfig {
    /// Maximum batch size
    pub batch_size: usize,
    /// Number of parallel pattern matching threads
    pub pattern_match_threads: usize,
    /// Enable columnar field extraction optimization
    pub enable_field_extraction: bool,
    /// Fields to extract for fast access
    pub hot_fields: Vec<String>,
    /// Maximum memory per batch (bytes)
    pub max_batch_memory: usize,
    /// Enable performance profiling
    pub enable_profiling: bool,
}

impl BatchProcessorConfig {
    /// The default configuration: optimal batches, one pattern thread per
    /// logical CPU, field extraction on for the usual process fields, 1 GiB
    /// per batch, and profiling as asked.
    pub fn with_profiling(enable_profiling: bool) -> (r: Self)
        ensures
            r.batch_size == OPTIMAL_BATCH_SIZE,
            r.pattern_match_threads >= 1,
            r.enable_field_extraction,
            r.hot_fields@.len() == 5,
            r.max_batch_memory == 1073741824,
            r.enable_profiling == enable_profiling,
    {
        let mut hot_fields: Vec<String> = Vec::new();
        hot_fields.push(crate::text::owned("CommandLine"));
        hot_fields.push(crate::text::owned("Image"));
        hot_fields.push(crate::text::owned("ParentImage"));
        hot_fields.push(crate::text::owned("User"));
        hot_fields.push(crate::text::owned("EventID"));
        BatchProcessorConfig {
            batch_size: OPTIMAL_BATCH_SIZE,
            pattern_match_threads: crate::cpu_count(),
            enable_field_extraction: true,
            hot_fields,
            max_batch_memory: 1073741824,
            enable_profiling,
        }
    }
}


/// A column of a batch of events: text, a missing value as none, or a
/// column of another data type, by the name of its type.
#[derive(Debug)]
pub enum BatchColumn {
    /// Text values
    Text(Vec<Option<String>>),
    /// Values of another type
    Other(String),
}

/// A batch of events held in columns.
#[derive(Debug)]
pub struct EventBatch {
    /// The number of events
    pub num_rows: usize,
    /// The columns by name
    pub columns: Vec<(String, BatchColumn)>,
}

/// The position of the first column with the name, if any.
pub open spec fn column_index(cols: Seq<(String, BatchColumn)>, name: Seq<char>) -> Option<int>
    decreases cols.len(),
{
    if cols.len() == 0 {
        None
    } else {
        match column_index(cols.drop_last(), name) {
            Some(k) => Some(k),
            None => if cols.last().0@ == name {
                Some(cols.len() - 1)
            } else {
                None
            },
        }
    }
}

/// Some entry has the name.
pub open spec fn names_contain(s: Seq<(Seq<char>, int)>, name: Seq<char>) -> bool {
    exists|i: int| 0 <= i < s.len() && (#[trigger] s[i]).0 == name
}

/// The hot fields the batch has, each once, with their columns, in the
/// order of the configuration.
pub open spec fn hot_columns(hot: Seq<String>, cols: Seq<(String, BatchColumn)>) -> Seq<(Seq<char>, int)>
    decreases hot.len(),
{
    if hot.len() == 0 {
        Seq::empty()
    } else {
        let before = hot_columns(hot.drop_last(), cols);
        let f = hot.last()@;
        match column_index(cols, f) {
            Some(k) => if names_contain(before, f) {
                before
            } else {
                before.push((f, k))
            },
            None => before,
        }
    }
}

/// The matches of each extracted field's patterns on its column: none for a
/// field without patterns, and a failure for a column of patterns that is not
/// text.
pub open spec fn field_results(
    groups: Seq<FieldPatternGroup>,
    hot: Seq<(Seq<char>, int)>,
    cols: Seq<(String, BatchColumn)>,
) -> Result<Seq<(Seq<char>, RuleHits)>, Seq<char>>
    decreases hot.len(),
{
    if hot.len() == 0 {
        Ok(Seq::empty())
    } else {
        match field_results(groups, hot.drop_last(), cols) {
            Err(e) => Err(e),
            Ok(before) => {
                let (f, k) = hot.last();
                match group_index(groups, f) {
                    None => Ok(before.push((f, Seq::empty()))),
                    Some(g) => match cols[k].1 {
                        BatchColumn::Text(values) => Ok(before.push((f, array_hits(groups[g], values@)))),
                        BatchColumn::Other(dt) => Err("Expected Utf8 array, got "@ + dt@),
                    },
                }
            },
        }
    }
}

/// The events of a batch of `n` for which the expression holds, in order.
pub open spec fn matching_events(
    logic: BooleanExpression,
    refs: Seq<PatternRef>,
    pm: Seq<(Seq<char>, RuleHits)>,
    n: nat,
) -> Seq<usize>
    decreases n,
{
    if n == 0 {
        Seq::empty()
    } else {
        let before = matching_events(logic, refs, pm, (n - 1) as nat);
        if expr_holds(logic, (n - 1) as usize, refs, pm) {
            before.push((n - 1) as usize)
        } else {
            before
        }
    }
}

/// The hits after recording a rule's events: replacing the rule's entry, or
/// added at the end.
pub open spec fn upsert(acc: RuleHits, rule: Seq<char>, events: Seq<usize>) -> RuleHits
    decreases acc.len(),
{
    if acc.len() == 0 {
        seq![(rule, events)]
    } else if acc[0].0 == rule {
        acc.update(0, (rule, events))
    } else {
        seq![acc[0]] + upsert(acc.drop_first(), rule, events)
    }
}

/// The events each pattern rule matched, for the rules that matched some.
pub open spec fn rule_results(rules: Seq<TieredRule>, pm: Seq<(Seq<char>, RuleHits)>, n: nat) -> RuleHits
    decreases rules.len(),
{
    if rules.len() == 0 {
        Seq::empty()
    } else {
        let before = rule_results(rules.drop_last(), pm, n);
        match rules.last() {
            TieredRule::Pattern { rule_id, pattern_refs, logic, .. } => {
                let events = matching_events(logic, pattern_refs@, pm, n);
                if events.len() > 0 {
                    upsert(before, rule_id@, events)
                } else {
                    before
                }
            },
            _ => before,
        }
    }
}

/// The number of hits recorded.
pub open spec fn total_hits(h: RuleHits) -> nat
    decreases h.len(),
{
    if h.len() == 0 {
        0
    } else {
        total_hits(h.drop_last()) + h.last().1.len()
    }
}

/// A count capped at the largest `usize`.
pub open spec fn capped(n: nat) -> usize {
    if n <= usize::MAX {
        n as usize
    } else {
        usize::MAX
    }
}

/// Optimized batch processor
#[derive(Debug)]
pub struct OptimizedBatchProcessor {
    config: BatchProcessorConfig,
    tiered_compiler: TieredCompiler,
}

proof fn lemma_column_index_range(cols: Seq<(String, BatchColumn)>, name: Seq<char>)
    ensures
        column_index(cols, name) matches Some(k) ==> 0 <= k < cols.len() && cols[k].0@ == name,
    decreases cols.len(),
{
    if cols.len() > 0 {
        lemma_column_index_range(cols.drop_last(), name);
    }
}

proof fn lemma_column_index_prefix(cols: Seq<(String, BatchColumn)>, k: int, name: Seq<char>)
    requires
        0 <= k <= cols.len(),
        column_index(cols.take(k), name) is Some,
    ensures
        column_index(cols, name) == column_index(cols.take(k), name),
    decreases cols.len() - k,
{
    if k < cols.len() {
        assert(cols.take(k + 1).drop_last() =~= cols.take(k));
        lemma_column_index_prefix(cols, k + 1, name);
    } else {
        assert(cols.take(k) =~= cols);
    }
}

proof fn lemma_hot_columns_range(hot: Seq<String>, cols: Seq<(String, BatchColumn)>)
    ensures
        forall|i: int|
            0 <= i < hot_columns(hot, cols).len() ==> 0 <= (#[trigger] hot_columns(hot, cols)[i]).1 < cols.len(),
    decreases hot.len(),
{
    if hot.len() > 0 {
        lemma_hot_columns_range(hot.drop_last(), cols);
        lemma_column_index_range(cols, hot.last()@);
        let before = hot_columns(hot.drop_last(), cols);
        let r = hot_columns(hot, cols);
        assert forall|i: int| 0 <= i < r.len() implies 0 <= (#[trigger] r[i]).1 < cols.len() by {
            if i < before.len() {
                assert(r[i] == before[i]);
            }
        }
    }
}

fn find_column(cols: &Vec<(String, BatchColumn)>, name: &str) -> (r: Option<usize>)
    ensures
        match column_index(cols@, name@) {
            Some(k) => r matches Some(x) && x == k,
            None => r is None,
        },
{
    let mut i: usize = 0;
    assert(cols@.take(0) =~= Seq::<(String, BatchColumn)>::empty());
    while i < cols.len()
        invariant
            i <= cols@.len(),
            column_index(cols@.take(i as int), name@) is None,
        decreases cols.len() - i,
    {
        assert(cols@.take(i + 1).drop_last() =~= cols@.take(i as int));
        assert(cols@.take(i + 1).last() == cols@[i as int]);
        if str_eq(cols[i].0.as_str(), name) {
            proof { lemma_column_index_prefix(cols@, i + 1, name@); }
            return Some(i);
        }
        i = i + 1;
    }
    assert(cols@.take(cols@.len() as int) =~= cols@);
    None
}

fn record_events(acc: &mut Vec<(String, Vec<usize>)>, rule: &String, events: Vec<usize>)
    ensures
        hits_view(final(acc)@) == upsert(hits_view(old(acc)@), rule@, events@),
{
    let ghost before = hits_view(acc@);
    let ghost ev = events@;
    let mut i: usize = 0;
    assert(before.skip(0) =~= before);
    assert(before.take(0) + upsert(before.skip(0), rule@, ev) =~= upsert(before, rule@, ev));
    while i < acc.len()
        invariant
            i <= acc@.len(),
            before == hits_view(acc@),
            before == hits_view(old(acc)@),
            ev == events@,
            upsert(before, rule@, ev) == before.take(i as int) + upsert(before.skip(i as int), rule@, ev),
        decreases acc.len() - i,
    {
        let ghost rest = before.skip(i as int);
        assert(rest[0] == before[i as int]);
        if str_eq(acc[i].0.as_str(), rule.as_str()) {
            let name = acc[i].0.clone();
            let ghost x = (name@, ev);
            acc.set(i, (name, events));
            proof {
                assert(hits_view(acc@) =~= before.update(i as int, x));
                assert(before.take(i as int) + rest.update(0, x) =~= before.update(i as int, x));
            }
            return;
        }
        assert(rest.drop_first() =~= before.skip(i + 1));
        assert(before.take(i + 1) =~= before.take(i as int) + seq![rest[0]]);
        i = i + 1;
    }
    acc.push((rule.clone(), events));
    proof {
        assert(before.skip(i as int) =~= Seq::<(Seq<char>, Seq<usize>)>::empty());
        assert(hits_view(acc@) =~= before.push((rule@, ev)));
        assert(before.take(i as int) =~= before);
    }
}

impl OptimizedBatchProcessor {
    /// The configuration.
    pub closed spec fn config_spec(&self) -> BatchProcessorConfig {
        self.config
    }

    /// The compiled rules.
    pub closed spec fn compiler_spec(&self) -> TieredCompiler {
        self.tiered_compiler
    }

    /// Create a new optimized batch processor
    pub fn new(config: BatchProcessorConfig, tiered_compiler: TieredCompiler) -> (r: Self)
        ensures
            r.config_spec() == config,
            r.compiler_spec() == tiered_compiler,
    {
        OptimizedBatchProcessor { config, tiered_compiler }
    }

    /// The configuration
    pub fn config(&self) -> (r: &BatchProcessorConfig)
        ensures
            *r == self.config_spec(),
    {
        &self.config
    }

    /// Extract the hot fields the batch has: names and column positions
    fn extract_hot_fields(&self, batch: &EventBatch) -> (r: Vec<(String, usize)>)
        ensures
            r@.map_values(|e: (String, usize)| (e.0@, e.1 as int)) == hot_columns(self.config.hot_fields@, batch.columns@),
    {
        let hot = &self.config.hot_fields;
        let mut out: Vec<(String, usize)> = Vec::new();
        let mut i: usize = 0;
        assert(hot@.take(0) =~= Seq::<String>::empty());
        assert(out@.map_values(|e: (String, usize)| (e.0@, e.1 as int)) =~= Seq::<(Seq<char>, int)>::empty());
        while i < hot.len()
            invariant
                i <= hot@.len(),
                *hot == self.config.hot_fields,
                out@.map_values(|e: (String, usize)| (e.0@, e.1 as int)) == hot_columns(hot@.take(i as int), batch.columns@),
            decreases hot.len() - i,
        {
            assert(hot@.take(i + 1).drop_last() =~= hot@.take(i as int));
            assert(hot@.take(i + 1).last() == hot@[i as int]);
            let ghost before = out@.map_values(|e: (String, usize)| (e.0@, e.1 as int));
            match find_column(&batch.columns, hot[i].as_str()) {
                Some(k) => {
                    let mut seen = false;
                    let mut j: usize = 0;
                    while j < out.len()
                        invariant
                            j <= out@.len(),
                            i < hot@.len(),
                            before == out@.map_values(|e: (String, usize)| (e.0@, e.1 as int)),
                            seen == names_contain(before.take(j as int), hot@[i as int]@),
                        decreases out.len() - j,
                    {
                        assert(before.take(j + 1).drop_last() =~= before.take(j as int));
                        if str_eq(out[j].0.as_str(), hot[i].as_str()) {
                            assert(before.take(j + 1)[j as int].0 == hot@[i as int]@);
                            seen = true;
                        } else {
                            assert forall|q: int| 0 <= q < j + 1 && (#[trigger] before.take(j + 1)[q]).0 == hot@[i as int]@ implies q < j by {}
                        }
                        j = j + 1;
                    }
                    assert(before.take(out@.len() as int) =~= before);
                    if !seen {
                        out.push((hot[i].clone(), k));
                        assert(out@.map_values(|e: (String, usize)| (e.0@, e.1 as int)) =~= before.push(
                            (hot@[i as int]@, k as int),
                        ));
                    }
                },
                None => {},
            }
            i = i + 1;
        }
        assert(hot@.take(hot@.len() as int) =~= hot@);
        out
    }

    /// Run the pattern matchers of the extracted fields on their columns
    fn run_pattern_matchers(&self, batch: &EventBatch, fields: &Vec<(String, usize)>) -> (r: Result<
        Vec<FieldMatches>,
        SigmaError,
    >)
        requires
            forall|i: int| 0 <= i < fields@.len() ==> (#[trigger] fields@[i]).1 < batch.columns@.len(),
        ensures
            match field_results(
                self.tiered_compiler.matcher_spec().groups_spec(),
                fields@.map_values(|e: (String, usize)| (e.0@, e.1 as int)),
                batch.columns@,
            ) {
                Ok(pm) => r matches Ok(v) && matches_view(v@) == pm,
                Err(m) => r matches Err(SigmaError::InvalidPattern(x)) && x@ == m,
            },
    {
        let matcher = self.tiered_compiler.get_pattern_matcher();
        let ghost groups = matcher.groups_spec();
        let ghost hot = fields@.map_values(|e: (String, usize)| (e.0@, e.1 as int));
        let mut all: Vec<FieldMatches> = Vec::new();
        let mut i: usize = 0;
        assert(hot.take(0) =~= Seq::<(Seq<char>, int)>::empty());
        assert(matches_view(all@) =~= Seq::<(Seq<char>, RuleHits)>::empty());
        while i < fields.len()
            invariant
                i <= fields@.len(),
                groups == matcher.groups_spec(),
                *matcher == self.tiered_compiler.matcher_spec(),
                hot == fields@.map_values(|e: (String, usize)| (e.0@, e.1 as int)),
                forall|q: int| 0 <= q < fields@.len() ==> (#[trigger] fields@[q]).1 < batch.columns@.len(),
                field_results(groups, hot.take(i as int), batch.columns@) == Ok::<Seq<(Seq<char>, RuleHits)>, Seq<char>>(
                    matches_view(all@),
                ),
            decreases fields.len() - i,
        {
            assert(hot.take(i + 1).drop_last() =~= hot.take(i as int));
            assert(hot.take(i + 1).last() == hot[i as int]);
            let name = &fields[i].0;
            let k = fields[i].1;
            let ghost before = matches_view(all@);
            match matcher.get_field_group(name.as_str()) {
                None => {
                    let no_hits: Vec<(String, Vec<usize>)> = Vec::new();
                    assert(hits_view(no_hits@) =~= Seq::<(Seq<char>, Seq<usize>)>::empty());
                    all.push(FieldMatches { field: name.clone(), rules: no_hits });
                    assert(matches_view(all@) =~= before.push((name@, Seq::<(Seq<char>, Seq<usize>)>::empty())));
                },
                Some(group) => {
                    match &batch.columns[k].1 {
                        BatchColumn::Text(values) => {
                            let hits = group.match_array(values.as_slice());
                            all.push(FieldMatches { field: name.clone(), rules: hits });
                            assert(matches_view(all@) =~= before.push((name@, hits_view(hits@))));
                        },
                        BatchColumn::Other(dt) => {
                            proof {
                                lemma_prefix_error(groups, hot, i as int + 1, batch.columns@);
                            }
                            return Err(SigmaError::InvalidPattern(owned("Expected Utf8 array, got ").concat(dt.as_str())));
                        },
                    }
                },
            }
            i = i + 1;
        }
        assert(hot.take(fields@.len() as int) =~= hot);
        Ok(all)
    }

    /// Evaluate the pattern rules on the batch from the matches of the fields
    fn evaluate_rules(&self, pattern_matches: &Vec<FieldMatches>, batch_size: usize) -> (r: Vec<(String, Vec<usize>)>)
        ensures
            hits_view(r@) == rule_results(self.tiered_compiler.pattern_spec(), matches_view(pattern_matches@), batch_size as nat),
    {
        let rules = self.tiered_compiler.get_pattern_rules();
        let ghost pm = matches_view(pattern_matches@);
        let mut rule_matches: Vec<(String, Vec<usize>)> = Vec::new();
        let mut i: usize = 0;
        assert(rules@.take(0) =~= Seq::<TieredRule>::empty());
        assert(hits_view(rule_matches@) =~= Seq::<(Seq<char>, Seq<usize>)>::empty());
        while i < rules.len()
            invariant
                i <= rules@.len(),
                rules@ == self.tiered_compiler.pattern_spec(),
                pm == matches_view(pattern_matches@),
                hits_view(rule_matches@) == rule_results(rules@.take(i as int), pm, batch_size as nat),
            decreases rules.len() - i,
        {
            assert(rules@.take(i + 1).drop_last() =~= rules@.take(i as int));
            assert(rules@.take(i + 1).last() == rules@[i as int]);
            match &rules[i] {
                TieredRule::Pattern { rule_id, required_fields: _, pattern_refs, logic } => {
                    let mut events: Vec<usize> = Vec::new();
                    let mut e: usize = 0;
                    while e < batch_size
                        invariant
                            e <= batch_size,
                            pm == matches_view(pattern_matches@),
                            events@ == matching_events(*logic, pattern_refs@, pm, e as nat),
                        decreases batch_size - e,
                    {
                        if evaluate_boolean_expr(logic, e, pattern_refs.as_slice(), pattern_matches.as_slice()) {
                            events.push(e);
                        }
                        e = e + 1;
                    }
                    if events.len() > 0 {
                        record_events(&mut rule_matches, rule_id, events);
                    }
                },
                _ => {},
            }
            i = i + 1;
        }
        assert(rules@.take(rules@.len() as int) =~= rules@);
        rule_matches
    }

    /// Process a batch of events: extract the hot fields, match their
    /// patterns, and evaluate the pattern rules
    pub fn process_batch(&self, events: &EventBatch) -> (r: Result<BatchMatchResults, SigmaError>)
        ensures
            ({
                let hot = if self.config_spec().enable_field_extraction {
                    hot_columns(self.config_spec().hot_fields@, events.columns@)
                } else {
                    Seq::empty()
                };
                match field_results(self.compiler_spec().matcher_spec().groups_spec(), hot, events.columns@) {
                    Err(m) => r matches Err(SigmaError::InvalidPattern(x)) && x@ == m,
                    Ok(pm) => r matches Ok(res) && {
                        let found = rule_results(self.compiler_spec().pattern_spec(), pm, events.num_rows as nat);
                        &&& hits_view(res.rule_matches@) == found
                        &&& res.stats.events_processed == events.num_rows
                        &&& res.stats.rules_evaluated == capped(
                            self.compiler_spec().pattern_spec().len() + self.compiler_spec().simple_spec().len(),
                        )
                        &&& res.stats.matches_found == capped(total_hits(found))
                    },
                }
            }),
    {
        let start_time = now();
        let mut stats = ProcessingStats::default();
        stats.events_processed = events.num_rows;
        let field_columns: Vec<(String, usize)> = if self.config.enable_field_extraction {
            self.extract_hot_fields(events)
        } else {
            let none: Vec<(String, usize)> = Vec::new();
            assert(none@.map_values(|e: (String, usize)| (e.0@, e.1 as int)) =~= Seq::<(Seq<char>, int)>::empty());
            none
        };
        proof {
            lemma_hot_columns_range(self.config.hot_fields@, events.columns@);
            let hot = field_columns@.map_values(|e: (String, usize)| (e.0@, e.1 as int));
            assert forall|i: int| 0 <= i < field_columns@.len() implies (#[trigger] field_columns@[i]).1 < events.columns@.len() by {
                assert(hot[i].1 == field_columns@[i].1 as int);
            }
        }
        let pattern_start = now();
        let pattern_matches = match self.run_pattern_matchers(events, &field_columns) {
            Ok(pm) => pm,
            Err(e) => {
                return Err(e);
            },
        };
        stats.pattern_matching_time_ms = elapsed_millis(&pattern_start);
        let eval_start = now();
        let rule_matches = self.evaluate_rules(&pattern_matches, events.num_rows);
        stats.rule_evaluation_time_ms = elapsed_millis(&eval_start);
        let pattern_count = self.tiered_compiler.get_pattern_rules().len();
        let simple_count = self.tiered_compiler.get_simple_rules().len();
        stats.rules_evaluated = pattern_count.saturating_add(simple_count);
        let mut found: usize = 0;
        let mut j: usize = 0;
        let ghost h = hits_view(rule_matches@);
        assert(h.take(0) =~= Seq::<(Seq<char>, Seq<usize>)>::empty());
        while j < rule_matches.len()
            invariant
                j <= rule_matches@.len(),
                h == hits_view(rule_matches@),
                found == capped(total_hits(h.take(j as int))),
            decreases rule_matches.len() - j,
        {
            assert(h.take(j + 1).drop_last() =~= h.take(j as int));
            assert(h.take(j + 1).last() == h[j as int]);
            found = found.saturating_add(rule_matches[j].1.len());
            j = j + 1;
        }
        assert(h.take(h.len() as int) =~= h);
        stats.matches_found = found;
        stats.processing_time_ms = elapsed_millis(&start_time);
        Ok(BatchMatchResults { rule_matches, stats })
    }
}

proof fn lemma_prefix_error(
    groups: Seq<FieldPatternGroup>,
    hot: Seq<(Seq<char>, int)>,
    k: int,
    cols: Seq<(String, BatchColumn)>,
)
    requires
        0 <= k <= hot.len(),
        field_results(groups, hot.take(k), cols) is Err,
    ensures
        field_results(groups, hot, cols) == field_results(groups, hot.take(k), cols),
    decreases hot.len() - k,
{
    if k < hot.len() {
        assert(hot.take(k + 1).drop_last() =~= hot.take(k));
        lemma_prefix_error(groups, hot, k + 1, cols);
    } else {
        assert(hot.take(k) =~= hot);
    }
}

} // verus!
