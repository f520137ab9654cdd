//! The decisions of the engine's services: who may call, what a health
//! check reports, and what an evaluation request is answered.
use std::sync::Arc;
use vstd::prelude::*;

use crate::clock::now;
use crate::engine::SigmaEngine;
use crate::event::{DynamicEvent, JsonValue};
use crate::ruleset::{enabled_rules, evaluation_of, RuleMatch, RuleSetMetadata, RuleSetResult, RuleView};
use crate::event::Event;
use crate::text::{digits_of, owned, str_eq, usize_to_decimal};

verus! {

/// The version reported by health checks.
pub const VERSION: &'static str = "0.1.0";

/// The answer to a health check
#[derive(Debug)]
pub struct HealthResponse {
    /// `healthy` when rules are enabled, else `degraded`
    pub status: String,
    /// The library version
    pub version: String,
    /// Seconds since the service started
    pub uptime_seconds: u64,
}

/// The gRPC face of an engine
pub struct SigmaGrpcService {
    /// The engine evaluated against
    pub engine: Arc<SigmaEngine>,
    /// When the service was created
    pub start_time: std::time::Instant,
}

impl SigmaGrpcService {
    /// A service over an engine, started now
    pub fn new(engine: Arc<SigmaEngine>) -> (r: Self)
        ensures
            r.engine == engine,
    {
        SigmaGrpcService { engine, start_time: now() }
    }
}

/// Health check service
pub struct HealthCheckService {
    /// The engine checked
    pub engine: Arc<SigmaEngine>,
}

impl HealthCheckService {
    /// A health check over an engine
    pub fn new(engine: Arc<SigmaEngine>) -> (r: Self)
        ensures
            r.engine == engine,
    {
        HealthCheckService { engine }
    }

    /// Basic health check: healthy when the engine has rules enabled
    pub fn check(&self) -> (r: HealthResponse)
        ensures
            r.status@ == (if self.engine.ruleset.metadata_spec().enabled_rules > 0 {
                "healthy"@
            } else {
                "degraded"@
            }),
            r.uptime_seconds == 0,
    {
        let metadata = self.engine.ruleset().get_metadata();
        let status = if metadata.enabled_rules > 0 {
            owned("healthy")
        } else {
            owned("degraded")
        };
        HealthResponse { status, version: owned(VERSION), uptime_seconds: 0 }
    }
}


/// The path that is answered without a key.
pub open spec fn health_path() -> Seq<char> {
    "/health"@
}

/// Whether a request may go on: a health check always; any request when no
/// key is configured; else a request carrying the configured key.
pub fn authorize(path: &str, expected_key: Option<&str>, provided_key: Option<&str>) -> (r: bool)
    ensures
        r == (path@ == health_path() || match expected_key {
            None => true,
            Some(k) => provided_key matches Some(p) && p@ == k@,
        }),
{
    if str_eq(path, "/health") {
        return true;
    }
    match expected_key {
        None => true,
        Some(k) => match provided_key {
            Some(p) => str_eq(p, k),
            None => false,
        },
    }
}

/// The lines listing a ruleset's counts.
pub open spec fn rules_summary_lines(m: RuleSetMetadata) -> Seq<Seq<char>> {
    seq![
        "Total rules: "@ + digits_of(m.total_rules as nat),
        "Enabled rules: "@ + digits_of(m.enabled_rules as nat),
        "Failed rules: "@ + digits_of(m.failed_rules as nat),
    ]
}

/// The counts of a ruleset, one line each
pub fn rules_summary(metadata: &RuleSetMetadata) -> (r: Vec<String>)
    ensures
        crate::text::string_views(r@) == rules_summary_lines(*metadata),
{
    let mut r: Vec<String> = Vec::new();
    r.push(owned("Total rules: ").concat(usize_to_decimal(metadata.total_rules).as_str()));
    r.push(owned("Enabled rules: ").concat(usize_to_decimal(metadata.enabled_rules).as_str()));
    r.push(owned("Failed rules: ").concat(usize_to_decimal(metadata.failed_rules).as_str()));
    assert(crate::text::string_views(r@) =~= rules_summary_lines(*metadata));
    r
}

/// Why an evaluation request was refused.
#[derive(Debug, Clone, Copy, PartialEq, Eq, Structural)]
pub enum EvaluateRefusal {
    /// The event has no fields.
    BadRequest,
}

/// A rule that matched, as an evaluation answer lists it.
#[derive(Debug)]
pub struct MatchSummary {
    /// The rule's identifier
    pub rule_id: String,
    /// The rule's title
    pub rule_title: String,
    /// Always true: only matches are listed
    pub matched: bool,
    /// Whole milliseconds the rule took
    pub evaluation_time_ms: u128,
}

/// The answer to an evaluation request.
#[derive(Debug)]
pub struct EvaluateResponse {
    /// Whether some rule matched
    pub matched: bool,
    /// The rules that matched, in order
    pub rules: Vec<MatchSummary>,
    /// How many rules were evaluated
    pub total_rules_evaluated: usize,
    /// Whole milliseconds the evaluation took
    pub evaluation_time_ms: u128,
}

/// Whole milliseconds of a duration.
///
/// Trusted: calls `Duration::as_millis`. `Duration` is opaque here, so
/// nothing is claimed of the number.
#[verifier::external_body]
fn millis(d: &std::time::Duration) -> u128 {
    d.as_millis()
}

/// The matches among the rule results, in order.
pub open spec fn matched_only(ms: Seq<RuleMatch>) -> Seq<RuleMatch>
    decreases ms.len(),
{
    if ms.len() == 0 {
        Seq::empty()
    } else {
        let before = matched_only(ms.drop_last());
        if ms.last().matched {
            before.push(ms.last())
        } else {
            before
        }
    }
}

/// `resp` answers the evaluation `res`: whether any rule matched, how many
/// rules were evaluated, and the matched rules by identifier and title, in
/// order.
pub open spec fn answers_evaluation(resp: EvaluateResponse, res: RuleSetResult) -> bool {
    let ms = matched_only(res.matches@);
    &&& resp.matched == (ms.len() > 0)
    &&& resp.total_rules_evaluated == res.rules_evaluated
    &&& resp.rules@.len() == ms.len()
    &&& forall|i: int|
        0 <= i < resp.rules@.len() ==> {
            &&& (#[trigger] resp.rules@[i]).rule_id@ == ms[i].rule_id@
            &&& resp.rules@[i].rule_title@ == ms[i].rule_title@
            &&& resp.rules@[i].matched
        }
}

/// `resp` answers the evaluation of the document `data` against `rules`:
/// evaluated as the event that carries it (what an evaluation reads of an
/// event is its document alone).
pub open spec fn answers_document(rules: Seq<RuleView>, data: JsonValue, resp: EvaluateResponse) -> bool {
    exists|ev: DynamicEvent, res: RuleSetResult|
        #![trigger ev.data_spec(), answers_evaluation(resp, res)]
        ev.data_spec() == data && evaluation_of(rules, &ev, res) && answers_evaluation(resp, res)
}

/// The answer to an evaluation: whether any rule matched, and the matched
/// rules listed by identifier and title.
pub fn summarize_evaluation(result: &RuleSetResult) -> (r: EvaluateResponse)
    ensures
        answers_evaluation(r, *result),
{
    let mut rules: Vec<MatchSummary> = Vec::new();
    let mut i: usize = 0;
    assert(result.matches@.take(0) =~= Seq::<RuleMatch>::empty());
    while i < result.matches.len()
        invariant
            i <= result.matches@.len(),
            rules@.len() == matched_only(result.matches@.take(i as int)).len(),
            forall|k: int|
                0 <= k < rules@.len() ==> {
                    let m = matched_only(result.matches@.take(i as int))[k];
                    &&& (#[trigger] rules@[k]).rule_id@ == m.rule_id@
                    &&& rules@[k].rule_title@ == m.rule_title@
                    &&& rules@[k].matched
                },
        decreases result.matches.len() - i,
    {
        assert(result.matches@.take(i + 1).drop_last() =~= result.matches@.take(i as int));
        assert(result.matches@.take(i + 1).last() == result.matches@[i as int]);
        let m = &result.matches[i];
        if m.matched {
            rules.push(
                MatchSummary {
                    rule_id: m.rule_id.clone(),
                    rule_title: m.rule_title.clone(),
                    matched: true,
                    evaluation_time_ms: millis(&m.evaluation_time),
                },
            );
        }
        i = i + 1;
    }
    assert(result.matches@.take(result.matches@.len() as int) =~= result.matches@);
    let matched = rules.len() > 0;
    EvaluateResponse {
        matched,
        rules,
        total_rules_evaluated: result.rules_evaluated,
        evaluation_time_ms: millis(&result.evaluation_time),
    }
}

/// Evaluate a request's event: refused when it has no fields, else
/// evaluated against every enabled rule of the engine and summarized.
pub fn evaluate_request(engine: &SigmaEngine, event: JsonValue) -> (r: Result<EvaluateResponse, EvaluateRefusal>)
    ensures
        (match event {
            JsonValue::Object(entries, _) => entries@.len() == 0,
            _ => true,
        }) ==> r == Err::<EvaluateResponse, EvaluateRefusal>(EvaluateRefusal::BadRequest),
        (match event {
            JsonValue::Object(entries, _) => entries@.len() > 0,
            _ => false,
        }) ==> r is Ok,
        r matches Ok(resp) ==> resp.total_rules_evaluated == enabled_rules(engine.ruleset.rules_spec()).len(),
        r matches Ok(resp) ==> answers_document(engine.ruleset.rules_spec(), event, resp),
{
    let empty = match &event {
        JsonValue::Object(entries, _) => entries.len() == 0,
        _ => true,
    };
    if empty {
        return Err(EvaluateRefusal::BadRequest);
    }
    let ev = DynamicEvent::new(event);
    let ghost carried = ev;
    let result = engine.process_event(ev);
    let resp = summarize_evaluation(&result);
    assert(answers_document(engine.ruleset.rules_spec(), event, resp)) by {
        assert(carried.data_spec() == event && evaluation_of(engine.ruleset.rules_spec(), &carried, result)
            && answers_evaluation(resp, result));
    }
    Ok(resp)
}

} // verus!
