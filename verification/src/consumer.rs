//! What message processing reports about each message.
use vstd::prelude::*;

pub mod backpressure;
pub mod batching;
pub mod distributor;
pub mod shutdown;

use crate::clock::{elapsed, now};
use crate::text::{digits_of, owned, str_eq, u64_to_decimal};

verus! {

/// Message processing context
#[derive(Debug)]
pub struct ProcessingContext {
    /// Message topic
    pub topic: String,
    /// Message partition
    pub partition: i32,
    /// Message offset
    pub offset: i64,
    /// Message key (if present)
    pub key: Option<Vec<u8>>,
    /// Message timestamp
    pub timestamp: Option<i64>,
    /// Processing attempt number
    pub attempt: u32,
    /// Processing start time
    pub start_time: std::time::Instant,
}

impl ProcessingContext {
    /// The context of a message read from a topic, its processing starting now
    pub fn new(
        topic: String,
        partition: i32,
        offset: i64,
        key: Option<Vec<u8>>,
        timestamp: Option<i64>,
        attempt: u32,
    ) -> (r: Self)
        ensures
            r.topic == topic,
            r.partition == partition,
            r.offset == offset,
            r.key == key,
            r.timestamp == timestamp,
            r.attempt == attempt,
    {
        ProcessingContext { topic, partition, offset, key, timestamp, attempt, start_time: now() }
    }

    /// Get processing duration
    pub fn duration(&self) -> std::time::Duration {
        elapsed(&self.start_time)
    }
}

/// Processing result with metrics
#[derive(Debug)]
pub struct ProcessingResult {
    /// Whether processing succeeded
    pub success: bool,
    /// Error if processing failed
    pub error: Option<String>,
    /// Processing duration
    pub duration: std::time::Duration,
    /// Number of attempts
    pub attempts: u32,
    /// Whether message was sent to DLQ
    pub sent_to_dlq: bool,
}

/// Retry result
#[derive(Debug)]
pub enum RetryResult<T, E> {
    /// Success after retries
    Success {
        /// The value produced
        value: T,
        /// The attempts made
        attempts: u32,
    },
    /// Failed after exhausting retries
    Failed {
        /// The last error
        error: E,
        /// The attempts made
        attempts: u32,
    },
}

/// What executing with retries does once an attempt has come back.
#[derive(Debug)]
pub enum RetryStep<T, E> {
    /// Stop with this result.
    Finished(RetryResult<T, E>),
    /// Wait the backoff of this retry number, then attempt again.
    RetryAfter(u32),
}

/// What one step decides once an attempt came back: `Some(n)` to retry, the
/// next attempt being number `n`, or `None` to finish.
pub open spec fn retry_next(succeeded: bool, attempt: u32, max_retries: u32, retryable: bool) -> Option<u32> {
    if !succeeded && attempt < max_retries && retryable {
        Some((attempt + 1) as u32)
    } else {
        None
    }
}

/// Where repeated steps from attempt `attempt` end, the attempts coming back
/// as `succeeded` says (each failure retryable as `retryable` says): the
/// attempt they finish at and whether it succeeded. Running out of
/// outcomes counts as a failure.
pub open spec fn retry_run(succeeded: Seq<bool>, retryable: Seq<bool>, attempt: u32, max_retries: u32) -> (u32, bool)
    decreases succeeded.len(),
{
    if succeeded.len() == 0 || retryable.len() == 0 {
        (attempt, false)
    } else {
        match retry_next(succeeded[0], attempt, max_retries, retryable[0]) {
            None => (attempt, succeeded[0]),
            Some(n) => retry_run(succeeded.drop_first(), retryable.drop_first(), n, max_retries),
        }
    }
}

/// Retries are bounded: `k` retryable failures followed by a success end
/// in that success after `k` retries when `k` is within the limit, and
/// otherwise in a failure after the limit's retries.
pub proof fn lemma_retries_bounded(k: nat, attempt: u32, max_retries: u32)
    requires
        attempt <= max_retries,
    ensures
        ({
            let succeeded = Seq::new(k, |i: int| false).push(true);
            let retryable = Seq::new(k + 1, |i: int| true);
            retry_run(succeeded, retryable, attempt, max_retries) == if attempt + k <= max_retries {
                ((attempt + k) as u32, true)
            } else {
                (max_retries, false)
            }
        }),
    decreases k,
{
    let succeeded = Seq::new(k, |i: int| false).push(true);
    let retryable = Seq::new(k + 1, |i: int| true);
    if k > 0 {
        if attempt < max_retries {
            lemma_retries_bounded((k - 1) as nat, (attempt + 1) as u32, max_retries);
            assert(succeeded.drop_first() =~= Seq::new((k - 1) as nat, |i: int| false).push(true));
            assert(retryable.drop_first() =~= Seq::new(k as nat, |i: int| true));
        }
    }
}

/// One step of executing an operation with retries: after `attempt`
/// retries, the operation gave `outcome`. A success finishes; a failure is
/// retried while fewer than `max_retries` retries were made and `retryable`
/// (the caller's judgement of the error) holds, and finishes otherwise.
pub fn retry_step<T, E>(outcome: Result<T, E>, attempt: u32, max_retries: u32, retryable: bool) -> (r: RetryStep<T, E>)
    ensures
        (r is Finished) == (retry_next(outcome is Ok, attempt, max_retries, retryable) is None),
        r matches RetryStep::RetryAfter(n) ==> retry_next(outcome is Ok, attempt, max_retries, retryable) == Some(n),
        match outcome {
            Ok(value) => r == RetryStep::Finished(RetryResult::<T, E>::Success { value, attempts: attempt }),
            Err(error) => if attempt < max_retries && retryable {
                r == RetryStep::<T, E>::RetryAfter((attempt + 1) as u32)
            } else {
                r == RetryStep::Finished(RetryResult::<T, E>::Failed { error, attempts: attempt })
            },
        },
{
    match outcome {
        Ok(value) => RetryStep::Finished(RetryResult::Success { value, attempts: attempt }),
        Err(error) => {
            if attempt < max_retries && retryable {
                RetryStep::RetryAfter(attempt + 1)
            } else {
                RetryStep::Finished(RetryResult::Failed { error, attempts: attempt })
            }
        },
    }
}


/// The Kafka properties a configuration may set besides the ones the
/// consumer sets itself.
pub open spec fn allowed_property(key: Seq<char>) -> bool {
    ||| key == "compression.type"@
    ||| key == "compression.level"@
    ||| key == "fetch.min.bytes"@
    ||| key == "fetch.max.wait.ms"@
    ||| key == "fetch.max.bytes"@
    ||| key == "max.partition.fetch.bytes"@
    ||| key == "request.timeout.ms"@
    ||| key == "metadata.max.age.ms"@
    ||| key == "receive.buffer.bytes"@
    ||| key == "send.buffer.bytes"@
    ||| key == "queued.min.messages"@
    ||| key == "queued.max.messages.kbytes"@
    ||| key == "fetch.error.backoff.ms"@
    ||| key == "fetch.message.max.bytes"@
    ||| key == "enable.idempotence"@
    ||| key == "message.max.bytes"@
    ||| key == "reconnect.backoff.ms"@
    ||| key == "reconnect.backoff.max.ms"@
    ||| key == "connections.max.idle.ms"@
    ||| key == "socket.keepalive.enable"@
    ||| key == "statistics.interval.ms"@
    ||| key == "enable.metrics.push"@
}

/// The allowed properties as the refusal lists them.
pub const ALLOWED_PROPERTY_LIST: &'static str = "[\"compression.type\", \"compression.level\", \"fetch.min.bytes\", \"fetch.max.wait.ms\", \"fetch.max.bytes\", \"max.partition.fetch.bytes\", \"request.timeout.ms\", \"metadata.max.age.ms\", \"receive.buffer.bytes\", \"send.buffer.bytes\", \"queued.min.messages\", \"queued.max.messages.kbytes\", \"fetch.error.backoff.ms\", \"fetch.message.max.bytes\", \"enable.idempotence\", \"message.max.bytes\", \"reconnect.backoff.ms\", \"reconnect.backoff.max.ms\", \"connections.max.idle.ms\", \"socket.keepalive.enable\", \"statistics.interval.ms\", \"enable.metrics.push\"]";

/// Whether a Kafka property may be set by configuration (see
/// `allowed_property`).
pub fn is_allowed_property(key: &str) -> (r: bool)
    ensures
        r == allowed_property(key@),
{
    str_eq(key, "compression.type") || str_eq(key, "compression.level") || str_eq(key, "fetch.min.bytes")
        || str_eq(key, "fetch.max.wait.ms") || str_eq(key, "fetch.max.bytes") || str_eq(
        key,
        "max.partition.fetch.bytes",
    ) || str_eq(key, "request.timeout.ms") || str_eq(key, "metadata.max.age.ms") || str_eq(
        key,
        "receive.buffer.bytes",
    ) || str_eq(key, "send.buffer.bytes") || str_eq(key, "queued.min.messages") || str_eq(
        key,
        "queued.max.messages.kbytes",
    ) || str_eq(key, "fetch.error.backoff.ms") || str_eq(key, "fetch.message.max.bytes") || str_eq(
        key,
        "enable.idempotence",
    ) || str_eq(key, "message.max.bytes") || str_eq(key, "reconnect.backoff.ms") || str_eq(
        key,
        "reconnect.backoff.max.ms",
    ) || str_eq(key, "connections.max.idle.ms") || str_eq(key, "socket.keepalive.enable") || str_eq(
        key,
        "statistics.interval.ms",
    ) || str_eq(key, "enable.metrics.push")
}

/// The refusal of a property that may not be set.
pub open spec fn disallowed_message(key: Seq<char>) -> Seq<char> {
    "Disallowed Kafka property '"@ + key + "'. Allowed properties: "@ + ALLOWED_PROPERTY_LIST@
}

/// The position of the first property that may not be set, if any.
pub open spec fn first_disallowed(custom: Seq<(String, String)>) -> Option<int>
    decreases custom.len(),
{
    if custom.len() == 0 {
        None
    } else {
        match first_disallowed(custom.drop_last()) {
            Some(k) => Some(k),
            None => if allowed_property(custom.last().0@) {
                None
            } else {
                Some(custom.len() - 1)
            },
        }
    }
}

/// The properties the consumer's client is created with: its own, then the
/// configured ones.
pub open spec fn client_properties(
    brokers: Seq<char>,
    group_id: Seq<char>,
    enable_auto_commit: bool,
    auto_commit_interval_ms: u32,
    session_timeout_ms: u32,
    max_poll_interval_ms: u32,
    auto_offset_reset: Seq<char>,
    custom: Seq<(String, String)>,
) -> Seq<(Seq<char>, Seq<char>)> {
    seq![
        ("bootstrap.servers"@, brokers),
        ("group.id"@, group_id),
        ("enable.auto.commit"@, if enable_auto_commit { "true"@ } else { "false"@ }),
        ("auto.commit.interval.ms"@, digits_of(auto_commit_interval_ms as nat)),
        ("session.timeout.ms"@, digits_of(session_timeout_ms as nat)),
        ("max.poll.interval.ms"@, digits_of(max_poll_interval_ms as nat)),
        ("auto.offset.reset"@, auto_offset_reset),
    ] + custom.map_values(|p: (String, String)| (p.0@, p.1@))
}

/// The pairs as character sequences.
pub open spec fn pairs_view(v: Seq<(String, String)>) -> Seq<(Seq<char>, Seq<char>)> {
    v.map_values(|p: (String, String)| (p.0@, p.1@))
}

/// The properties of the consumer's Kafka client, refusing a configured
/// property that is not allowed.
pub fn kafka_client_properties(
    brokers: &str,
    group_id: &str,
    enable_auto_commit: bool,
    auto_commit_interval_ms: u32,
    session_timeout_ms: u32,
    max_poll_interval_ms: u32,
    auto_offset_reset: &str,
    custom: &[(String, String)],
) -> (r: Result<Vec<(String, String)>, String>)
    ensures
        match first_disallowed(custom@) {
            Some(k) => r matches Err(m) && m@ == disallowed_message(custom@[k].0@),
            None => r matches Ok(props) && pairs_view(props@) == client_properties(
                brokers@,
                group_id@,
                enable_auto_commit,
                auto_commit_interval_ms,
                session_timeout_ms,
                max_poll_interval_ms,
                auto_offset_reset@,
                custom@,
            ),
        },
{
    let mut props: Vec<(String, String)> = Vec::new();
    props.push((owned("bootstrap.servers"), owned(brokers)));
    props.push((owned("group.id"), owned(group_id)));
    props.push((owned("enable.auto.commit"), if enable_auto_commit { owned("true") } else { owned("false") }));
    props.push((owned("auto.commit.interval.ms"), u64_to_decimal(auto_commit_interval_ms as u64)));
    props.push((owned("session.timeout.ms"), u64_to_decimal(session_timeout_ms as u64)));
    props.push((owned("max.poll.interval.ms"), u64_to_decimal(max_poll_interval_ms as u64)));
    props.push((owned("auto.offset.reset"), owned(auto_offset_reset)));
    let ghost base = pairs_view(props@);
    let mut i: usize = 0;
    assert(custom@.take(0) =~= Seq::<(String, String)>::empty());
    assert(pairs_view(props@) =~= base + pairs_view(custom@.take(0)));
    while i < custom.len()
        invariant
            i <= custom@.len(),
            first_disallowed(custom@.take(i as int)) is None,
            pairs_view(props@) == base + pairs_view(custom@.take(i as int)),
        decreases custom.len() - i,
    {
        assert(custom@.take(i + 1).drop_last() =~= custom@.take(i as int));
        assert(custom@.take(i + 1).last() == custom@[i as int]);
        if !is_allowed_property(custom[i].0.as_str()) {
            proof { lemma_first_disallowed_prefix(custom@, i + 1); }
            return Err(owned("Disallowed Kafka property '").concat(custom[i].0.as_str()).concat("'. Allowed properties: ").concat(
                ALLOWED_PROPERTY_LIST,
            ));
        }
        let ghost before = pairs_view(props@);
        props.push((custom[i].0.clone(), custom[i].1.clone()));
        assert(pairs_view(props@) =~= before.push((custom@[i as int].0@, custom@[i as int].1@)));
        assert(pairs_view(custom@.take(i + 1)) =~= pairs_view(custom@.take(i as int)).push(
            (custom@[i as int].0@, custom@[i as int].1@),
        ));
        assert(pairs_view(props@) =~= base + pairs_view(custom@.take(i + 1)));
        i = i + 1;
    }
    assert(custom@.take(custom@.len() as int) =~= custom@);
    Ok(props)
}

proof fn lemma_first_disallowed_prefix(custom: Seq<(String, String)>, k: int)
    requires
        0 <= k <= custom.len(),
        first_disallowed(custom.take(k)) is Some,
    ensures
        first_disallowed(custom) == first_disallowed(custom.take(k)),
    decreases custom.len() - k,
{
    if k < custom.len() {
        assert(custom.take(k + 1).drop_last() =~= custom.take(k));
        lemma_first_disallowed_prefix(custom, k + 1);
    } else {
        assert(custom.take(k) =~= custom);
    }
}

/// The properties of the dead letter queue's producer.
pub fn dlq_client_properties(brokers: &str) -> (r: Vec<(String, String)>)
    ensures
        pairs_view(r@) == seq![("bootstrap.servers"@, brokers@), ("message.timeout.ms"@, "30000"@)],
{
    let mut props: Vec<(String, String)> = Vec::new();
    props.push((owned("bootstrap.servers"), owned(brokers)));
    props.push((owned("message.timeout.ms"), owned("30000")));
    assert(pairs_view(props@) =~= seq![("bootstrap.servers"@, brokers@), ("message.timeout.ms"@, "30000"@)]);
    props
}

} // verus!
