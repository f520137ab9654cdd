//! Sigma rule engine: rule conditions, pattern matchers and detection trees.
use vstd::prelude::*;

pub mod aggregation;
pub mod ast;
pub mod batch;
pub mod clock;
pub mod consumer;
pub mod engine;
pub mod error;
pub mod json_to_arrow;
pub mod arrow_event;
pub mod event;
pub mod fmt;
pub mod lexer;
pub mod parser;
pub mod pattern;
pub mod result;
pub mod rule;
pub mod service;
pub mod report;
pub mod ruleset;
pub mod text;
pub mod tree;

pub use ast::{Branch, MatchResult};
pub use engine::SigmaEngine;
pub use error::SigmaError;
pub use event::{DynamicEvent, Event, Keyworder, Selector, Value};
pub use ruleset::{RuleMatch, RuleSet, RuleSetResult};
pub use service::VERSION;

verus! {

/// The number of logical CPUs of the machine.
///
/// Trusted: calls `num_cpus::get`, whose documentation says that it always
/// returns at least 1. That is all that is claimed: the number depends on the
/// machine.
#[verifier::external_body]
pub(crate) fn cpu_count() -> (r: usize)
    ensures
        r >= 1,
{
    num_cpus::get()
}

/// Builder for configuring the Sigma engine
#[derive(Debug)]
pub struct SigmaEngineBuilder {
    /// Rule directories to scan
    pub rule_dirs: Vec<String>,
    /// Whether to fail on rule parse errors
    pub fail_on_parse_error: bool,
    /// Whether to collapse whitespace in patterns
    pub collapse_whitespace: bool,
    /// Number of worker threads
    pub worker_threads: usize,
    /// Redpanda configuration
    pub kafka_config: Option<KafkaConfig>,
}

/// Kafka/Redpanda configuration
#[derive(Debug)]
pub struct KafkaConfig {
    /// Broker addresses
    pub brokers: String,
    /// Consumer group ID
    pub group_id: String,
    /// Topics to consume from
    pub topics: Vec<String>,
    /// Additional Kafka properties
    pub properties: std::collections::HashMap<String, String>,
    /// Batch size for processing
    pub batch_size: Option<usize>,
    /// Maximum retries for failed messages
    pub max_retries: Option<u32>,
    /// Dead letter queue topic
    pub dlq_topic: Option<String>,
    /// Backpressure buffer size
    pub backpressure_buffer_size: Option<usize>,
    /// Enable detailed metrics
    pub enable_metrics: bool,
}

impl Default for KafkaConfig {
    fn default() -> (r: Self)
        ensures
            r.brokers@ == "localhost:9092"@,
            r.group_id@ == "sigma-consumer"@,
            r.topics@.len() == 1 && r.topics@[0]@ == "events"@,
            r.properties@.len() == 0,
            r.batch_size == Some(1000usize),
            r.max_retries == Some(3u32),
            r.dlq_topic is None,
            r.backpressure_buffer_size == Some(10000usize),
            r.enable_metrics,
    {
        let mut topics: Vec<String> = Vec::new();
        topics.push(text::owned("events"));
        KafkaConfig {
            brokers: text::owned("localhost:9092"),
            group_id: text::owned("sigma-consumer"),
            topics,
            properties: std::collections::HashMap::new(),
            batch_size: Some(1000),
            max_retries: Some(3),
            dlq_topic: None,
            backpressure_buffer_size: Some(10000),
            enable_metrics: true,
        }
    }
}

impl Default for SigmaEngineBuilder {
    fn default() -> (r: Self)
        ensures
            r.rule_dirs@.len() == 0,
            !r.fail_on_parse_error,
            r.collapse_whitespace,
            r.worker_threads >= 1,
            r.kafka_config is None,
    {
        SigmaEngineBuilder {
            rule_dirs: Vec::new(),
            fail_on_parse_error: false,
            collapse_whitespace: true,
            worker_threads: cpu_count(),
            kafka_config: None,
        }
    }
}

impl SigmaEngineBuilder {
    /// Create a new builder: no rule directories, parse errors tolerated,
    /// whitespace collapsed, one worker per logical CPU, no Kafka.
    pub fn new() -> (r: Self)
        ensures
            r.rule_dirs@.len() == 0,
            !r.fail_on_parse_error,
            r.collapse_whitespace,
            r.worker_threads >= 1,
            r.kafka_config is None,
    {
        Self::default()
    }

    /// Add a rule directory
    pub fn add_rule_dir(self, dir: String) -> (r: Self)
        ensures
            r.rule_dirs@ == self.rule_dirs@.push(dir),
            r.fail_on_parse_error == self.fail_on_parse_error,
            r.collapse_whitespace == self.collapse_whitespace,
            r.worker_threads == self.worker_threads,
            r.kafka_config == self.kafka_config,
    {
        let mut b = self;
        b.rule_dirs.push(dir);
        b
    }

    /// Set whether to fail on parse errors
    pub fn fail_on_parse_error(self, fail: bool) -> (r: Self)
        ensures
            r == (SigmaEngineBuilder { fail_on_parse_error: fail, ..self }),
    {
        let mut b = self;
        b.fail_on_parse_error = fail;
        b
    }

    /// Set whether to collapse whitespace
    pub fn collapse_whitespace(self, collapse: bool) -> (r: Self)
        ensures
            r == (SigmaEngineBuilder { collapse_whitespace: collapse, ..self }),
    {
        let mut b = self;
        b.collapse_whitespace = collapse;
        b
    }

    /// Set the number of worker threads
    pub fn worker_threads(self, threads: usize) -> (r: Self)
        ensures
            r == (SigmaEngineBuilder { worker_threads: threads, ..self }),
    {
        let mut b = self;
        b.worker_threads = threads;
        b
    }

    /// Configure Kafka/Redpanda integration
    pub fn with_kafka(self, config: KafkaConfig) -> (r: Self)
        ensures
            r == (SigmaEngineBuilder { kafka_config: Some(config), ..self }),
    {
        let mut b = self;
        b.kafka_config = Some(config);
        b
    }
}

} // verus!
