//! Core Sigma engine implementation
use vstd::prelude::*;

use crate::event::DynamicEvent;
use crate::ruleset::{evaluation_of, RuleSet, RuleSetResult};
use crate::SigmaEngineBuilder;

verus! {

/// The main Sigma rule evaluation engine
#[derive(Debug)]
pub struct SigmaEngine {
    /// The loaded ruleset
    pub ruleset: RuleSet,
    /// Engine configuration
    pub config: SigmaEngineBuilder,
}

impl SigmaEngine {
    /// An engine over a loaded ruleset with its configuration
    pub fn from_parts(ruleset: RuleSet, config: SigmaEngineBuilder) -> (r: Self)
        ensures
            r.ruleset == ruleset,
            r.config == config,
    {
        SigmaEngine { ruleset, config }
    }

    /// Get the loaded ruleset
    pub fn ruleset(&self) -> (r: &RuleSet)
        ensures
            *r == self.ruleset,
    {
        &self.ruleset
    }

    /// Process a single event against the ruleset
    pub fn process_event(&self, event: DynamicEvent) -> (r: RuleSetResult)
        ensures
            evaluation_of(self.ruleset.rules_spec(), &event, r),
    {
        self.ruleset.evaluate(&event)
    }
}

} // verus!
