//! Graceful shutdown management for the consumer
//!
//! The state is a plain value: whoever shares it across tasks guards it. The
//! waits for in-flight messages are steps that the caller repeats, sleeping
//! between them, until one of them finishes.
use std::time::{Duration, Instant};
use vstd::prelude::*;

use crate::clock::{elapsed, now};
use crate::text::{digits_of, owned, usize_to_decimal};

verus! {

/// Manages the graceful shutdown state of the consumer
#[derive(Debug)]
pub struct ShutdownState {
    shutting_down: bool,
    shutdown_complete: bool,
    inflight_messages: usize,
    shutdown_start: Option<Instant>,
}

/// What one step of waiting for in-flight messages decided.
#[derive(Debug)]
pub enum WaitStep {
    /// No message is in flight: the shutdown is complete.
    Done,
    /// Messages are in flight and there is time left: wait, then step again.
    Wait,
    /// Messages are in flight and the time is up: fail with this message.
    TimedOut(String),
}

/// The count of in-flight messages after one more arrives; the counter wraps
/// around as an atomic counter does.
pub open spec fn count_after_add(n: usize) -> usize {
    if n == usize::MAX {
        0
    } else {
        (n + 1) as usize
    }
}

/// The count after one message leaves; the counter wraps around as an
/// atomic counter does.
pub open spec fn count_after_remove(n: usize) -> usize {
    if n == 0 {
        usize::MAX
    } else {
        (n - 1) as usize
    }
}

/// The message of a timed out wait for completion.
pub open spec fn completion_timeout_message(count: usize) -> Seq<char> {
    "Shutdown timeout with "@ + digits_of(count as nat) + " messages still in flight"@
}

/// The message of a timed out coordinated shutdown.
pub open spec fn coordinator_timeout_message(count: usize) -> Seq<char> {
    "Timeout with "@ + digits_of(count as nat) + " messages in flight"@
}

impl ShutdownState {
    /// Whether shutdown has been initiated.
    pub closed spec fn shutting_down_spec(&self) -> bool {
        self.shutting_down
    }

    /// Whether shutdown is complete.
    pub closed spec fn complete_spec(&self) -> bool {
        self.shutdown_complete
    }

    /// The number of in-flight messages.
    pub closed spec fn inflight_spec(&self) -> usize {
        self.inflight_messages
    }

    /// Whether the start of the shutdown was recorded.
    pub closed spec fn started_spec(&self) -> bool {
        self.shutdown_start is Some
    }

    /// Create a new shutdown state
    pub fn new() -> (r: Self)
        ensures
            !r.shutting_down_spec(),
            !r.complete_spec(),
            r.inflight_spec() == 0,
            !r.started_spec(),
    {
        ShutdownState { shutting_down: false, shutdown_complete: false, inflight_messages: 0, shutdown_start: None }
    }

    /// Begin the shutdown process, recording when it began
    pub fn begin_shutdown(&mut self)
        ensures
            final(self).shutting_down_spec(),
            final(self).started_spec(),
            final(self).complete_spec() == old(self).complete_spec(),
            final(self).inflight_spec() == old(self).inflight_spec(),
    {
        self.shutting_down = true;
        self.shutdown_start = Some(now());
    }

    /// Check if shutdown is in progress
    pub fn is_shutting_down(&self) -> (r: bool)
        ensures
            r == self.shutting_down_spec(),
    {
        self.shutting_down
    }

    /// Complete the shutdown process
    pub fn complete_shutdown(&mut self)
        ensures
            final(self).complete_spec(),
            final(self).shutting_down_spec() == old(self).shutting_down_spec(),
            final(self).started_spec() == old(self).started_spec(),
            final(self).inflight_spec() == old(self).inflight_spec(),
    {
        self.shutdown_complete = true;
    }

    /// Check if shutdown is complete
    pub fn is_shutdown_complete(&self) -> (r: bool)
        ensures
            r == self.complete_spec(),
    {
        self.shutdown_complete
    }

    /// Add an in-flight message
    pub fn add_inflight_message(&mut self)
        ensures
            final(self).inflight_spec() == count_after_add(old(self).inflight_spec()),
            final(self).shutting_down_spec() == old(self).shutting_down_spec(),
            final(self).complete_spec() == old(self).complete_spec(),
            final(self).started_spec() == old(self).started_spec(),
    {
        self.inflight_messages = if self.inflight_messages == usize::MAX {
            0
        } else {
            self.inflight_messages + 1
        };
    }

    /// Remove an in-flight message
    pub fn remove_inflight_message(&mut self)
        ensures
            final(self).inflight_spec() == count_after_remove(old(self).inflight_spec()),
            final(self).shutting_down_spec() == old(self).shutting_down_spec(),
            final(self).complete_spec() == old(self).complete_spec(),
            final(self).started_spec() == old(self).started_spec(),
    {
        self.inflight_messages = if self.inflight_messages == 0 {
            usize::MAX
        } else {
            self.inflight_messages - 1
        };
    }

    /// Check if there are any in-flight messages
    pub fn has_inflight_messages(&self) -> (r: bool)
        ensures
            r == (self.inflight_spec() > 0),
    {
        self.inflight_messages > 0
    }

    /// Get the count of in-flight messages
    pub fn inflight_count(&self) -> (r: usize)
        ensures
            r == self.inflight_spec(),
    {
        self.inflight_messages
    }

    /// Get the duration since shutdown started
    pub fn shutdown_duration(&self) -> (r: Option<Duration>)
        ensures
            r is Some <==> self.started_spec(),
    {
        match &self.shutdown_start {
            Some(start) => Some(elapsed(start)),
            None => None,
        }
    }

    /// Start the shutdown process
    pub fn start_shutdown(&mut self)
        ensures
            final(self).shutting_down_spec(),
            final(self).started_spec(),
            final(self).complete_spec() == old(self).complete_spec(),
            final(self).inflight_spec() == old(self).inflight_spec(),
    {
        self.begin_shutdown();
    }

    /// One step of waiting for all in-flight messages to complete: done
    /// (and the shutdown completed) when none is in flight, else a timeout
    /// if the deadline has passed, else wait.
    pub fn wait_for_completion_step(&mut self, past_deadline: bool) -> (r: WaitStep)
        ensures
            old(self).inflight_spec() == 0 ==> r is Done && final(self).complete_spec(),
            old(self).inflight_spec() > 0 && past_deadline ==> (r matches WaitStep::TimedOut(m)
                && m@ == completion_timeout_message(old(self).inflight_spec())),
            old(self).inflight_spec() > 0 && !past_deadline ==> r is Wait,
            !(r is Done) ==> *final(self) == *old(self),
            final(self).inflight_spec() == old(self).inflight_spec(),
            final(self).shutting_down_spec() == old(self).shutting_down_spec(),
            final(self).started_spec() == old(self).started_spec(),
    {
        if !self.has_inflight_messages() {
            self.complete_shutdown();
            return WaitStep::Done;
        }
        if past_deadline {
            let count = self.inflight_count();
            let msg = owned("Shutdown timeout with ").concat(usize_to_decimal(count).as_str()).concat(
                " messages still in flight",
            );
            return WaitStep::TimedOut(msg);
        }
        WaitStep::Wait
    }
}

/// Graceful shutdown coordinator
#[derive(Debug)]
pub struct ShutdownCoordinator {
    /// Timeout for graceful shutdown
    pub timeout: Duration,
}

impl ShutdownCoordinator {
    /// Create a new shutdown coordinator
    pub fn new(timeout: Duration) -> (r: Self)
        ensures
            r.timeout == timeout,
    {
        ShutdownCoordinator { timeout }
    }

    /// Begin a graceful shutdown of the state
    pub fn begin(&self, state: &mut ShutdownState)
        ensures
            final(state).shutting_down_spec(),
            final(state).started_spec(),
            final(state).complete_spec() == old(state).complete_spec(),
            final(state).inflight_spec() == old(state).inflight_spec(),
    {
        state.begin_shutdown();
    }

    /// One step of waiting for in-flight messages: done (and the shutdown
    /// completed) when none is in flight, else a timeout if the deadline
    /// has passed, else wait.
    pub fn shutdown_step(&self, state: &mut ShutdownState, past_deadline: bool) -> (r: WaitStep)
        ensures
            old(state).inflight_spec() == 0 ==> r is Done && final(state).complete_spec(),
            old(state).inflight_spec() > 0 && past_deadline ==> (r matches WaitStep::TimedOut(m)
                && m@ == coordinator_timeout_message(old(state).inflight_spec())),
            old(state).inflight_spec() > 0 && !past_deadline ==> r is Wait,
            !(r is Done) ==> *final(state) == *old(state),
            final(state).inflight_spec() == old(state).inflight_spec(),
            final(state).shutting_down_spec() == old(state).shutting_down_spec(),
            final(state).started_spec() == old(state).started_spec(),
    {
        if !state.has_inflight_messages() {
            state.complete_shutdown();
            return WaitStep::Done;
        }
        if past_deadline {
            let count = state.inflight_count();
            let msg = owned("Timeout with ").concat(usize_to_decimal(count).as_str()).concat(" messages in flight");
            return WaitStep::TimedOut(msg);
        }
        WaitStep::Wait
    }
}

/// Adding an in-flight message and removing it again leaves the count as it
/// was, wrapping included.
pub proof fn lemma_add_then_remove(n: usize)
    ensures
        count_after_remove(count_after_add(n)) == n,
{
}

} // verus!
