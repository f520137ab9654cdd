//! Backpressure control for the consumer: the accounting of in-flight
//! messages and reserved memory, and the decisions of acquiring a permit.
//!
//! The controller is a plain value. Waiting on the semaphore, sleeping and
//! reading the clock are the caller's: each step here takes what came of
//! them and says what to do next. The fractions that pausing and resuming
//! compare with are turned into message counts by the caller.
use std::time::Duration;
use vstd::prelude::*;

use crate::text::{digits_of, owned, u64_to_decimal, usize_to_decimal};

verus! {

/// Attempts at reserving memory before acquiring gives up.
pub const MAX_MEMORY_WAIT_ATTEMPTS: u32 = 100;

/// Seconds of waiting for memory before acquiring gives up.
pub const MAX_MEMORY_WAIT_SECS: u64 = 300;

/// The average message size assumed before any is measured.
pub const DEFAULT_AVG_MESSAGE_SIZE: usize = 1024;

/// Controls backpressure for message processing
#[derive(Debug)]
pub struct BackpressureController {
    max_inflight: usize,
    inflight_count: usize,
    paused: bool,
    memory_limit: Option<usize>,
    current_memory: usize,
    avg_message_size: usize,
    metrics: PerformanceMetrics,
}

/// Permit for processing a message: the memory it reserved, released once.
#[derive(Debug)]
pub struct BackpressurePermit {
    memory_reserved: usize,
    released: bool,
}

/// What one step of reserving memory for a permit decided.
#[derive(Debug)]
pub enum MemoryStep {
    /// The memory is reserved (or no limit applies): go on to the permit.
    Reserved,
    /// The limit is reached: sleep this many milliseconds, then step again
    /// with one more attempt.
    Sleep(u64),
    /// Too many attempts or too long a wait: fail with this message.
    Exhausted(String),
}

/// What waiting on the semaphore gave.
#[derive(Debug, Clone, Copy, PartialEq, Eq, Structural)]
pub enum SemaphoreOutcome {
    /// A permit was acquired.
    Acquired,
    /// The semaphore was closed; whether a permit could still be taken
    /// without waiting.
    Closed(bool),
    /// The wait timed out; whether a permit could still be taken without
    /// waiting.
    TimedOut(bool),
}

/// What one step of waiting for the in-flight messages to finish decided.
#[derive(Debug)]
pub enum DrainStep {
    /// None is in flight.
    Done,
    /// Some are in flight and there is time left: wait, then step again.
    Wait,
    /// Some are in flight and the time is up: fail with this message.
    TimedOut(String),
}

/// A counter after one more; it wraps around as an atomic counter does.
pub open spec fn wrapping_inc(n: usize) -> usize {
    if n == usize::MAX {
        0
    } else {
        (n + 1) as usize
    }
}

/// A counter after one less; it wraps around as an atomic counter does.
pub open spec fn wrapping_dec(n: usize) -> usize {
    if n == 0 {
        usize::MAX
    } else {
        (n - 1) as usize
    }
}

/// An amount after adding `k`, wrapping around as an atomic counter does.
pub open spec fn wrapping_plus(n: usize, k: usize) -> usize {
    if n + k <= usize::MAX {
        (n + k) as usize
    } else {
        (n + k - usize::MAX - 1) as usize
    }
}

/// An amount after taking `k` away, wrapping around as an atomic counter
/// does.
pub open spec fn wrapping_minus(n: usize, k: usize) -> usize {
    if k <= n {
        (n - k) as usize
    } else {
        (n - k + usize::MAX + 1) as usize
    }
}

/// The milliseconds slept after a failed attempt at reserving memory.
pub open spec fn memory_wait_millis(attempts: u32) -> u64 {
    (10 * (if attempts + 1 < 100 {
        attempts + 1
    } else {
        100
    })) as u64
}

/// The message of giving up on memory.
pub open spec fn memory_exhausted_message(attempts: u32, secs: u64) -> Seq<char> {
    "Memory limit exhausted after "@ + digits_of(attempts as nat) + " attempts or "@ + digits_of(secs as nat)
        + " seconds"@
}

/// The message of a drain that timed out.
pub open spec fn drain_timeout_message(remaining: usize) -> Seq<char> {
    "Shutdown timeout with "@ + digits_of(remaining as nat) + " messages remaining"@
}

fn wrapping_add_usize(n: usize, k: usize) -> (r: usize)
    ensures
        r == wrapping_plus(n, k),
{
    if n <= usize::MAX - k {
        n + k
    } else {
        k - (usize::MAX - n) - 1
    }
}

fn wrapping_sub_usize(n: usize, k: usize) -> (r: usize)
    ensures
        r == wrapping_minus(n, k),
{
    if k <= n {
        n - k
    } else {
        usize::MAX - (k - n) + 1
    }
}

impl BackpressurePermit {
    /// The memory the permit reserved.
    pub closed spec fn reserved_spec(&self) -> usize {
        self.memory_reserved
    }

    /// Whether the permit was released.
    pub closed spec fn released_spec(&self) -> bool {
        self.released
    }

    /// Check if this permit has been released
    pub fn is_released(&self) -> (r: bool)
        ensures
            r == self.released_spec(),
    {
        self.released
    }
}

impl BackpressureController {
    /// The maximum number of in-flight messages.
    pub closed spec fn max_spec(&self) -> usize {
        self.max_inflight
    }

    /// The number of in-flight messages.
    pub closed spec fn inflight_spec(&self) -> usize {
        self.inflight_count
    }

    /// Whether consumption is paused.
    pub closed spec fn paused_spec(&self) -> bool {
        self.paused
    }

    /// The memory limit in bytes, if any.
    pub closed spec fn limit_spec(&self) -> Option<usize> {
        self.memory_limit
    }

    /// The memory reserved by in-flight messages.
    pub closed spec fn memory_spec(&self) -> usize {
        self.current_memory
    }

    /// The average message size estimate.
    pub closed spec fn avg_spec(&self) -> usize {
        self.avg_message_size
    }

    /// The processing metrics recorded.
    pub closed spec fn metrics_spec(&self) -> PerformanceMetrics {
        self.metrics
    }

    /// Record a message processed successfully, with its latency.
    pub fn record_success(&mut self, latency: Duration)
        requires
            old(self).metrics_spec().total_spec() < usize::MAX,
        ensures
            final(self).metrics_spec().successes_spec() == old(self).metrics_spec().successes_spec() + 1,
            final(self).metrics_spec().total_spec() == old(self).metrics_spec().total_spec() + 1,
            final(self).metrics_spec().latencies_spec() == recent_latencies(
                old(self).metrics_spec().latencies_spec().push(latency),
            ),
            final(self).max_spec() == old(self).max_spec(),
            final(self).inflight_spec() == old(self).inflight_spec(),
            final(self).paused_spec() == old(self).paused_spec(),
            final(self).limit_spec() == old(self).limit_spec(),
            final(self).memory_spec() == old(self).memory_spec(),
            final(self).avg_spec() == old(self).avg_spec(),
    {
        self.metrics.record_success(latency);
    }

    /// Record a message whose processing failed.
    pub fn record_failure(&mut self)
        requires
            old(self).metrics_spec().total_spec() < usize::MAX,
        ensures
            final(self).metrics_spec().successes_spec() == old(self).metrics_spec().successes_spec(),
            final(self).metrics_spec().total_spec() == old(self).metrics_spec().total_spec() + 1,
            final(self).metrics_spec().latencies_spec() == old(self).metrics_spec().latencies_spec(),
            final(self).max_spec() == old(self).max_spec(),
            final(self).inflight_spec() == old(self).inflight_spec(),
            final(self).paused_spec() == old(self).paused_spec(),
            final(self).limit_spec() == old(self).limit_spec(),
            final(self).memory_spec() == old(self).memory_spec(),
            final(self).avg_spec() == old(self).avg_spec(),
    {
        self.metrics.record_failure();
    }

    /// The processing metrics recorded.
    pub fn metrics(&self) -> (r: &PerformanceMetrics)
        ensures
            *r == self.metrics_spec(),
    {
        &self.metrics
    }

    /// Create a new backpressure controller
    pub fn new(max_inflight: usize) -> (r: Self)
        ensures
            r.max_spec() == max_inflight,
            r.inflight_spec() == 0,
            !r.paused_spec(),
            r.limit_spec() is None,
            r.memory_spec() == 0,
            r.avg_spec() == DEFAULT_AVG_MESSAGE_SIZE,
            r.metrics_spec().total_spec() == 0,
            r.metrics_spec().successes_spec() == 0,
            r.metrics_spec().latencies_spec() == Seq::<Duration>::empty(),
    {
        BackpressureController {
            max_inflight,
            inflight_count: 0,
            paused: false,
            memory_limit: None,
            current_memory: 0,
            avg_message_size: DEFAULT_AVG_MESSAGE_SIZE,
            metrics: PerformanceMetrics::new(),
        }
    }

    /// Create with a memory limit in megabytes
    pub fn with_memory_limit(self, limit_mb: usize) -> (r: Self)
        requires
            limit_mb * 1048576 <= usize::MAX,
        ensures
            r.limit_spec() == Some((limit_mb * 1048576) as usize),
            r.max_spec() == self.max_spec(),
            r.inflight_spec() == self.inflight_spec(),
            r.paused_spec() == self.paused_spec(),
            r.memory_spec() == self.memory_spec(),
            r.avg_spec() == self.avg_spec(),
    {
        BackpressureController { memory_limit: Some(limit_mb * 1024 * 1024), ..self }
    }

    /// Update the average message size estimate: nine parts the old
    /// estimate to one part the new size
    pub fn update_avg_message_size(&mut self, size: usize)
        ensures
            final(self).avg_spec() == (old(self).avg_spec() * 9 + size) / 10,
            final(self).max_spec() == old(self).max_spec(),
            final(self).inflight_spec() == old(self).inflight_spec(),
            final(self).paused_spec() == old(self).paused_spec(),
            final(self).limit_spec() == old(self).limit_spec(),
            final(self).memory_spec() == old(self).memory_spec(),
    {
        let current = self.avg_message_size as u128;
        let new_avg = (current * 9 + size as u128) / 10;
        assert(new_avg <= usize::MAX) by (nonlinear_arith)
            requires
                new_avg == (current * 9 + size as u128) / 10,
                current <= usize::MAX,
                size <= usize::MAX,
        ;
        self.avg_message_size = new_avg as usize;
    }

    /// One step of reserving memory for a permit, after `attempts` failed
    /// attempts and `elapsed_secs` whole seconds of waiting
    pub fn reserve_memory_step(&mut self, attempts: u32, elapsed_secs: u64) -> (r: MemoryStep)
        ensures
            match old(self).limit_spec() {
                None => r is Reserved && *final(self) == *old(self),
                Some(limit) => if attempts >= MAX_MEMORY_WAIT_ATTEMPTS || elapsed_secs >= MAX_MEMORY_WAIT_SECS {
                    r matches MemoryStep::Exhausted(m) && m@ == memory_exhausted_message(attempts, elapsed_secs)
                        && *final(self) == *old(self)
                } else if old(self).memory_spec() + old(self).avg_spec() <= limit {
                    r is Reserved && final(self).memory_spec() == old(self).memory_spec() + old(self).avg_spec()
                        && final(self).inflight_spec() == old(self).inflight_spec()
                        && final(self).max_spec() == old(self).max_spec()
                        && final(self).paused_spec() == old(self).paused_spec()
                        && final(self).limit_spec() == old(self).limit_spec()
                        && final(self).avg_spec() == old(self).avg_spec()
                } else {
                    r == MemoryStep::Sleep(memory_wait_millis(attempts)) && *final(self) == *old(self)
                },
            },
    {
        match self.memory_limit {
            None => MemoryStep::Reserved,
            Some(limit) => {
                if attempts >= MAX_MEMORY_WAIT_ATTEMPTS || elapsed_secs >= MAX_MEMORY_WAIT_SECS {
                    let msg = owned("Memory limit exhausted after ").concat(
                        u64_to_decimal(attempts as u64).as_str(),
                    ).concat(" attempts or ").concat(u64_to_decimal(elapsed_secs).as_str()).concat(" seconds");
                    return MemoryStep::Exhausted(msg);
                }
                if self.current_memory <= limit && self.avg_message_size <= limit - self.current_memory {
                    self.current_memory = self.current_memory + self.avg_message_size;
                    MemoryStep::Reserved
                } else {
                    let n: u32 = if attempts + 1 < 100 {
                        attempts + 1
                    } else {
                        100
                    };
                    MemoryStep::Sleep(10 * n as u64)
                }
            },
        }
    }

    /// Take a permit once waiting on the semaphore gave `outcome`. The
    /// permit records the memory that reserving added: the average message
    /// size under a memory limit, nothing without one. Without a limit no
    /// memory was added, so the permit records 0 and its release leaves the
    /// memory count where it was (recording the average size there would
    /// make the release subtract what was never added, and the count wrap).
    pub fn take_permit(&mut self, outcome: SemaphoreOutcome) -> (r: Result<BackpressurePermit, String>)
        ensures
            final(self).max_spec() == old(self).max_spec(),
            final(self).paused_spec() == old(self).paused_spec(),
            final(self).limit_spec() == old(self).limit_spec(),
            final(self).memory_spec() == old(self).memory_spec(),
            final(self).avg_spec() == old(self).avg_spec(),
            match outcome {
                SemaphoreOutcome::Acquired | SemaphoreOutcome::TimedOut(true) => r matches Ok(p)
                    && p.reserved_spec() == (if old(self).limit_spec() is Some {
                        old(self).avg_spec()
                    } else {
                        0
                    }) && !p.released_spec()
                    && final(self).inflight_spec() == wrapping_inc(old(self).inflight_spec()),
                SemaphoreOutcome::Closed(true) => r matches Ok(p) && p.reserved_spec() == 0
                    && !p.released_spec() && final(self).inflight_spec() == old(self).inflight_spec(),
                SemaphoreOutcome::Closed(false) => r matches Err(m)
                    && m@ == "Failed to acquire emergency permit: semaphore closed"@
                    && final(self).inflight_spec() == old(self).inflight_spec(),
                SemaphoreOutcome::TimedOut(false) => r matches Err(m)
                    && m@ == "Failed to acquire permit: timeout and emergency acquisition failed"@
                    && final(self).inflight_spec() == old(self).inflight_spec(),
            },
    {
        match outcome {
            SemaphoreOutcome::Closed(true) => {
                return Ok(BackpressurePermit { memory_reserved: 0, released: false });
            },
            SemaphoreOutcome::Closed(false) => {
                return Err(owned("Failed to acquire emergency permit: semaphore closed"));
            },
            SemaphoreOutcome::TimedOut(false) => {
                return Err(owned("Failed to acquire permit: timeout and emergency acquisition failed"));
            },
            _ => {},
        }
        self.inflight_count = if self.inflight_count == usize::MAX {
            0
        } else {
            self.inflight_count + 1
        };
        let memory_reserved = if self.memory_limit.is_some() {
            self.avg_message_size
        } else {
            0
        };
        Ok(BackpressurePermit { memory_reserved, released: false })
    }

    /// Try to acquire a permit without blocking, `available` telling
    /// whether the semaphore had one to give
    pub fn try_acquire(&mut self, available: bool) -> (r: Option<BackpressurePermit>)
        ensures
            final(self).max_spec() == old(self).max_spec(),
            final(self).paused_spec() == old(self).paused_spec(),
            final(self).limit_spec() == old(self).limit_spec(),
            final(self).avg_spec() == old(self).avg_spec(),
            ({
                let over = match old(self).limit_spec() {
                    Some(limit) => old(self).memory_spec() + old(self).avg_spec() > limit,
                    None => false,
                };
                if over || !available {
                    r is None && *final(self) == *old(self)
                } else {
                    let reserved = if old(self).limit_spec() is Some {
                        old(self).avg_spec()
                    } else {
                        0
                    };
                    &&& r matches Some(p) && p.reserved_spec() == reserved && !p.released_spec()
                    &&& final(self).memory_spec() == wrapping_plus(old(self).memory_spec(), reserved)
                    &&& final(self).inflight_spec() == wrapping_inc(old(self).inflight_spec())
                }
            }),
    {
        match self.memory_limit {
            Some(limit) => {
                if self.current_memory > limit || self.avg_message_size > limit - self.current_memory {
                    return None;
                }
            },
            None => {},
        }
        if !available {
            return None;
        }
        let memory_reserved = if self.memory_limit.is_some() {
            self.current_memory = wrapping_add_usize(self.current_memory, self.avg_message_size);
            self.avg_message_size
        } else {
            assert(wrapping_plus(self.current_memory, 0) == self.current_memory);
            0
        };
        self.inflight_count = if self.inflight_count == usize::MAX {
            0
        } else {
            self.inflight_count + 1
        };
        Some(BackpressurePermit { memory_reserved, released: false })
    }

    /// Release a permit: the first release gives back its message and its
    /// memory, a second does nothing
    pub fn release(&mut self, permit: &mut BackpressurePermit)
        ensures
            final(permit).released_spec(),
            final(permit).reserved_spec() == old(permit).reserved_spec(),
            final(self).max_spec() == old(self).max_spec(),
            final(self).paused_spec() == old(self).paused_spec(),
            final(self).limit_spec() == old(self).limit_spec(),
            final(self).avg_spec() == old(self).avg_spec(),
            old(permit).released_spec() ==> *final(self) == *old(self),
            !old(permit).released_spec() ==> {
                &&& final(self).inflight_spec() == wrapping_dec(old(self).inflight_spec())
                &&& final(self).memory_spec() == wrapping_minus(old(self).memory_spec(), old(permit).reserved_spec())
            },
    {
        if permit.released {
            return;
        }
        permit.released = true;
        self.inflight_count = if self.inflight_count == 0 {
            usize::MAX
        } else {
            self.inflight_count - 1
        };
        if permit.memory_reserved > 0 {
            self.current_memory = wrapping_sub_usize(self.current_memory, permit.memory_reserved);
        } else {
            assert(wrapping_minus(self.current_memory, 0) == self.current_memory);
        }
    }

    /// Check if we should pause consumption: once the in-flight messages
    /// reach `threshold` while not paused, which pauses
    pub fn should_pause(&mut self, threshold: usize) -> (r: bool)
        ensures
            r == (old(self).inflight_spec() >= threshold && !old(self).paused_spec()),
            final(self).paused_spec() == (old(self).paused_spec() || r),
            final(self).inflight_spec() == old(self).inflight_spec(),
            final(self).max_spec() == old(self).max_spec(),
            final(self).limit_spec() == old(self).limit_spec(),
            final(self).memory_spec() == old(self).memory_spec(),
            final(self).avg_spec() == old(self).avg_spec(),
    {
        if self.inflight_count >= threshold && !self.paused {
            self.paused = true;
            true
        } else {
            false
        }
    }

    /// Check if we should resume consumption: once the in-flight messages
    /// fall to `threshold` while paused, which resumes
    pub fn should_resume(&mut self, threshold: usize) -> (r: bool)
        ensures
            r == (old(self).inflight_spec() <= threshold && old(self).paused_spec()),
            final(self).paused_spec() == (old(self).paused_spec() && !r),
            final(self).inflight_spec() == old(self).inflight_spec(),
            final(self).max_spec() == old(self).max_spec(),
            final(self).limit_spec() == old(self).limit_spec(),
            final(self).memory_spec() == old(self).memory_spec(),
            final(self).avg_spec() == old(self).avg_spec(),
    {
        if self.inflight_count <= threshold && self.paused {
            self.paused = false;
            true
        } else {
            false
        }
    }

    /// Get current inflight count
    pub fn inflight_count(&self) -> (r: usize)
        ensures
            r == self.inflight_spec(),
    {
        self.inflight_count
    }

    /// The maximum number of in-flight messages
    pub fn max_inflight(&self) -> (r: usize)
        ensures
            r == self.max_spec(),
    {
        self.max_inflight
    }

    /// Check if consumer is paused
    pub fn is_paused(&self) -> (r: bool)
        ensures
            r == self.paused_spec(),
    {
        self.paused
    }

    /// Get current memory usage
    pub fn memory_usage(&self) -> (r: usize)
        ensures
            r == self.memory_spec(),
    {
        self.current_memory
    }

    /// The memory limit in bytes, if any
    pub fn memory_limit(&self) -> (r: Option<usize>)
        ensures
            r == self.limit_spec(),
    {
        self.memory_limit
    }

    /// Set a new maximum of in-flight messages; whether it changed
    pub fn set_max_inflight(&mut self, new_limit: usize) -> (r: bool)
        ensures
            r == (new_limit != old(self).max_spec()),
            final(self).max_spec() == new_limit,
            final(self).inflight_spec() == old(self).inflight_spec(),
            final(self).paused_spec() == old(self).paused_spec(),
            final(self).limit_spec() == old(self).limit_spec(),
            final(self).memory_spec() == old(self).memory_spec(),
            final(self).avg_spec() == old(self).avg_spec(),
    {
        let changed = new_limit != self.max_inflight;
        self.max_inflight = new_limit;
        changed
    }

    /// Clamp the maximum of in-flight messages between two bounds
    pub fn clamp_max_inflight(&mut self, min: usize, max: usize)
        requires
            min <= max,
        ensures
            final(self).max_spec() == (if old(self).max_spec() < min {
                min
            } else if old(self).max_spec() > max {
                max
            } else {
                old(self).max_spec()
            }),
            final(self).inflight_spec() == old(self).inflight_spec(),
            final(self).paused_spec() == old(self).paused_spec(),
            final(self).limit_spec() == old(self).limit_spec(),
            final(self).memory_spec() == old(self).memory_spec(),
            final(self).avg_spec() == old(self).avg_spec(),
    {
        if self.max_inflight < min {
            self.max_inflight = min;
        } else if self.max_inflight > max {
            self.max_inflight = max;
        }
    }

    /// One step of waiting for all in-flight messages to complete
    pub fn drain_step(&self, timed_out: bool) -> (r: DrainStep)
        ensures
            self.inflight_spec() == 0 ==> r is Done,
            self.inflight_spec() > 0 && timed_out ==> (r matches DrainStep::TimedOut(m) && m@
                == drain_timeout_message(self.inflight_spec())),
            self.inflight_spec() > 0 && !timed_out ==> r is Wait,
    {
        if self.inflight_count == 0 {
            return DrainStep::Done;
        }
        if timed_out {
            let msg = owned("Shutdown timeout with ").concat(usize_to_decimal(self.inflight_count).as_str()).concat(
                " messages remaining",
            );
            return DrainStep::TimedOut(msg);
        }
        DrainStep::Wait
    }

    /// Force cleanup of all resources (emergency shutdown)
    pub fn force_cleanup(&mut self)
        ensures
            final(self).inflight_spec() == 0,
            final(self).memory_spec() == 0,
            !final(self).paused_spec(),
            final(self).max_spec() == old(self).max_spec(),
            final(self).limit_spec() == old(self).limit_spec(),
            final(self).avg_spec() == old(self).avg_spec(),
    {
        self.inflight_count = 0;
        self.current_memory = 0;
        self.paused = false;
    }
}

/// Taking a permit that reserved memory and releasing it leaves the
/// controller's counts as they were.
pub proof fn lemma_take_then_release(inflight: usize, memory: usize, reserved: usize)
    ensures
        wrapping_dec(wrapping_inc(inflight)) == inflight,
        wrapping_minus(wrapping_plus(memory, reserved), reserved) == memory,
{
}

/// A permit taken after a successful reservation gives back, when released,
/// exactly the memory that the reservation added: under a limit the
/// average message size, without one nothing.
pub proof fn lemma_permit_returns_its_memory(memory: usize, avg: usize, limit: Option<usize>)
    requires
        limit matches Some(l) ==> memory + avg <= l,
    ensures
        ({
            let reserved_memory = if limit is Some {
                (memory + avg) as usize
            } else {
                memory
            };
            let recorded = if limit is Some {
                avg
            } else {
                0
            };
            wrapping_minus(reserved_memory, recorded) == memory
        }),
{
}

/// How many recent latencies the performance metrics keep.
pub const LATENCY_WINDOW: usize = 100;

/// The most recent `LATENCY_WINDOW` entries of `s`.
pub open spec fn recent_latencies(s: Seq<Duration>) -> Seq<Duration> {
    if s.len() > LATENCY_WINDOW {
        s.subrange(s.len() - LATENCY_WINDOW, s.len() as int)
    } else {
        s
    }
}

/// Counts of processed messages, and the latencies of the most recent
/// successes.
#[derive(Debug)]
pub struct PerformanceMetrics {
    latencies: Vec<Duration>,
    success_count: usize,
    total_count: usize,
}

impl PerformanceMetrics {
    /// No more successes than messages, and no more latencies than the
    /// window or the successes.
    #[verifier::type_invariant]
    spec fn counts_consistent(self) -> bool {
        &&& self.success_count <= self.total_count
        &&& self.latencies@.len() <= LATENCY_WINDOW
        &&& self.latencies@.len() <= self.success_count
    }

    /// The latencies kept, oldest first.
    pub closed spec fn latencies_spec(&self) -> Seq<Duration> {
        self.latencies@
    }

    /// The messages processed successfully.
    pub closed spec fn successes_spec(&self) -> usize {
        self.success_count
    }

    /// The messages processed.
    pub closed spec fn total_spec(&self) -> usize {
        self.total_count
    }

    /// Nothing recorded yet.
    pub fn new() -> (r: Self)
        ensures
            r.latencies_spec() == Seq::<Duration>::empty(),
            r.successes_spec() == 0,
            r.total_spec() == 0,
    {
        PerformanceMetrics { latencies: Vec::new(), success_count: 0, total_count: 0 }
    }

    /// Count a message processed successfully, and keep its latency among
    /// the most recent ones.
    pub fn record_success(&mut self, latency: Duration)
        requires
            old(self).total_spec() < usize::MAX,
        ensures
            final(self).successes_spec() == old(self).successes_spec() + 1,
            final(self).total_spec() == old(self).total_spec() + 1,
            final(self).latencies_spec() == recent_latencies(old(self).latencies_spec().push(latency)),
    {
        proof {
            use_type_invariant(&*self);
        }
        let mut recent: Vec<Duration> = Vec::new();
        std::mem::swap(&mut recent, &mut self.latencies);
        self.total_count = self.total_count + 1;
        self.success_count = self.success_count + 1;
        let ghost before = recent@;
        recent.push(latency);
        if recent.len() > LATENCY_WINDOW {
            recent.remove(0);
            assert(recent@ =~= recent_latencies(before.push(latency)));
        }
        self.latencies = recent;
    }

    /// Count a message whose processing failed.
    pub fn record_failure(&mut self)
        requires
            old(self).total_spec() < usize::MAX,
        ensures
            final(self).successes_spec() == old(self).successes_spec(),
            final(self).total_spec() == old(self).total_spec() + 1,
            final(self).latencies_spec() == old(self).latencies_spec(),
    {
        proof {
            use_type_invariant(&*self);
        }
        self.total_count = self.total_count + 1;
    }

    /// The messages processed.
    pub fn total_processed(&self) -> (r: usize)
        ensures
            r == self.total_spec(),
    {
        self.total_count
    }

    /// The messages processed successfully.
    pub fn successful(&self) -> (r: usize)
        ensures
            r == self.successes_spec(),
    {
        self.success_count
    }

    /// The messages whose processing failed.
    pub fn failed(&self) -> (r: usize)
        ensures
            r == self.total_spec() - self.successes_spec(),
    {
        proof {
            use_type_invariant(self);
        }
        self.total_count - self.success_count
    }

    /// The latencies kept, oldest first.
    pub fn latencies(&self) -> (r: &[Duration])
        ensures
            r@ == self.latencies_spec(),
    {
        self.latencies.as_slice()
    }
}

/// Once at least `LATENCY_WINDOW` successes were recorded, the metrics keep
/// exactly `LATENCY_WINDOW` latencies, the newest last.
pub proof fn lemma_window_keeps_newest(s: Seq<Duration>, latency: Duration)
    requires
        s.len() == LATENCY_WINDOW,
    ensures
        recent_latencies(s.push(latency)).len() == LATENCY_WINDOW,
        recent_latencies(s.push(latency)).last() == latency,
        recent_latencies(s.push(latency)) == s.drop_first().push(latency),
{
    assert(s.push(latency).subrange(1, LATENCY_WINDOW + 1) =~= s.drop_first().push(latency));
}

} // verus!
