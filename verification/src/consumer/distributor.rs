//! Round-robin distribution of tasks over processor workers, with a circuit
//! breaker per worker.
//!
//! The sends to the workers are the caller's: for each task it asks which
//! worker to offer the task to on each attempt, reports whether the worker
//! took it, and finally asks whether to go on distributing. Times are
//! milliseconds on a monotonic clock that the caller reads.
use vstd::prelude::*;

verus! {

/// Consecutive failed sends after which a worker's circuit opens.
pub const MAX_WORKER_FAILURES: u32 = 5;

/// Milliseconds after the last failure after which an open circuit closes.
pub const CIRCUIT_RESET_MS: u64 = 30000;

/// The health of one worker as the distributor sees it.
#[derive(Debug, Clone, Copy)]
pub struct WorkerHealth {
    /// Consecutive failed sends
    pub failures: u32,
    /// When the last send failed
    pub last_failure_ms: Option<u64>,
    /// Whether the worker is skipped
    pub circuit_open: bool,
}

/// A worker that has never failed.
pub open spec fn fresh_worker() -> WorkerHealth {
    WorkerHealth { failures: 0, last_failure_ms: None, circuit_open: false }
}

/// Whether the worker's circuit is open and its last failure lies more than
/// the reset time before `now_ms`.
pub open spec fn circuit_expired(w: WorkerHealth, now_ms: u64) -> bool {
    &&& w.circuit_open
    &&& w.last_failure_ms matches Some(t) && now_ms > t + CIRCUIT_RESET_MS
}

/// The worker after the check made before offering it a task: an expired
/// circuit closes and its failures are forgotten.
pub open spec fn after_expiry_check(w: WorkerHealth, now_ms: u64) -> WorkerHealth {
    if circuit_expired(w, now_ms) {
        WorkerHealth { failures: 0, circuit_open: false, ..w }
    } else {
        w
    }
}

/// The worker after a send: a delivered task clears its failures; a failed
/// send counts one more failure at `now_ms`, and opens the circuit once the
/// count reaches the limit.
pub open spec fn after_send(w: WorkerHealth, delivered: bool, now_ms: u64) -> WorkerHealth {
    if delivered {
        WorkerHealth { failures: 0, ..w }
    } else {
        WorkerHealth {
            failures: (w.failures + 1) as u32,
            last_failure_ms: Some(now_ms),
            circuit_open: w.circuit_open || w.failures + 1 >= MAX_WORKER_FAILURES,
        }
    }
}

/// The worker after `k` consecutive failed sends at `now_ms`.
pub open spec fn after_failures(w: WorkerHealth, k: nat, now_ms: u64) -> WorkerHealth
    decreases k,
{
    if k == 0 {
        w
    } else {
        after_send(after_failures(w, (k - 1) as nat, now_ms), false, now_ms)
    }
}

/// A worker that has never failed counts each of its consecutive failed
/// sends, and its circuit opens at the limit and not before.
pub proof fn lemma_failures_open_circuit(k: nat, now_ms: u64)
    requires
        k <= MAX_WORKER_FAILURES,
    ensures
        after_failures(fresh_worker(), k, now_ms).failures == k,
        after_failures(fresh_worker(), k, now_ms).circuit_open <==> k == MAX_WORKER_FAILURES,
    decreases k,
{
    if k > 0 {
        lemma_failures_open_circuit((k - 1) as nat, now_ms);
    }
}

/// The worker offered the task on the given attempt: the attempts go round
/// the workers from the current one.
pub open spec fn attempt_worker(current: int, attempt: int, n: int) -> int {
    (current + attempt) % n
}

/// Whether every worker's circuit is open.
pub open spec fn all_open(workers: Seq<WorkerHealth>) -> bool {
    forall|i: int| 0 <= i < workers.len() ==> #[trigger] workers[i].circuit_open
}

/// Decides where each task goes among a fixed set of workers.
#[derive(Debug)]
pub struct TaskDistributor {
    workers: Vec<WorkerHealth>,
    current_worker: usize,
}

impl TaskDistributor {
    /// The workers' health, by worker index.
    pub closed spec fn workers_spec(&self) -> Seq<WorkerHealth> {
        self.workers@
    }

    /// The worker that the next task is offered to first.
    pub closed spec fn current_spec(&self) -> usize {
        self.current_worker
    }

    /// There is at least one worker, the current one is among them, and no
    /// worker counts more failures than the limit.
    pub closed spec fn wf(&self) -> bool {
        &&& self.workers@.len() > 0
        &&& self.current_worker < self.workers@.len()
        &&& forall|i: int| 0 <= i < self.workers@.len() ==> #[trigger] self.workers@[i].failures <= MAX_WORKER_FAILURES
        &&& forall|i: int| 0 <= i < self.workers@.len() && #[trigger] self.workers@[i].failures == MAX_WORKER_FAILURES
            ==> self.workers@[i].circuit_open
    }

    /// A distributor over `num_workers` healthy workers, starting with the
    /// first.
    pub fn new(num_workers: usize) -> (r: Self)
        requires
            num_workers > 0,
        ensures
            r.wf(),
            r.workers_spec() == Seq::new(num_workers as nat, |i: int| fresh_worker()),
            r.current_spec() == 0,
    {
        let mut workers: Vec<WorkerHealth> = Vec::new();
        let mut i: usize = 0;
        while i < num_workers
            invariant
                i <= num_workers,
                workers@ == Seq::new(i as nat, |j: int| fresh_worker()),
            decreases num_workers - i,
        {
            workers.push(WorkerHealth { failures: 0, last_failure_ms: None, circuit_open: false });
            i = i + 1;
        }
        TaskDistributor { workers, current_worker: 0 }
    }

    /// The number of workers.
    pub fn num_workers(&self) -> (r: usize)
        ensures
            r == self.workers_spec().len(),
    {
        self.workers.len()
    }

    /// The worker that the next task is offered to first.
    pub fn current_worker(&self) -> (r: usize)
        ensures
            r == self.current_spec(),
    {
        self.current_worker
    }

    /// The health of one worker.
    pub fn worker(&self, index: usize) -> (r: WorkerHealth)
        requires
            index < self.workers_spec().len(),
        ensures
            r == self.workers_spec()[index as int],
    {
        self.workers[index]
    }

    /// The worker to offer the task to on the given attempt (attempts count
    /// from 0 and go round the workers from the current one), after closing
    /// its circuit if it has expired; `None` when its circuit stays open and
    /// the attempt is skipped.
    pub fn worker_for_attempt(&mut self, attempt: usize, now_ms: u64) -> (r: Option<usize>)
        requires
            old(self).wf(),
            attempt < old(self).workers_spec().len(),
        ensures
            final(self).wf(),
            final(self).current_spec() == old(self).current_spec(),
            ({
                let idx = attempt_worker(old(self).current_spec() as int, attempt as int, old(self).workers_spec().len() as int);
                let w = after_expiry_check(old(self).workers_spec()[idx], now_ms);
                &&& final(self).workers_spec() == old(self).workers_spec().update(idx, w)
                &&& r == (if w.circuit_open { None } else { Some(idx as usize) })
            }),
    {
        let n = self.workers.len();
        let cur = self.current_worker;
        let idx = if attempt < n - cur {
            cur + attempt
        } else {
            attempt - (n - cur)
        };
        assert(idx as int == attempt_worker(cur as int, attempt as int, n as int)) by {
            if attempt < n - cur {
                vstd::arithmetic::div_mod::lemma_small_mod((cur + attempt) as nat, n as nat);
            } else {
                vstd::arithmetic::div_mod::lemma_fundamental_div_mod_converse_mod(
                    cur + attempt,
                    n as int,
                    1,
                    cur + attempt - n,
                );
            }
        }
        let mut w = self.workers[idx];
        let expired = match w.last_failure_ms {
            Some(t) => w.circuit_open && now_ms > t && now_ms - t > CIRCUIT_RESET_MS,
            None => false,
        };
        if expired {
            w.circuit_open = false;
            w.failures = 0;
        }
        self.workers.set(idx, w);
        if w.circuit_open {
            None
        } else {
            Some(idx)
        }
    }

    /// Records whether the worker took the task offered to it.
    pub fn record_send(&mut self, worker: usize, delivered: bool, now_ms: u64)
        requires
            old(self).wf(),
            worker < old(self).workers_spec().len(),
            !old(self).workers_spec()[worker as int].circuit_open,
        ensures
            final(self).wf(),
            final(self).current_spec() == old(self).current_spec(),
            final(self).workers_spec() == old(self).workers_spec().update(
                worker as int,
                after_send(old(self).workers_spec()[worker as int], delivered, now_ms),
            ),
    {
        let mut w = self.workers[worker];
        if delivered {
            w.failures = 0;
        } else {
            w.failures = w.failures + 1;
            w.last_failure_ms = Some(now_ms);
            if w.failures >= MAX_WORKER_FAILURES {
                w.circuit_open = true;
            }
        }
        self.workers.set(worker, w);
    }

    /// Ends the distribution of one task: whether to go on distributing, and
    /// the worker the next task is offered to first. The distributor stops
    /// when the task reached no worker and every circuit is open.
    pub fn finish_task(&mut self, delivered: bool) -> (go_on: bool)
        requires
            old(self).wf(),
        ensures
            final(self).wf(),
            final(self).workers_spec() == old(self).workers_spec(),
            go_on == (delivered || !all_open(old(self).workers_spec())),
            go_on ==> final(self).current_spec() == (old(self).current_spec() + 1) % (old(self).workers_spec().len() as int),
    {
        if !delivered {
            let mut all_failed = true;
            let mut i: usize = 0;
            while i < self.workers.len()
                invariant
                    i <= self.workers@.len(),
                    all_failed == (forall|j: int| 0 <= j < i ==> #[trigger] self.workers@[j].circuit_open),
                decreases self.workers@.len() - i,
            {
                if !self.workers[i].circuit_open {
                    all_failed = false;
                }
                i = i + 1;
            }
            if all_failed {
                return false;
            }
        }
        let n = self.workers.len();
        proof {
            let c = self.current_worker as int + 1;
            if c < n {
                vstd::arithmetic::div_mod::lemma_small_mod(c as nat, n as nat);
            } else {
                vstd::arithmetic::div_mod::lemma_mod_self_0(n as int);
            }
        }
        self.current_worker = if self.current_worker + 1 < n {
            self.current_worker + 1
        } else {
            0
        };
        true
    }
}

} // verus!
