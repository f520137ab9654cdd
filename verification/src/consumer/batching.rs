//! Gathering tasks into batches for a batch-processing worker.
//!
//! A batch is handed out when it is full, when the batch timer fires with
//! tasks pending, and when the task channel closes with tasks pending. The
//! worker processes each batch it is handed.
use vstd::prelude::*;

verus! {

/// Tasks waiting to be processed together.
#[derive(Debug)]
pub struct TaskBatcher<T> {
    pending: Vec<T>,
    batch_size: usize,
}

impl<T> TaskBatcher<T> {
    /// The tasks waiting, in arrival order.
    pub closed spec fn pending_spec(&self) -> Seq<T> {
        self.pending@
    }

    /// The number of tasks that makes a batch full.
    pub closed spec fn batch_size_spec(&self) -> usize {
        self.batch_size
    }

    /// An empty batcher whose batches hold `batch_size` tasks.
    pub fn new(batch_size: usize) -> (r: Self)
        ensures
            r.pending_spec() == Seq::<T>::empty(),
            r.batch_size_spec() == batch_size,
    {
        TaskBatcher { pending: Vec::new(), batch_size }
    }

    /// The number of tasks waiting.
    pub fn len(&self) -> (r: usize)
        ensures
            r == self.pending_spec().len(),
    {
        self.pending.len()
    }

    /// Hands out everything pending and leaves the batcher empty.
    fn take_pending(&mut self) -> (r: Vec<T>)
        ensures
            r@ == old(self).pending_spec(),
            final(self).pending_spec() == Seq::<T>::empty(),
            final(self).batch_size_spec() == old(self).batch_size_spec(),
    {
        let mut out: Vec<T> = Vec::new();
        std::mem::swap(&mut out, &mut self.pending);
        out
    }

    /// A task arrives. When it fills the batch, the batch (the pending tasks
    /// and this one, in arrival order) is handed out.
    pub fn push(&mut self, task: T) -> (r: Option<Vec<T>>)
        ensures
            final(self).batch_size_spec() == old(self).batch_size_spec(),
            old(self).pending_spec().len() + 1 >= old(self).batch_size_spec() ==> {
                &&& r matches Some(b) && b@ == old(self).pending_spec().push(task)
                &&& final(self).pending_spec() == Seq::<T>::empty()
            },
            old(self).pending_spec().len() + 1 < old(self).batch_size_spec() ==> {
                &&& r is None
                &&& final(self).pending_spec() == old(self).pending_spec().push(task)
            },
    {
        self.pending.push(task);
        if self.pending.len() >= self.batch_size {
            Some(self.take_pending())
        } else {
            None
        }
    }

    /// The batch timer fires: the pending tasks, if any, are handed out.
    pub fn on_tick(&mut self) -> (r: Option<Vec<T>>)
        ensures
            final(self).batch_size_spec() == old(self).batch_size_spec(),
            final(self).pending_spec() == Seq::<T>::empty(),
            old(self).pending_spec().len() == 0 ==> r is None,
            old(self).pending_spec().len() > 0 ==> (r matches Some(b) && b@ == old(self).pending_spec()),
    {
        if self.pending.len() == 0 {
            None
        } else {
            Some(self.take_pending())
        }
    }

    /// The task channel closes: the pending tasks, if any, are the last
    /// batch.
    pub fn on_close(self) -> (r: Option<Vec<T>>)
        ensures
            self.pending_spec().len() == 0 ==> r is None,
            self.pending_spec().len() > 0 ==> (r matches Some(b) && b@ == self.pending_spec()),
    {
        if self.pending.len() == 0 {
            None
        } else {
            Some(self.pending)
        }
    }
}

} // verus!
