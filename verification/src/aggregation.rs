//! Configuration of aggregation over matched events.
use std::time::Duration;
use vstd::prelude::*;

verus! {

/// A duration of whole seconds.
///
/// Trusted: calls `Duration::from_secs`. `Duration` is opaque here, so
/// nothing is claimed of the value.
#[verifier::external_body]
fn seconds(n: u64) -> Duration {
    Duration::from_secs(n)
}

/// Aggregation functions supported by Sigma
#[derive(Debug, PartialEq, Eq)]
pub enum AggregationFunction {
    /// Count aggregation
    Count,
    /// Sum aggregation over a field
    Sum(String),
    /// Average aggregation over a field
    Average(String),
    /// Minimum aggregation over a field
    Min(String),
    /// Maximum aggregation over a field
    Max(String),
}

/// Configuration for aggregation evaluator
#[derive(Debug)]
pub struct AggregationConfig {
    /// TTL for aggregation groups
    pub group_ttl: Duration,
    /// How often to clean up expired groups
    pub cleanup_interval: Duration,
    /// Maximum number of groups to cache (to prevent memory exhaustion)
    pub max_cache_size: u64,
    /// Maximum memory usage in bytes for the cache
    pub max_cache_memory: Option<u64>,
}

impl Default for AggregationConfig {
    /// Groups live an hour and are cleaned every minute; at most ten
    /// thousand groups and 100 MiB.
    fn default() -> (r: Self)
        ensures
            r.max_cache_size == 10000,
            r.max_cache_memory == Some(104857600u64),
    {
        AggregationConfig {
            group_ttl: seconds(3600),
            cleanup_interval: seconds(60),
            max_cache_size: 10000,
            max_cache_memory: Some(104857600),
        }
    }
}

/// Configuration for a sliding window
#[derive(Debug)]
pub struct WindowConfig {
    /// Duration of the sliding window
    pub duration: Duration,
    /// Field to group by (if any)
    pub by_field: String,
}

} // verus!

verus! {

/// The entries of `s` left once those stamped before `start` are dropped
/// from its front.
pub open spec fn drop_expired<V>(s: Seq<(i64, V)>, start: int) -> Seq<(i64, V)>
    decreases s.len(),
{
    if s.len() > 0 && s[0].0 < start {
        drop_expired(s.drop_first(), start)
    } else {
        s
    }
}

/// The values of the entries of `s` stamped from `start` to `end`, in order.
pub open spec fn values_between<V>(s: Seq<(i64, V)>, start: int, end: int) -> Seq<V>
    decreases s.len(),
{
    if s.len() == 0 {
        Seq::empty()
    } else {
        let before = values_between(s.drop_last(), start, end);
        if start <= s.last().0 <= end {
            before.push(s.last().1)
        } else {
            before
        }
    }
}

/// Values in the order they arrived, each with its timestamp (in
/// milliseconds), kept while they are at most `length` older than the
/// newest time seen.
#[derive(Debug)]
pub struct TimeWindow<V> {
    length: i64,
    entries: Vec<(i64, V)>,
}

impl<V: Copy> TimeWindow<V> {
    /// The window's length in milliseconds.
    pub closed spec fn length_spec(&self) -> i64 {
        self.length
    }

    /// The entries, oldest first.
    pub closed spec fn entries_spec(&self) -> Seq<(i64, V)> {
        self.entries@
    }

    /// An empty window of `length` milliseconds.
    pub fn new(length: i64) -> (r: Self)
        ensures
            r.length_spec() == length,
            r.entries_spec() == Seq::<(i64, V)>::empty(),
    {
        TimeWindow { length, entries: Vec::new() }
    }

    /// The window's length in milliseconds.
    pub fn length(&self) -> (r: i64)
        ensures
            r == self.length_spec(),
    {
        self.length
    }

    /// Drop from the front the entries stamped before `now - length`.
    pub fn compact_at(&mut self, now: i64)
        requires
            i64::MIN <= now - old(self).length_spec() <= i64::MAX,
        ensures
            final(self).length_spec() == old(self).length_spec(),
            final(self).entries_spec() == drop_expired(old(self).entries_spec(), now - old(self).length_spec()),
    {
        let start = now - self.length;
        let ghost all = self.entries@;
        let ghost length = self.length;
        while self.entries.len() > 0 && self.entries[0].0 < start
            invariant
                self.length == length,
                drop_expired(self.entries@, start as int) == drop_expired(all, start as int),
            decreases self.entries.len(),
        {
            let ghost before = self.entries@;
            self.entries.remove(0);
            assert(self.entries@ =~= before.drop_first());
        }
    }

    /// Add a value stamped `timestamp`, then drop the entries older than the
    /// window before it.
    pub fn add_value(&mut self, value: V, timestamp: i64)
        requires
            i64::MIN <= timestamp - old(self).length_spec() <= i64::MAX,
        ensures
            final(self).length_spec() == old(self).length_spec(),
            final(self).entries_spec() == drop_expired(
                old(self).entries_spec().push((timestamp, value)),
                timestamp - old(self).length_spec(),
            ),
    {
        self.entries.push((timestamp, value));
        self.compact_at(timestamp);
    }

    /// The number of entries.
    pub fn entry_count(&self) -> (r: usize)
        ensures
            r == self.entries_spec().len(),
    {
        self.entries.len()
    }

    /// The timestamps of the oldest and the newest entry, if any.
    pub fn time_range(&self) -> (r: Option<(i64, i64)>)
        ensures
            r == (if self.entries_spec().len() == 0 {
                None
            } else {
                Some((self.entries_spec()[0].0, self.entries_spec().last().0))
            }),
    {
        if self.entries.len() == 0 {
            None
        } else {
            Some((self.entries[0].0, self.entries[self.entries.len() - 1].0))
        }
    }

    /// The values of the entries, oldest first.
    pub fn values(&self) -> (r: Vec<V>)
        ensures
            r@ == self.entries_spec().map_values(|e: (i64, V)| e.1),
    {
        let mut out: Vec<V> = Vec::new();
        let mut i: usize = 0;
        while i < self.entries.len()
            invariant
                i <= self.entries@.len(),
                out@ == self.entries@.take(i as int).map_values(|e: (i64, V)| e.1),
            decreases self.entries.len() - i,
        {
            out.push(self.entries[i].1);
            i = i + 1;
            assert(out@ =~= self.entries@.take(i as int).map_values(|e: (i64, V)| e.1));
        }
        assert(self.entries@.take(i as int) =~= self.entries@);
        out
    }

    /// The values of the entries that a window ending at `timestamp` would
    /// hold: stamped from `timestamp - length` to `timestamp`.
    pub fn values_at(&self, timestamp: i64) -> (r: Vec<V>)
        requires
            i64::MIN <= timestamp - self.length_spec() <= i64::MAX,
        ensures
            r@ == values_between(self.entries_spec(), timestamp - self.length_spec(), timestamp as int),
    {
        let start = timestamp - self.length;
        let mut out: Vec<V> = Vec::new();
        let mut i: usize = 0;
        while i < self.entries.len()
            invariant
                i <= self.entries@.len(),
                out@ == values_between(self.entries@.take(i as int), start as int, timestamp as int),
            decreases self.entries.len() - i,
        {
            assert(self.entries@.take(i + 1).drop_last() =~= self.entries@.take(i as int));
            assert(self.entries@.take(i + 1).last() == self.entries@[i as int]);
            let (t, v) = self.entries[i];
            if start <= t && t <= timestamp {
                out.push(v);
            }
            i = i + 1;
        }
        assert(self.entries@.take(i as int) =~= self.entries@);
        out
    }

    /// Remove every entry.
    pub fn clear(&mut self)
        ensures
            final(self).length_spec() == old(self).length_spec(),
            final(self).entries_spec() == Seq::<(i64, V)>::empty(),
    {
        self.entries = Vec::new();
    }
}

/// After compacting, no entry is older than the window: every entry left
/// is stamped at or after its start, and what is left is a suffix of what
/// was there.
pub proof fn lemma_compacted_window_is_recent<V>(s: Seq<(i64, V)>, start: int)
    requires
        forall|i: int, j: int| 0 <= i <= j < s.len() ==> s[i].0 <= s[j].0,
    ensures
        drop_expired(s, start).len() <= s.len(),
        forall|k: int| 0 <= k < drop_expired(s, start).len() ==> drop_expired(s, start)[k].0 >= start,
        drop_expired(s, start) == s.subrange(s.len() - drop_expired(s, start).len(), s.len() as int),
    decreases s.len(),
{
    if s.len() > 0 && s[0].0 < start {
        let t = s.drop_first();
        assert forall|i: int, j: int| 0 <= i <= j < t.len() implies t[i].0 <= t[j].0 by {
            assert(t[i] == s[i + 1] && t[j] == s[j + 1]);
        }
        lemma_compacted_window_is_recent(t, start);
        let d = drop_expired(t, start);
        assert(t.subrange(t.len() - d.len(), t.len() as int) =~= s.subrange(s.len() - d.len(), s.len() as int));
    } else {
        assert(s.subrange(0, s.len() as int) =~= s);
        if s.len() > 0 {
            assert forall|k: int| 0 <= k < s.len() implies s[k].0 >= start by {
                assert(s[0].0 <= s[k].0);
            }
        }
    }
}

} // verus!
