//! String interning for pattern matching to reduce allocations
//!
//! Strings that are interned more than once share one allocation. The
//! interner holds at most its capacity of strings (at least one string is
//! held once one was interned): when it is full, the oldest tenth of them,
//! and at least the oldest one, is dropped before a new one is added.
use std::sync::Arc;
use vstd::prelude::*;

use crate::text::str_eq;
use vstd::string::StringExecFns;

verus! {

/// Another reference to the same shared string.
///
/// Trusted: calls `Arc::clone`, which gives a pointer to the same
/// allocation; claims that the string it points to is the same.
#[verifier::external_body]
fn share(a: &Arc<String>) -> (r: Arc<String>)
    ensures
        r == *a,
{
    Arc::clone(a)
}

/// The number of references to a shared string.
///
/// Trusted: calls `Arc::strong_count`. Nothing is claimed of the number: it
/// depends on what other parts of the program hold.
#[verifier::external_body]
fn reference_count(a: &Arc<String>) -> usize {
    Arc::strong_count(a)
}

/// Configuration for the string interner
#[derive(Debug)]
pub struct StringInternerConfig {
    /// Maximum number of entries to cache
    pub max_capacity: usize,
}

impl Default for StringInternerConfig {
    fn default() -> (r: Self)
        ensures
            r.max_capacity == 10000,
    {
        StringInternerConfig { max_capacity: 10000 }
    }
}

/// Statistics about string interning
#[derive(Debug)]
pub struct InternerStats {
    /// Number of unique strings
    pub unique_strings: usize,
    /// Estimated memory saved by interning (bytes)
    pub estimated_memory_saved: usize,
    /// Number of poison recovery events (for monitoring)
    pub poison_events: u64,
}

/// String interner with a size limit
#[derive(Debug)]
pub struct StringInterner {
    strings: Vec<(String, Arc<String>)>,
    max_capacity: usize,
    poison_count: u64,
}

/// The strings of a list of entries.
pub open spec fn entry_keys(entries: Seq<(String, Arc<String>)>) -> Seq<Seq<char>> {
    entries.map_values(|e: (String, Arc<String>)| e.0@)
}

/// How many of the oldest strings a full interner drops: a tenth of its
/// capacity, and at least one, as far as it holds that many.
pub open spec fn evicted(len: nat, capacity: nat) -> nat {
    let k = if capacity / 10 >= 1 { capacity / 10 } else { 1 };
    if k <= len { k } else { len }
}

impl View for StringInterner {
    type V = Seq<Seq<char>>;

    /// The interned strings, oldest first.
    closed spec fn view(&self) -> Seq<Seq<char>> {
        entry_keys(self.strings@)
    }
}

impl StringInterner {
    /// The capacity of the interner.
    pub closed spec fn capacity_spec(&self) -> nat {
        self.max_capacity as nat
    }

    /// Every entry shares a copy of its own string, no string is held twice,
    /// and no lock was ever poisoned.
    pub closed spec fn wf(&self) -> bool {
        &&& forall|i: int| 0 <= i < self.strings@.len() ==> (#[trigger] self.strings@[i]).1@ == self.strings@[i].0@
        &&& self@.no_duplicates()
        &&& self.poison_count == 0
        &&& self.max_capacity >= 1 ==> self.strings@.len() <= self.max_capacity
    }

    /// Create a new string interner with default configuration
    pub fn new() -> (r: Self)
        ensures
            r.wf(),
            r@ == Seq::<Seq<char>>::empty(),
            r.capacity_spec() == 10000,
    {
        Self::with_config(StringInternerConfig::default())
    }

    /// Create a new string interner with specified configuration
    pub fn with_config(config: StringInternerConfig) -> (r: Self)
        ensures
            r.wf(),
            r@ == Seq::<Seq<char>>::empty(),
            r.capacity_spec() == config.max_capacity,
    {
        let r = StringInterner { strings: Vec::new(), max_capacity: config.max_capacity, poison_count: 0 };
        assert(r@ =~= Seq::<Seq<char>>::empty());
        r
    }

    /// Intern a string, returning a shared reference: the one already held
    /// for an equal string, else a new one, added after dropping the oldest
    /// tenth of the strings (at least one) when the interner is full.
    pub fn intern(&mut self, s: &str) -> (r: Arc<String>)
        requires
            old(self).wf(),
        ensures
            final(self).wf(),
            (*r)@ == s@,
            final(self).capacity_spec() == old(self).capacity_spec(),
            old(self)@.contains(s@) ==> final(self)@ == old(self)@,
            !old(self)@.contains(s@) && old(self)@.len() >= old(self).capacity_spec() ==> final(self)@
                == old(self)@.skip(evicted(old(self)@.len(), old(self).capacity_spec()) as int).push(s@),
            !old(self)@.contains(s@) && old(self)@.len() < old(self).capacity_spec() ==> final(self)@
                == old(self)@.push(s@),
            final(self).capacity_spec() >= 1 ==> final(self)@.len() <= final(self).capacity_spec(),
    {
        let ghost keys = self@;
        let mut i: usize = 0;
        while i < self.strings.len()
            invariant
                i <= self.strings@.len(),
                keys == self@,
                keys == old(self)@,
                self.wf(),
                forall|j: int| 0 <= j < i ==> keys[j] != s@,
            decreases self.strings.len() - i,
        {
            if str_eq(self.strings[i].0.as_str(), s) {
                assert(self.strings@[i as int].1@ == s@);
                assert(keys[i as int] == s@);
                assert(keys.contains(s@));
                return share(&self.strings[i].1);
            }
            i = i + 1;
        }
        assert(!keys.contains(s@)) by {
            if keys.contains(s@) {
                let j = choose|j: int| 0 <= j < keys.len() && keys[j] == s@;
                assert(keys[j] != s@);
            }
        }
        if self.strings.len() >= self.max_capacity {
            let tenth = self.max_capacity / 10;
            let wanted = if tenth >= 1 {
                tenth
            } else {
                1
            };
            let to_remove = if wanted <= self.strings.len() {
                wanted
            } else {
                self.strings.len()
            };
            let tail = self.strings.split_off(to_remove);
            self.strings = tail;
            assert(self@ =~= keys.skip(to_remove as int));
        }
        let ghost kept = self@;
        let owned_key = String::from_str(s);
        let interned = Arc::new(String::from_str(s));
        let result = share(&interned);
        self.strings.push((owned_key, interned));
        assert(self@ =~= kept.push(s@));
        proof {
            assert forall|a: int, b: int| 0 <= a < b < self@.len() implies self@[a] != self@[b] by {
                if b == self@.len() - 1 {
                    assert(kept.contains(kept[a]));
                    assert(keys.contains(kept[a]));
                }
            }
        }
        result
    }

    /// Get statistics about the interner
    pub fn stats(&self) -> (r: InternerStats)
        requires
            self.wf(),
        ensures
            r.unique_strings == self@.len(),
            r.poison_events == 0,
    {
        let mut saved: usize = 0;
        let mut i: usize = 0;
        while i < self.strings.len()
            decreases self.strings.len() - i,
        {
            let refs = reference_count(&self.strings[i].1);
            let extra = if refs > 0 {
                refs - 1
            } else {
                0
            };
            let bytes = self.strings[i].0.as_str().len();
            let product = match bytes.checked_mul(extra) {
                Some(p) => p,
                None => usize::MAX,
            };
            saved = saved.saturating_add(product);
            i = i + 1;
        }
        InternerStats { unique_strings: self.strings.len(), estimated_memory_saved: saved, poison_events: self.poison_count }
    }
}

} // verus!
