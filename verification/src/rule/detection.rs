//! The detection section of a rule: named selections and the condition.
use vstd::prelude::*;

use crate::text::str_eq;

verus! {

/// A value of the detection section, as the rule file wrote it.
#[derive(Debug)]
pub enum DetectionValue {
    /// A string
    String(String),
    /// A number: its value where it is an integer that fits in an `i64`, and
    /// its text
    Number {
        /// The integer value, if the number is one that fits in an `i64`
        integer: Option<i64>,
        /// The number as written
        text: String,
    },
    /// A boolean
    Bool(bool),
    /// A list of values
    Array(Vec<DetectionValue>),
    /// Named values, in order
    Object(Vec<(String, DetectionValue)>),
    /// Null
    Null,
}

/// The value stored under the first entry named `key`.
pub open spec fn entry_value(entries: Seq<(String, DetectionValue)>, key: Seq<char>) -> Option<
    DetectionValue,
>
    decreases entries.len(),
{
    if entries.len() == 0 {
        None
    } else if entries[0].0@ == key {
        Some(entries[0].1)
    } else {
        entry_value(entries.drop_first(), key)
    }
}

/// The entries other than the condition, in order.
pub open spec fn selections(entries: Seq<(String, DetectionValue)>) -> Seq<(String, DetectionValue)> {
    entries.filter(|e: (String, DetectionValue)| e.0@ != "condition"@)
}

/// Detection holds the named selections of a rule and its condition, in the
/// order they were given.
#[derive(Debug)]
pub struct Detection {
    entries: Vec<(String, DetectionValue)>,
}

impl View for Detection {
    type V = Seq<(String, DetectionValue)>;

    closed spec fn view(&self) -> Seq<(String, DetectionValue)> {
        self.entries@
    }
}

impl Detection {
    /// An empty detection section.
    pub fn new() -> (r: Self)
        ensures
            r@ == Seq::<(String, DetectionValue)>::empty(),
    {
        Detection { entries: Vec::new() }
    }

    /// Store `value` under `key`: in place of the entry of that name if
    /// there is one, else as a new last entry.
    pub fn insert(&mut self, key: String, value: DetectionValue)
        ensures
            entry_index(old(self)@, key@) matches Some(i) ==> final(self)@ == old(self)@.update(
                i,
                (key, value),
            ),
            entry_index(old(self)@, key@) is None ==> final(self)@ == old(self)@.push((key, value)),
    {
        let ghost olds = self.entries@;
        assert(olds == old(self)@);
        let mut i: usize = 0;
        while i < self.entries.len()
            invariant
                i <= self.entries@.len(),
                self.entries@ == olds,
                olds == old(self)@,
                forall|j: int| 0 <= j < i ==> olds[j].0@ != key@,
            decreases self.entries.len() - i,
        {
            if str_eq(self.entries[i].0.as_str(), key.as_str()) {
                proof {
                    lemma_entry_index_at(olds, key@, i as int);
                }
                self.entries.set(i, (key, value));
                return;
            }
            i = i + 1;
        }
        proof {
            lemma_entry_index_none(olds, key@);
        }
        self.entries.push((key, value));
    }

    /// The value of the entry named `key`, if there is one.
    pub fn get(&self, key: &str) -> (r: Option<&DetectionValue>)
        ensures
            match entry_value(self@, key@) {
                Some(v) => r matches Some(x) && *x == v,
                None => r is None,
            },
    {
        let mut i: usize = 0;
        assert(self@.subrange(0, self@.len() as int) =~= self@);
        while i < self.entries.len()
            invariant
                i <= self@.len(),
                self@ == self.entries@,
                entry_value(self@, key@) == entry_value(self@.subrange(i as int, self@.len() as int), key@),
            decreases self.entries.len() - i,
        {
            let ghost rest = self@.subrange(i as int, self@.len() as int);
            assert(rest[0] == self@[i as int]);
            assert(rest.drop_first() =~= self@.subrange(i + 1, self@.len() as int));
            if str_eq(self.entries[i].0.as_str(), key) {
                return Some(&self.entries[i].1);
            }
            i = i + 1;
        }
        None
    }

    /// The condition of the detection, when it is stored as a string.
    pub fn condition(&self) -> (r: Option<&str>)
        ensures
            match entry_value(self@, "condition"@) {
                Some(DetectionValue::String(s)) => r matches Some(c) && c@ == s@,
                _ => r is None,
            },
    {
        match self.get("condition") {
            Some(DetectionValue::String(s)) => Some(s.as_str()),
            _ => None,
        }
    }

    /// The number of entries.
    pub fn len(&self) -> (r: usize)
        ensures
            r == self@.len(),
    {
        self.entries.len()
    }

    /// The entry at position `i`.
    pub fn entry(&self, i: usize) -> (r: (&String, &DetectionValue))
        requires
            i < self@.len(),
        ensures
            *r.0 == self@[i as int].0,
            *r.1 == self@[i as int].1,
    {
        (&self.entries[i].0, &self.entries[i].1)
    }

    /// The entries other than the condition, in order.
    pub fn extract(&self) -> (r: Vec<&(String, DetectionValue)>)
        ensures
            entry_refs(r@) == selections(self@),
    {
        let mut out: Vec<&(String, DetectionValue)> = Vec::new();
        let mut i: usize = 0;
        while i < self.entries.len()
            invariant
                i <= self@.len(),
                self@ == self.entries@,
                entry_refs(out@) == selections(self@.take(i as int)),
            decreases self.entries.len() - i,
        {
            let ghost pre = self@.take(i as int);
            assert(self@.take(i + 1) =~= pre.push(self@[i as int]));
            proof {
                pre.lemma_filter_push(self@[i as int], |e: (String, DetectionValue)| e.0@ != "condition"@);
            }
            let ghost before = out@;
            if !str_eq(self.entries[i].0.as_str(), "condition") {
                out.push(&self.entries[i]);
                assert(entry_refs(out@) =~= entry_refs(before).push(self@[i as int]));
            }
            i = i + 1;
        }
        assert(self@.take(self@.len() as int) =~= self@);
        out
    }
}

/// The entries that a list of references points at.
pub open spec fn entry_refs(v: Seq<&(String, DetectionValue)>) -> Seq<(String, DetectionValue)> {
    v.map_values(|e: &(String, DetectionValue)| *e)
}

/// The position of the first entry named `key`.
pub open spec fn entry_index(entries: Seq<(String, DetectionValue)>, key: Seq<char>) -> Option<int> {
    if exists|i: int| 0 <= i < entries.len() && entries[i].0@ == key {
        let i = choose|i: int|
            0 <= i < entries.len() && entries[i].0@ == key && forall|j: int|
                0 <= j < i ==> entries[j].0@ != key;
        Some(i)
    } else {
        None
    }
}

proof fn lemma_entry_index_at(entries: Seq<(String, DetectionValue)>, key: Seq<char>, i: int)
    requires
        0 <= i < entries.len(),
        entries[i].0@ == key,
        forall|j: int| 0 <= j < i ==> entries[j].0@ != key,
    ensures
        entry_index(entries, key) == Some(i),
{
    assert(0 <= i < entries.len() && entries[i].0@ == key && forall|j: int|
        0 <= j < i ==> entries[j].0@ != key);
    let k = choose|k: int|
        0 <= k < entries.len() && entries[k].0@ == key && forall|j: int|
            0 <= j < k ==> entries[j].0@ != key;
    assert(0 <= k < entries.len() && entries[k].0@ == key && forall|j: int|
        0 <= j < k ==> entries[j].0@ != key);
    if k < i {
        assert(entries[k].0@ != key);
    }
    if i < k {
        assert(entries[i].0@ != key);
    }
}

proof fn lemma_entry_index_none(entries: Seq<(String, DetectionValue)>, key: Seq<char>)
    requires
        forall|j: int| 0 <= j < entries.len() ==> entries[j].0@ != key,
    ensures
        entry_index(entries, key) is None,
{
}

} // verus!
