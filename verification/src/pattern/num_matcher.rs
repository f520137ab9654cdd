//! Numeric pattern matching implementations
use vstd::prelude::*;

verus! {

/// Pattern for exact numeric matching
#[derive(Debug, Clone)]
pub struct NumPattern {
    /// The numeric value to match
    pub value: i64,
}

impl NumPattern {
    /// Whether the value equals the pattern's value
    pub fn num_match(&self, value: i64) -> (r: bool)
        ensures
            r == (self.value == value),
    {
        self.value == value
    }
}

/// Collection of numeric matchers (OR logic)
#[derive(Debug)]
pub struct NumMatchers {
    matchers: Vec<NumPattern>,
}

impl View for NumMatchers {
    type V = Seq<i64>;

    closed spec fn view(&self) -> Seq<i64> {
        self.matchers@.map_values(|p: NumPattern| p.value)
    }
}

impl NumMatchers {
    /// Create a new collection of numeric matchers
    pub fn new(matchers: Vec<NumPattern>) -> (r: Self)
        ensures
            r@ == matchers@.map_values(|p: NumPattern| p.value),
    {
        NumMatchers { matchers }
    }

    /// Whether one of the patterns matches the value
    pub fn num_match(&self, value: i64) -> (r: bool)
        ensures
            r == self@.contains(value),
    {
        let mut i: usize = 0;
        while i < self.matchers.len()
            invariant
                i <= self.matchers@.len(),
                forall|j: int| 0 <= j < i ==> self.matchers@[j].value != value,
            decreases self.matchers.len() - i,
        {
            if self.matchers[i].num_match(value) {
                assert(self@[i as int] == value);
                return true;
            }
            i = i + 1;
        }
        assert forall|j: int| 0 <= j < self@.len() implies self@[j] != value by {
            assert(self@[j] == self.matchers@[j].value);
        }
        false
    }
}

/// A numeric matcher of any kind.
#[derive(Debug)]
pub enum NumMatcher {
    /// A single value
    Single(NumPattern),
    /// One of several values
    Many(NumMatchers),
}

/// The values a numeric matcher accepts.
pub open spec fn num_matcher_values(m: NumMatcher) -> Seq<i64> {
    match m {
        NumMatcher::Single(p) => seq![p.value],
        NumMatcher::Many(ms) => ms@,
    }
}

impl NumMatcher {
    /// Whether the matcher accepts the value
    pub fn num_match(&self, value: i64) -> (r: bool)
        ensures
            r == num_matcher_values(*self).contains(value),
    {
        match self {
            NumMatcher::Single(p) => {
                let r = p.num_match(value);
                assert(r ==> seq![p.value][0] == value);
                r
            },
            NumMatcher::Many(ms) => ms.num_match(value),
        }
    }
}

} // verus!
