//! Tags of a rule, such as MITRE ATT&CK tactics and techniques.
use vstd::prelude::*;

use crate::text::{string_views, vec_contains_string};

verus! {

/// Tags contains a metadata list for tying positive matches together with other threat intel sources
/// For example, for attaching MITRE ATT&CK tactics or techniques to the event
#[derive(Debug)]
pub struct Tags(pub Vec<String>);

/// `tag` is among the tags `have`.
pub open spec fn has_tag(have: Seq<String>, tag: Seq<char>) -> bool {
    string_views(have).contains(tag)
}

/// Every tag of `want` is among `have`.
pub open spec fn has_all_spec(have: Seq<String>, want: Seq<String>) -> bool {
    forall|i: int| 0 <= i < want.len() ==> has_tag(have, #[trigger] want[i]@)
}

/// Some tag of `want` is among `have`.
pub open spec fn has_any_spec(have: Seq<String>, want: Seq<String>) -> bool {
    exists|i: int| 0 <= i < want.len() && has_tag(have, #[trigger] want[i]@)
}

/// Whether every tag of `want` is in `have`.
pub fn all_tags_present(have: &Vec<String>, want: &[String]) -> (r: bool)
    ensures
        r == has_all_spec(have@, want@),
{
    let mut i: usize = 0;
    while i < want.len()
        invariant
            i <= want@.len(),
            forall|j: int| 0 <= j < i ==> has_tag(have@, #[trigger] want@[j]@),
        decreases want.len() - i,
    {
        if !vec_contains_string(have, want[i].as_str()) {
            assert(!has_tag(have@, want@[i as int]@));
            return false;
        }
        i = i + 1;
    }
    true
}

impl Tags {
    /// Create new empty tags collection
    pub fn new() -> (r: Self)
        ensures
            r.0@ == Seq::<String>::empty(),
    {
        Tags(Vec::new())
    }

    /// Create tags from a vector of strings
    pub fn from_vec(tags: Vec<String>) -> (r: Self)
        ensures
            r.0 == tags,
    {
        Tags(tags)
    }

    /// Check if all provided tags are present in this collection
    pub fn has_all(&self, tags: &[String]) -> (r: bool)
        ensures
            r == has_all_spec(self.0@, tags@),
    {
        all_tags_present(&self.0, tags)
    }

    /// Check if any of the provided tags are present in this collection
    pub fn has_any(&self, tags: &[String]) -> (r: bool)
        ensures
            r == has_any_spec(self.0@, tags@),
    {
        let mut i: usize = 0;
        while i < tags.len()
            invariant
                i <= tags@.len(),
                forall|j: int| 0 <= j < i ==> !has_tag(self.0@, #[trigger] tags@[j]@),
            decreases tags.len() - i,
        {
            if vec_contains_string(&self.0, tags[i].as_str()) {
                assert(has_tag(self.0@, tags@[i as int]@));
                return true;
            }
            i = i + 1;
        }
        false
    }

    /// Add a tag to the collection, unless it is there already
    pub fn add(&mut self, tag: String)
        ensures
            has_tag(old(self).0@, tag@) ==> final(self).0@ == old(self).0@,
            !has_tag(old(self).0@, tag@) ==> final(self).0@ == old(self).0@.push(tag),
    {
        if !vec_contains_string(&self.0, tag.as_str()) {
            self.0.push(tag);
        }
    }

    /// Get underlying vector reference
    pub fn as_vec(&self) -> (r: &Vec<String>)
        ensures
            *r == self.0,
    {
        &self.0
    }

    /// Get mutable reference to underlying vector
    pub fn as_mut_vec(&mut self) -> (r: &mut Vec<String>)
        ensures
            *r == old(self).0,
            final(self).0 == *final(r),
    {
        &mut self.0
    }
}

impl From<Vec<String>> for Tags {
    fn from(tags: Vec<String>) -> (r: Self) {
        Tags(tags)
    }
}

impl vstd::std_specs::convert::FromSpecImpl<Vec<String>> for Tags {
    open spec fn obeys_from_spec() -> bool {
        true
    }

    open spec fn from_spec(tags: Vec<String>) -> Self {
        Tags(tags)
    }
}

} // verus!
