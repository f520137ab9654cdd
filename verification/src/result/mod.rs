//! Results of positive rule matches.
use vstd::prelude::*;

use vstd::std_specs::iter::IteratorSpec;
use crate::pattern::security::byte_len;
use crate::text::{digits_of, owned, usize_to_decimal};
use vstd::string::StringExecFns;

verus! {

/// Maximum length for Result ID and title fields (256 characters)
pub const MAX_ID_TITLE_LENGTH: usize = 256;

/// Maximum length for Result description field (1 MB)
pub const MAX_DESCRIPTION_LENGTH: usize = 1048576;

/// Maximum number of tags allowed
pub const MAX_TAGS: usize = 100;

/// Maximum length for each tag
pub const MAX_TAG_LENGTH: usize = 128;

/// Result of a positive Sigma rule match: the rule's metadata and tags.
#[derive(Debug)]
pub struct Result {
    /// Tags associated with this detection (e.g., MITRE ATT&CK tags)
    pub tags: Vec<String>,
    /// Unique identifier for the rule that matched
    pub id: String,
    /// Human-readable title of the rule
    pub title: String,
    /// Detailed description of what the rule detects
    pub description: String,
}

impl Result {
    /// Creates a new Result with the specified rule metadata
    pub fn new(id: String, title: String, description: String) -> (r: Self)
        ensures
            r.tags@.len() == 0,
            r.id == id,
            r.title == title,
            r.description == description,
    {
        Result { tags: Vec::new(), id, title, description }
    }

    /// Adds tags to this Result
    pub fn with_tags(self, tags: Vec<String>) -> (r: Self)
        ensures
            r == (Result { tags, ..self }),
    {
        let mut r = self;
        r.tags = tags;
        r
    }
}

/// The message for a field longer than allowed.
pub open spec fn too_long_message(field: Seq<char>, max_len: nat, got: nat) -> Seq<char> {
    field + " exceeds maximum length of "@ + digits_of(max_len) + " characters (got "@ + digits_of(got) + ")"@
}

fn too_long(field: &str, max_len: usize, got: usize) -> (r: String)
    ensures
        r@ == too_long_message(field@, max_len as nat, got as nat),
{
    owned(field).concat(" exceeds maximum length of ").concat(usize_to_decimal(max_len).as_str()).concat(
        " characters (got ",
    ).concat(usize_to_decimal(got).as_str()).concat(")")
}

/// Check the length of a text field: at most `max_len` bytes.
pub fn validate_string(s: &str, max_len: usize, field_name: &str) -> (r: core::result::Result<(), String>)
    ensures
        byte_len(s@) <= max_len ==> r is Ok,
        byte_len(s@) > max_len ==> (r matches Err(m) && m@ == too_long_message(
            field_name@,
            max_len as nat,
            byte_len(s@) as nat,
        )),
{
    let n = s.len();
    if n > max_len {
        return Err(too_long(field_name, max_len, n));
    }
    Ok(())
}

/// The message for a list of tags that is too long.
pub open spec fn too_many_tags_message(got: nat) -> Seq<char> {
    "Too many tags: maximum "@ + digits_of(MAX_TAGS as nat) + " allowed (got "@ + digits_of(got) + ")"@
}

/// The message for a tag that is too long.
pub open spec fn tag_too_long_message(i: nat, got: nat) -> Seq<char> {
    "Tag at index "@ + digits_of(i) + " exceeds maximum length of "@ + digits_of(MAX_TAG_LENGTH as nat)
        + " characters (got "@ + digits_of(got) + ")"@
}

/// Check a list of tags: at most `MAX_TAGS` of them, each at most
/// `MAX_TAG_LENGTH` bytes; the first tag that is too long is reported.
pub fn validate_tags(tags: &Vec<String>) -> (r: core::result::Result<(), String>)
    ensures
        tags@.len() > MAX_TAGS ==> (r matches Err(m) && m@ == too_many_tags_message(tags@.len())),
        tags@.len() <= MAX_TAGS ==> match r {
            Ok(_) => forall|i: int| 0 <= i < tags@.len() ==> byte_len(#[trigger] tags@[i]@) <= MAX_TAG_LENGTH,
            Err(m) => exists|i: int|
                0 <= i < tags@.len() && byte_len(#[trigger] tags@[i]@) > MAX_TAG_LENGTH && (forall|j: int|
                    0 <= j < i ==> byte_len(tags@[j]@) <= MAX_TAG_LENGTH) && m@ == tag_too_long_message(
                    i as nat,
                    byte_len(tags@[i]@) as nat,
                ),
        },
{
    if tags.len() > MAX_TAGS {
        let msg = owned("Too many tags: maximum ").concat(usize_to_decimal(MAX_TAGS).as_str()).concat(
            " allowed (got ",
        ).concat(usize_to_decimal(tags.len()).as_str()).concat(")");
        return Err(msg);
    }
    let mut i: usize = 0;
    while i < tags.len()
        invariant
            i <= tags@.len(),
            tags@.len() <= MAX_TAGS,
            forall|j: int| 0 <= j < i ==> byte_len(#[trigger] tags@[j]@) <= MAX_TAG_LENGTH,
        decreases tags.len() - i,
    {
        let n = tags[i].as_str().len();
        if n > MAX_TAG_LENGTH {
            let msg = owned("Tag at index ").concat(usize_to_decimal(i).as_str()).concat(
                " exceeds maximum length of ",
            ).concat(usize_to_decimal(MAX_TAG_LENGTH).as_str()).concat(" characters (got ").concat(
                usize_to_decimal(n).as_str(),
            ).concat(")");
            return Err(msg);
        }
        i = i + 1;
    }
    Ok(())
}

/// Check the fields of a result read from outside: id and title at most
/// `MAX_ID_TITLE_LENGTH` bytes, description at most `MAX_DESCRIPTION_LENGTH`,
/// and the tags as `validate_tags` checks them; the first problem found, in
/// that order, is reported.
pub fn validate_result(r: &Result) -> (out: core::result::Result<(), String>)
    ensures
        out is Ok <==> (byte_len(r.id@) <= MAX_ID_TITLE_LENGTH && byte_len(r.title@) <= MAX_ID_TITLE_LENGTH
            && byte_len(r.description@) <= MAX_DESCRIPTION_LENGTH && tags_ok(r.tags@)),
{
    validate_string(r.id.as_str(), MAX_ID_TITLE_LENGTH, "id")?;
    validate_string(r.title.as_str(), MAX_ID_TITLE_LENGTH, "title")?;
    validate_string(r.description.as_str(), MAX_DESCRIPTION_LENGTH, "description")?;
    validate_tags(&r.tags)
}

/// The tags are within the limits.
pub open spec fn tags_ok(tags: Seq<String>) -> bool {
    tags.len() <= MAX_TAGS && forall|i: int| 0 <= i < tags.len() ==> byte_len(#[trigger] tags[i]@) <= MAX_TAG_LENGTH
}

/// Collection of Results from multiple rule matches
#[derive(Debug)]
pub struct Results(pub Vec<Result>);

impl Results {
    /// Creates a new empty Results collection
    pub fn new() -> (r: Self)
        ensures
            r.0@.len() == 0,
    {
        Results(Vec::new())
    }

    /// Adds a Result to the collection
    pub fn push(&mut self, result: Result)
        ensures
            final(self).0@ == old(self).0@.push(result),
    {
        self.0.push(result);
    }

    /// Returns true if the collection contains no results
    pub fn is_empty(&self) -> (r: bool)
        ensures
            r == (self.0@.len() == 0),
    {
        self.0.len() == 0
    }

    /// Returns the number of results in the collection
    pub fn len(&self) -> (r: usize)
        ensures
            r == self.0@.len(),
    {
        self.0.len()
    }

    /// Returns an iterator over the results
    pub fn iter(&self) -> (r: std::slice::Iter<'_, Result>)
        ensures
            IteratorSpec::remaining(&r) == self.0@.as_ref(),
    {
        self.0.as_slice().iter()
    }

    /// The results as a slice
    pub fn as_slice(&self) -> (r: &[Result])
        ensures
            r@ == self.0@,
    {
        self.0.as_slice()
    }

    /// The results, in order
    pub fn into_vec(self) -> (r: Vec<Result>)
        ensures
            r == self.0,
    {
        self.0
    }
}

impl From<Vec<Result>> for Results {
    fn from(results: Vec<Result>) -> (r: Self) {
        Results(results)
    }
}

impl vstd::std_specs::convert::FromSpecImpl<Vec<Result>> for Results {
    open spec fn obeys_from_spec() -> bool {
        true
    }

    open spec fn from_spec(results: Vec<Result>) -> Self {
        Results(results)
    }
}

} // verus!
