//! The fields of the Arrow schema that events are laid out in.
//!
//! A schema starts with the fields every event has, `timestamp` and
//! `hostname`, and each field added after them is nullable and named once:
//! adding a name that is already there leaves the schema as it is. The
//! Arrow schema itself is made from this list by its user.
use vstd::prelude::*;

use crate::text::{owned, str_eq};

verus! {

/// The Arrow type of a column.
#[derive(Debug, Clone, Copy, PartialEq, Eq, Structural)]
pub enum ColumnType {
    /// UTF-8 text
    Utf8,
    /// 64-bit signed integers
    Int64,
    /// 64-bit floating point numbers
    Float64,
    /// Booleans
    Boolean,
}

/// The fields' names, in order.
pub open spec fn field_names(fields: Seq<(String, ColumnType)>) -> Seq<Seq<char>> {
    fields.map_values(|f: (String, ColumnType)| f.0@)
}

/// The names of fields given by name and type.
pub open spec fn names_of(fields: Seq<(Seq<char>, ColumnType)>) -> Seq<Seq<char>> {
    fields.map_values(|f: (Seq<char>, ColumnType)| f.0)
}

/// The fields after adding one: a name that is already there leaves them
/// as they are; a new one goes last.
pub open spec fn with_field(fields: Seq<(Seq<char>, ColumnType)>, name: Seq<char>, ty: ColumnType) -> Seq<(Seq<char>, ColumnType)> {
    if names_of(fields).contains(name) {
        fields
    } else {
        fields.push((name, ty))
    }
}

/// Whether a field of that name is there.
fn has_field(fields: &[(String, ColumnType)], name: &str) -> (r: bool)
    ensures
        r == field_names(fields@).contains(name@),
{
    let mut i: usize = 0;
    while i < fields.len()
        invariant
            i <= fields@.len(),
            forall|j: int| 0 <= j < i ==> fields@[j].0@ != name@,
        decreases fields@.len() - i,
    {
        if str_eq(fields[i].0.as_str(), name) {
            assert(field_names(fields@)[i as int] == name@);
            return true;
        }
        i = i + 1;
    }
    proof {
        if field_names(fields@).contains(name@) {
            let k = choose|k: int| 0 <= k < field_names(fields@).len() && field_names(fields@)[k] == name@;
            assert(fields@[k].0@ == name@);
        }
    }
    false
}

/// Builder for creating Arrow schemas from Sigma rules
#[derive(Debug)]
pub struct ArrowSchemaBuilder {
    fields: Vec<(String, ColumnType)>,
}

impl ArrowSchemaBuilder {
    /// The fields, by name and type, in order.
    pub closed spec fn fields_spec(&self) -> Seq<(Seq<char>, ColumnType)> {
        self.fields@.map_values(|f: (String, ColumnType)| (f.0@, f.1))
    }

    /// No name occurs twice.
    pub open spec fn wf(&self) -> bool {
        names_of(self.fields_spec()).no_duplicates()
    }

    /// Create a new schema builder holding the fields every event has.
    pub fn new() -> (r: Self)
        ensures
            r.wf(),
            r.fields_spec() == seq![("timestamp"@, ColumnType::Utf8), ("hostname"@, ColumnType::Utf8)],
    {
        let mut fields: Vec<(String, ColumnType)> = Vec::new();
        fields.push((owned("timestamp"), ColumnType::Utf8));
        fields.push((owned("hostname"), ColumnType::Utf8));
        let r = ArrowSchemaBuilder { fields };
        proof {
            reveal_strlit("timestamp");
            reveal_strlit("hostname");
            assert(field_names(r.fields@) =~= seq!["timestamp"@, "hostname"@]);
            assert(r.fields_spec() =~= seq![("timestamp"@, ColumnType::Utf8), ("hostname"@, ColumnType::Utf8)]);
            assert("timestamp"@[0] != "hostname"@[0]);
        }
        r
    }

    /// Add a nullable field, unless one of that name is there already.
    pub fn add_field(self, name: &str, data_type: ColumnType) -> (r: Self)
        requires
            self.wf(),
        ensures
            r.wf(),
            r.fields_spec() == with_field(self.fields_spec(), name@, data_type),
    {
        let ghost before = self.fields@;
        proof {
            assert(names_of(self.fields_spec()) =~= field_names(before));
        }
        let mut fields = self.fields;
        if !has_field(fields.as_slice(), name) {
            fields.push((owned(name), data_type));
            proof {
                assert(field_names(fields@) =~= field_names(before).push(name@));
                assert forall|a: int, b: int|
                    0 <= a < b < field_names(fields@).len() implies field_names(fields@)[a] != field_names(fields@)[b] by {
                    if b == before.len() {
                        assert(field_names(before)[a] == field_names(fields@)[a]);
                        assert(field_names(before).contains(field_names(before)[a]));
                    } else {
                        assert(field_names(before)[a] == field_names(fields@)[a]);
                        assert(field_names(before)[b] == field_names(fields@)[b]);
                    }
                }
                assert(fields@.map_values(|f: (String, ColumnType)| (f.0@, f.1)) =~= before.map_values(
                    |f: (String, ColumnType)| (f.0@, f.1),
                ).push((name@, data_type)));
            }
        }
        let r = ArrowSchemaBuilder { fields };
        proof {
            assert(names_of(r.fields_spec()) =~= field_names(r.fields@));
        }
        r
    }

    /// Add a string field
    pub fn add_string_field(self, name: &str) -> (r: Self)
        requires
            self.wf(),
        ensures
            r.wf(),
            r.fields_spec() == with_field(self.fields_spec(), name@, ColumnType::Utf8),
    {
        self.add_field(name, ColumnType::Utf8)
    }

    /// Add an integer field
    pub fn add_int_field(self, name: &str) -> (r: Self)
        requires
            self.wf(),
        ensures
            r.wf(),
            r.fields_spec() == with_field(self.fields_spec(), name@, ColumnType::Int64),
    {
        self.add_field(name, ColumnType::Int64)
    }

    /// Add a float field
    pub fn add_float_field(self, name: &str) -> (r: Self)
        requires
            self.wf(),
        ensures
            r.wf(),
            r.fields_spec() == with_field(self.fields_spec(), name@, ColumnType::Float64),
    {
        self.add_field(name, ColumnType::Float64)
    }

    /// Add a boolean field
    pub fn add_bool_field(self, name: &str) -> (r: Self)
        requires
            self.wf(),
        ensures
            r.wf(),
            r.fields_spec() == with_field(self.fields_spec(), name@, ColumnType::Boolean),
    {
        self.add_field(name, ColumnType::Boolean)
    }

    /// The fields the schema is built from, by name and type, in order;
    /// every field is nullable.
    pub fn fields(&self) -> (r: &[(String, ColumnType)])
        ensures
            r@.map_values(|f: (String, ColumnType)| (f.0@, f.1)) == self.fields_spec(),
    {
        self.fields.as_slice()
    }
}

} // verus!
