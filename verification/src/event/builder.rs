//! A builder of events for tests and examples.
//!
//! Fields are kept as a JSON object keeps its properties: one value per name,
//! in the order of the names.
use vstd::prelude::*;

use super::{lookup_field, SimpleEvent, Value};
use crate::text::chars_of;

verus! {

/// `a` comes before `b` in the order of their characters' code points,
/// which is the order of their UTF-8 bytes.
pub open spec fn name_before(a: Seq<char>, b: Seq<char>) -> bool
    decreases a.len(),
{
    if a.len() == 0 {
        b.len() > 0
    } else if b.len() == 0 {
        false
    } else if a[0] < b[0] {
        true
    } else if a[0] > b[0] {
        false
    } else {
        name_before(a.drop_first(), b.drop_first())
    }
}

/// The fields after setting `name` to `value` in fields ordered by name: the
/// value is replaced where the name is present, else inserted before the
/// first greater name.
pub open spec fn set_field(fields: Seq<(Seq<char>, Value)>, name: Seq<char>, value: Value) -> Seq<
    (Seq<char>, Value),
>
    decreases fields.len(),
{
    if fields.len() == 0 {
        seq![(name, value)]
    } else if name_before(fields[0].0, name) {
        seq![fields[0]] + set_field(fields.drop_first(), name, value)
    } else if fields[0].0 == name {
        fields.update(0, (name, value))
    } else {
        seq![(name, value)] + fields
    }
}

/// The fields are strictly ordered by name, so each name occurs once.
pub open spec fn names_ordered(fields: Seq<(Seq<char>, Value)>) -> bool {
    forall|i: int, j: int| 0 <= i < j < fields.len() ==> name_before(#[trigger] fields[i].0, #[trigger] fields[j].0)
}

proof fn lemma_name_before_irreflexive(a: Seq<char>)
    ensures
        !name_before(a, a),
    decreases a.len(),
{
    if a.len() > 0 {
        lemma_name_before_irreflexive(a.drop_first());
    }
}

proof fn lemma_name_before_total(a: Seq<char>, b: Seq<char>)
    ensures
        a == b || name_before(a, b) || name_before(b, a),
    decreases a.len(),
{
    if a.len() > 0 && b.len() > 0 && a[0] == b[0] {
        lemma_name_before_total(a.drop_first(), b.drop_first());
        if a.drop_first() == b.drop_first() {
            assert(a =~= seq![a[0]] + a.drop_first());
            assert(b =~= seq![b[0]] + b.drop_first());
        }
    } else if a.len() == 0 && b.len() == 0 {
        assert(a =~= b);
    }
}

proof fn lemma_name_before_asymmetric(a: Seq<char>, b: Seq<char>)
    requires
        name_before(a, b),
    ensures
        !name_before(b, a),
    decreases a.len(),
{
    if a.len() > 0 && b.len() > 0 && a[0] == b[0] {
        lemma_name_before_asymmetric(a.drop_first(), b.drop_first());
    }
}

proof fn lemma_name_before_transitive(a: Seq<char>, b: Seq<char>, c: Seq<char>)
    requires
        name_before(a, b),
        name_before(b, c),
    ensures
        name_before(a, c),
    decreases a.len(),
{
    if a.len() > 0 && b.len() > 0 && c.len() > 0 && a[0] == b[0] && b[0] == c[0] {
        lemma_name_before_transitive(a.drop_first(), b.drop_first(), c.drop_first());
    }
}

/// Setting a field keeps the fields ordered by name, each name once.
pub proof fn lemma_set_field_keeps_order(fields: Seq<(Seq<char>, Value)>, name: Seq<char>, value: Value)
    requires
        names_ordered(fields),
    ensures
        names_ordered(set_field(fields, name, value)),
        forall|i: int|
            0 <= i < set_field(fields, name, value).len() ==> (#[trigger] set_field(fields, name, value)[i]).0
                == name || exists|j: int| 0 <= j < fields.len() && fields[j].0 == set_field(fields, name, value)[i].0,
    decreases fields.len(),
{
    let r = set_field(fields, name, value);
    if fields.len() == 0 {
    } else if name_before(fields[0].0, name) {
        let rest = fields.drop_first();
        assert(names_ordered(rest)) by {
            assert forall|i: int, j: int| 0 <= i < j < rest.len() implies name_before(#[trigger] rest[i].0, #[trigger] rest[j].0) by {
                assert(rest[i] == fields[i + 1] && rest[j] == fields[j + 1]);
            }
        }
        lemma_set_field_keeps_order(rest, name, value);
        let tail = set_field(rest, name, value);
        assert(r == seq![fields[0]] + tail);
        assert forall|i: int, j: int| 0 <= i < j < r.len() implies name_before(#[trigger] r[i].0, #[trigger] r[j].0) by {
            if i == 0 {
                let t = tail[j - 1];
                assert(r[j] == t);
                if t.0 == name {
                } else {
                    let q = choose|q: int| 0 <= q < rest.len() && rest[q].0 == t.0;
                    assert(rest[q] == fields[q + 1]);
                }
            } else {
                assert(r[i] == tail[i - 1] && r[j] == tail[j - 1]);
            }
        }
        assert forall|i: int| 0 <= i < r.len() implies (#[trigger] r[i]).0 == name || exists|j: int|
            0 <= j < fields.len() && fields[j].0 == r[i].0 by {
            if i > 0 {
                assert(r[i] == tail[i - 1]);
                if tail[i - 1].0 != name {
                    let q = choose|q: int| 0 <= q < rest.len() && rest[q].0 == tail[i - 1].0;
                    assert(rest[q] == fields[q + 1]);
                }
            } else {
                assert(fields[0].0 == r[0].0);
            }
        }
    } else if fields[0].0 == name {
        assert forall|i: int| 0 <= i < r.len() implies (#[trigger] r[i]).0 == name || exists|j: int|
            0 <= j < fields.len() && fields[j].0 == r[i].0 by {
            assert(r[i].0 == fields[i].0);
        }
    } else {
        lemma_name_before_total(fields[0].0, name);
        assert(r == seq![(name, value)] + fields);
        assert forall|i: int, j: int| 0 <= i < j < r.len() implies name_before(#[trigger] r[i].0, #[trigger] r[j].0) by {
            if i == 0 {
                assert(r[j] == fields[j - 1]);
                if j - 1 > 0 {
                    assert(name_before(fields[0].0, fields[j - 1].0));
                    lemma_name_before_transitive(name, fields[0].0, fields[j - 1].0);
                }
            } else {
                assert(r[i] == fields[i - 1] && r[j] == fields[j - 1]);
            }
        }
        assert forall|i: int| 0 <= i < r.len() implies (#[trigger] r[i]).0 == name || exists|j: int|
            0 <= j < fields.len() && fields[j].0 == r[i].0 by {
            if i > 0 {
                assert(r[i] == fields[i - 1]);
            }
        }
    }
}

/// A field read after it was set gives the value set; every other field
/// reads as before.
#[verifier::spinoff_prover]
pub proof fn lemma_set_field_then_lookup(fields: Seq<(Seq<char>, Value)>, name: Seq<char>, value: Value, key: Seq<char>)
    ensures
        lookup_field(set_field(fields, name, value), key) == (if key == name {
            Some(value)
        } else {
            lookup_field(fields, key)
        }),
    decreases fields.len(),
{
    if fields.len() == 0 {
        let r = set_field(fields, name, value);
        assert(r == seq![(name, value)]);
        assert(r.len() == 1);
        assert(r.drop_first() =~= Seq::<(Seq<char>, Value)>::empty());
        assert(r[0] == (name, value));
        assert(lookup_field(fields, key) == None::<Value>);
        assert(lookup_field(r.drop_first(), key) == None::<Value>);
        assert(lookup_field(set_field(fields, name, value), key) == (if key == name {
            Some(value)
        } else {
            lookup_field(fields, key)
        }));
    } else if name_before(fields[0].0, name) {
        lemma_set_field_then_lookup(fields.drop_first(), name, value, key);
        let r = set_field(fields, name, value);
        assert(r.drop_first() =~= set_field(fields.drop_first(), name, value));
        assert(r[0] == fields[0]);
        if key == name {
            lemma_name_before_irreflexive(name);
        }
        assert(lookup_field(set_field(fields, name, value), key) == (if key == name {
            Some(value)
        } else {
            lookup_field(fields, key)
        }));
    } else if fields[0].0 == name {
        let r = set_field(fields, name, value);
        assert(r.drop_first() =~= fields.drop_first());
        assert(r[0] == (name, value));
        assert(lookup_field(set_field(fields, name, value), key) == (if key == name {
            Some(value)
        } else {
            lookup_field(fields, key)
        }));
    } else {
        let r = set_field(fields, name, value);
        assert(r.drop_first() =~= fields);
        assert(r[0] == (name, value));
        assert(lookup_field(set_field(fields, name, value), key) == (if key == name {
            Some(value)
        } else {
            lookup_field(fields, key)
        }));
    }
}

/// Whether `a` comes before `b` (see `name_before`).
fn chars_before(a: &[char], b: &[char]) -> (r: bool)
    ensures
        r == name_before(a@, b@),
{
    let mut i: usize = 0;
    assert(a@.skip(0) =~= a@ && b@.skip(0) =~= b@);
    while i < a.len() && i < b.len()
        invariant
            i <= a@.len(),
            i <= b@.len(),
            name_before(a@, b@) == name_before(a@.skip(i as int), b@.skip(i as int)),
        decreases a.len() - i,
    {
        let ghost (sa, sb) = (a@.skip(i as int), b@.skip(i as int));
        assert(sa[0] == a@[i as int] && sb[0] == b@[i as int]);
        if a[i] < b[i] {
            return true;
        }
        if a[i] > b[i] {
            return false;
        }
        assert(sa.drop_first() =~= a@.skip(i + 1));
        assert(sb.drop_first() =~= b@.skip(i + 1));
        i = i + 1;
    }
    i == a.len() && i < b.len()
}

/// Builder for creating test events
#[derive(Debug)]
pub struct EventBuilder {
    fields: Vec<(String, Value)>,
    timestamp: Option<i64>,
}

impl EventBuilder {
    /// The fields set so far, ordered by name.
    pub closed spec fn fields_spec(&self) -> Seq<(Seq<char>, Value)> {
        self.fields@.map_values(|f: (String, Value)| (f.0@, f.1))
    }

    /// The timestamp set, if any.
    pub closed spec fn timestamp_spec(&self) -> Option<i64> {
        self.timestamp
    }

    /// Create a new EventBuilder
    pub fn new() -> (r: Self)
        ensures
            r.fields_spec() == Seq::<(Seq<char>, Value)>::empty(),
            r.timestamp_spec() is None,
    {
        let r = EventBuilder { fields: Vec::new(), timestamp: None };
        assert(r.fields_spec() =~= Seq::<(Seq<char>, Value)>::empty());
        r
    }

    /// Add a field to the event, replacing the value of a field of that name
    pub fn field(self, key: String, value: Value) -> (r: Self)
        ensures
            r.fields_spec() == set_field(self.fields_spec(), key@, value),
            r.timestamp_spec() == self.timestamp_spec(),
    {
        let ghost old_fields = self.fields_spec();
        let ghost v = value;
        let mut fields = self.fields;
        let key_chars = chars_of(key.as_str());
        let mut i: usize = 0;
        assert(old_fields.skip(0) =~= old_fields);
        assert(old_fields.take(0) + set_field(old_fields.skip(0), key@, v) =~= set_field(
            old_fields,
            key@,
            v,
        ));
        while i < fields.len()
            invariant
                i <= fields@.len(),
                old_fields == fields@.map_values(|f: (String, Value)| (f.0@, f.1)),
                key_chars@ == key@,
                v == value,
                old_fields == self.fields_spec(),
                set_field(old_fields, key@, v) == old_fields.take(i as int) + set_field(
                    old_fields.skip(i as int),
                    key@,
                    v,
                ),
            decreases fields.len() - i,
        {
            let ghost rest = old_fields.skip(i as int);
            assert(rest[0] == old_fields[i as int]);
            let name = chars_of(fields[i].0.as_str());
            if !chars_before(&name, &key_chars) {
                let ghost x = (key@, v);
                let ghost before = fields@;
                if crate::text::chars_eq(&name, &key_chars) {
                    fields.set(i, (key, value));
                    assert(fields@ == before.update(i as int, fields@[i as int]));
                    assert(fields@[i as int].0@ == x.0 && fields@[i as int].1 == x.1);
                    assert(set_field(rest, x.0, v) == rest.update(0, x));
                    assert(fields@.map_values(|f: (String, Value)| (f.0@, f.1)) =~= old_fields.update(
                        i as int,
                        x,
                    ));
                    assert(old_fields.take(i as int) + rest.update(0, x) =~= old_fields.update(i as int, x));
                } else {
                    fields.insert(i, (key, value));
                    assert(fields@ == before.insert(i as int, fields@[i as int]));
                    assert(fields@[i as int].0@ == x.0 && fields@[i as int].1 == x.1);
                    assert(set_field(rest, x.0, v) == seq![x] + rest);
                    assert(fields@.map_values(|f: (String, Value)| (f.0@, f.1)) =~= old_fields.insert(
                        i as int,
                        x,
                    ));
                    assert(old_fields.take(i as int) + (seq![x] + rest) =~= old_fields.insert(i as int, x));
                }
                return EventBuilder { fields, timestamp: self.timestamp };
            }
            assert(set_field(rest, key@, v) == seq![rest[0]] + set_field(rest.drop_first(), key@, v));
            assert(rest.drop_first() =~= old_fields.skip(i + 1));
            assert(old_fields.take(i + 1) =~= old_fields.take(i as int) + seq![rest[0]]);
            i = i + 1;
        }
        assert(old_fields.skip(i as int) =~= Seq::<(Seq<char>, Value)>::empty());
        fields.push((key, value));
        assert(fields@.map_values(|f: (String, Value)| (f.0@, f.1)) =~= set_field(old_fields, key@, v));
        EventBuilder { fields, timestamp: self.timestamp }
    }

    /// Set the timestamp for the event
    pub fn timestamp(self, timestamp: i64) -> (r: Self)
        ensures
            r.fields_spec() == self.fields_spec(),
            r.timestamp_spec() == Some(timestamp),
    {
        EventBuilder { fields: self.fields, timestamp: Some(timestamp) }
    }

    /// Build the SimpleEvent
    pub fn build(self) -> (r: SimpleEvent)
        ensures
            r.fields_spec() == self.fields_spec(),
            self.timestamp_spec() matches Some(t) ==> r.timestamp_spec() == t,
    {
        let mut event = SimpleEvent::new(self.fields);
        if let Some(ts) = self.timestamp {
            event.set_timestamp(ts);
        }
        event
    }
}

} // verus!
