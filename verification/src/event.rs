//! Core traits for event processing in the Sigma rule engine
use vstd::prelude::*;

pub mod builder;

pub use builder::EventBuilder;
use crate::clock::unix_now_seconds;
use crate::text::{chars_eq, chars_of, str_eq, string_views};

verus! {

/// A floating point field value, held as what matching reads of it: the
/// integer written when the value is matched as a string (the value cast to
/// `i64`, or 0 for a value that is not finite) and the integer it is compared
/// as when matched numerically (its truncation, if that fits in an `i64`).
#[derive(Debug, Clone, Copy, PartialEq, Eq, Structural)]
pub struct FloatRepr {
    /// The integer written for the value in string matching
    pub as_string_int: i64,
    /// The integer the value is compared as in numeric matching
    pub as_numeric: Option<i64>,
}

/// Value type that can be returned from selection
#[derive(Debug)]
pub enum Value {
    /// String value
    String(String),
    /// Integer value
    Integer(i64),
    /// Floating point value
    Float(FloatRepr),
    /// Boolean value
    Boolean(bool),
    /// Array or object, held as its rendering, which string matching compares
    Composite(String),
    /// Null value
    Null,
}

impl Value {
    /// A copy of this value.
    pub fn duplicate(&self) -> (r: Value)
        ensures
            r == *self,
    {
        match self {
            Value::String(s) => Value::String(s.clone()),
            Value::Integer(i) => Value::Integer(*i),
            Value::Float(f) => Value::Float(*f),
            Value::Boolean(b) => Value::Boolean(*b),
            Value::Composite(s) => Value::Composite(s.clone()),
            Value::Null => Value::Null,
        }
    }

    /// Convert value to string if possible
    pub fn as_str(&self) -> (r: Option<&str>)
        ensures
            match *self {
                Value::String(s) => r matches Some(t) && t@ == s@,
                _ => r is None,
            },
    {
        match self {
            Value::String(s) => Some(s.as_str()),
            _ => None,
        }
    }

    /// Convert value to integer if possible
    pub fn as_int(&self) -> (r: Option<i64>)
        ensures
            r == (match *self {
                Value::Integer(i) => Some(i),
                _ => None::<i64>,
            }),
    {
        match self {
            Value::Integer(i) => Some(*i),
            _ => None,
        }
    }

    /// Convert value to bool if possible
    pub fn as_bool(&self) -> (r: Option<bool>)
        ensures
            r == (match *self {
                Value::Boolean(b) => Some(b),
                _ => None::<bool>,
            }),
    {
        match self {
            Value::Boolean(b) => Some(*b),
            _ => None,
        }
    }
}

/// Trait for events that can provide keyword fields for matching
pub trait Keyworder {
    /// The keywords of the event and whether keyword matching applies to it.
    spec fn keywords_spec(&self) -> (Seq<Seq<char>>, bool);

    /// Returns list of fields that are relevant for keyword matching
    /// Returns (fields, applicable) where applicable indicates if this rule type applies
    fn keywords(&self) -> (r: (Vec<String>, bool))
        ensures
            (string_views(r.0@), r.1) == self.keywords_spec(),
    ;
}

/// Trait for events that support key-value selection
pub trait Selector {
    /// The value stored under a key, if there is one.
    spec fn select_spec(&self, key: Seq<char>) -> Option<Value>;

    /// Select a value by key from the event
    /// Returns (value, found) where found indicates if the key exists
    fn select(&self, key: &str) -> (r: (Option<Value>, bool))
        ensures
            r.0 == self.select_spec(key@),
            r.1 == r.0 is Some,
    ;
}

/// Combined event trait that implements both keyword and selection matching
pub trait Event: Keyworder + Selector {
    /// The event's identifier.
    spec fn event_id_spec(&self) -> Seq<char>;

    /// The event's timestamp.
    spec fn event_timestamp_spec(&self) -> i64;

    /// Get event ID for tracing
    fn id(&self) -> (r: &str)
        ensures
            r@ == self.event_id_spec(),
    ;

    /// Get event timestamp
    fn timestamp(&self) -> (r: i64)
        ensures
            r == self.event_timestamp_spec(),
    ;
}

/// Simple event implementation: a list of named fields.
#[derive(Debug)]
pub struct SimpleEvent {
    fields: Vec<(String, Value)>,
    timestamp: i64,
}

/// The value of the first field named `key`.
pub open spec fn lookup_field(fields: Seq<(Seq<char>, Value)>, key: Seq<char>) -> Option<Value>
    decreases fields.len(),
{
    if fields.len() == 0 {
        None
    } else if fields[0].0 == key {
        Some(fields[0].1)
    } else {
        lookup_field(fields.drop_first(), key)
    }
}

/// The string values among the fields, in order.
pub open spec fn string_values(fields: Seq<(Seq<char>, Value)>) -> Seq<Seq<char>>
    decreases fields.len(),
{
    if fields.len() == 0 {
        Seq::empty()
    } else {
        let rest = string_values(fields.drop_last());
        match fields.last().1 {
            Value::String(s) => rest.push(s@),
            _ => rest,
        }
    }
}

impl SimpleEvent {
    /// The fields, names as character sequences.
    pub closed spec fn fields_spec(&self) -> Seq<(Seq<char>, Value)> {
        self.fields@.map_values(|f: (String, Value)| (f.0@, f.1))
    }

    /// Create a new SimpleEvent with the given fields, stamped with the
    /// current time.
    pub fn new(fields: Vec<(String, Value)>) -> (r: Self)
        ensures
            r.fields_spec() == fields@.map_values(|f: (String, Value)| (f.0@, f.1)),
    {
        SimpleEvent { fields, timestamp: unix_now_seconds() }
    }

    /// Set the timestamp for this event
    pub fn set_timestamp(&mut self, timestamp: i64)
        ensures
            final(self).timestamp_spec() == timestamp,
            final(self).fields_spec() == old(self).fields_spec(),
    {
        self.timestamp = timestamp;
    }

    /// Get a field value by key
    pub fn get_field(&self, key: &str) -> (r: Option<&Value>)
        ensures
            match lookup_field(self.fields_spec(), key@) {
                Some(v) => r matches Some(x) && *x == v,
                None => r is None,
            },
    {
        let mut i: usize = 0;
        assert(self.fields_spec().subrange(0, self.fields@.len() as int) =~= self.fields_spec());
        while i < self.fields.len()
            invariant
                i <= self.fields@.len(),
                self.fields_spec().len() == self.fields@.len(),
                lookup_field(self.fields_spec(), key@) == lookup_field(
                    self.fields_spec().subrange(i as int, self.fields@.len() as int),
                    key@,
                ),
            decreases self.fields.len() - i,
        {
            let ghost rest = self.fields_spec().subrange(i as int, self.fields@.len() as int);
            assert(rest.drop_first() =~= self.fields_spec().subrange(i + 1, self.fields@.len() as int));
            assert(rest[0] == (self.fields@[i as int].0@, self.fields@[i as int].1));
            if str_eq(self.fields[i].0.as_str(), key) {
                return Some(&self.fields[i].1);
            }
            i = i + 1;
        }
        None
    }

    /// The event's timestamp
    pub closed spec fn timestamp_spec(&self) -> i64 {
        self.timestamp
    }
}

impl Keyworder for SimpleEvent {
    open spec fn keywords_spec(&self) -> (Seq<Seq<char>>, bool) {
        (string_values(self.fields_spec()), true)
    }

    fn keywords(&self) -> (r: (Vec<String>, bool)) {
        let mut out: Vec<String> = Vec::new();
        let ghost fs = self.fields_spec();
        let mut i: usize = 0;
        assert(fs.take(0) =~= Seq::<(Seq<char>, Value)>::empty());
        while i < self.fields.len()
            invariant
                i <= self.fields@.len(),
                fs == self.fields_spec(),
                fs.len() == self.fields@.len(),
                string_views(out@) == string_values(fs.take(i as int)),
            decreases self.fields.len() - i,
        {
            assert(fs.take(i + 1).drop_last() =~= fs.take(i as int));
            assert(fs.take(i + 1).last() == (self.fields@[i as int].0@, self.fields@[i as int].1));
            let ghost before = out@;
            match &self.fields[i].1 {
                Value::String(s) => {
                    out.push(s.clone());
                    assert(string_views(out@) =~= string_views(before).push(s@));
                },
                _ => {},
            }
            i = i + 1;
        }
        assert(fs.take(fs.len() as int) =~= fs);
        (out, true)
    }
}

impl Selector for SimpleEvent {
    open spec fn select_spec(&self, key: Seq<char>) -> Option<Value> {
        lookup_field(self.fields_spec(), key)
    }

    fn select(&self, key: &str) -> (r: (Option<Value>, bool)) {
        match self.get_field(key) {
            Some(v) => (Some(v.duplicate()), true),
            None => (None, false),
        }
    }
}

impl Event for SimpleEvent {
    /// The value of the field `id` when it is a string, else `unknown`.
    open spec fn event_id_spec(&self) -> Seq<char> {
        match lookup_field(self.fields_spec(), "id"@) {
            Some(Value::String(s)) => s@,
            _ => "unknown"@,
        }
    }

    open spec fn event_timestamp_spec(&self) -> i64 {
        self.timestamp_spec()
    }

    fn id(&self) -> &str {
        match self.get_field("id") {
            Some(Value::String(s)) => s.as_str(),
            _ => "unknown",
        }
    }

    fn timestamp(&self) -> i64 {
        self.timestamp
    }
}


/// The deepest nesting at which a document is still converted to a value.
pub const MAX_JSON_DEPTH: usize = 128;

/// A JSON document as an event holds it. Arrays and objects keep, beside
/// their items, their rendering as received, which is what string matching
/// compares them as.
#[derive(Debug)]
pub enum JsonValue {
    /// `null`
    Null,
    /// A boolean
    Bool(bool),
    /// A number that fits in an `i64`
    Integer(i64),
    /// Any other number
    Float(FloatRepr),
    /// A string
    String(String),
    /// An array: its items and its rendering
    Array(Vec<JsonValue>, String),
    /// An object: its properties in order, names unique, and its rendering
    Object(Vec<(String, JsonValue)>, String),
}

/// The value of the property named `key` among an object's properties.
pub open spec fn json_lookup(entries: Seq<(String, JsonValue)>, key: Seq<char>) -> Option<JsonValue>
    decreases entries.len(),
{
    if entries.len() == 0 {
        None
    } else if entries[0].0@ == key {
        Some(entries[0].1)
    } else {
        json_lookup(entries.drop_first(), key)
    }
}

/// A property of a document: only objects have properties.
pub open spec fn json_get(j: JsonValue, key: Seq<char>) -> Option<JsonValue> {
    match j {
        JsonValue::Object(entries, _) => json_lookup(entries@, key),
        _ => None,
    }
}

/// The document reached from `j` by following the names of a path; a path
/// with an empty name reaches nothing.
pub open spec fn json_path(j: JsonValue, path: Seq<Seq<char>>) -> Option<JsonValue>
    decreases path.len(),
{
    if path.len() == 0 {
        Some(j)
    } else if path[0].len() == 0 {
        None
    } else {
        match json_get(j, path[0]) {
            Some(n) => json_path(n, path.drop_first()),
            None => None,
        }
    }
}

/// The pieces of `s` between dots, as `str::split('.')` gives them.
pub open spec fn split_dots(s: Seq<char>) -> Seq<Seq<char>>
    decreases s.len(),
{
    if s.len() == 0 {
        seq![Seq::<char>::empty()]
    } else {
        let r = split_dots(s.drop_last());
        if s.last() == '.' {
            r.push(Seq::<char>::empty())
        } else {
            r.update(r.len() - 1, r.last().push(s.last()))
        }
    }
}

/// A key is looked up only if it is not empty, has no two dots in a row and
/// neither starts nor ends with a dot.
pub open spec fn key_ok(key: Seq<char>) -> bool {
    &&& key.len() > 0
    &&& key[0] != '.'
    &&& key.last() != '.'
    &&& forall|i: int| 0 <= i < key.len() - 1 ==> !(key[i] == '.' && #[trigger] key[i + 1] == '.')
}

/// The value a selected document gives: scalars as they are, arrays and
/// objects as their rendering.
pub open spec fn json_value_of(j: JsonValue) -> Value {
    match j {
        JsonValue::Null => Value::Null,
        JsonValue::Bool(b) => Value::Boolean(b),
        JsonValue::Integer(i) => Value::Integer(i),
        JsonValue::Float(f) => Value::Float(f),
        JsonValue::String(s) => Value::String(s),
        JsonValue::Array(_, r) => Value::Composite(r),
        JsonValue::Object(_, r) => Value::Composite(r),
    }
}

/// Some part of the document lies deeper than `MAX_JSON_DEPTH`, the
/// document itself being at `depth`.
pub open spec fn too_deep(j: JsonValue, depth: nat) -> bool
    decreases j,
{
    depth > MAX_JSON_DEPTH || match j {
        JsonValue::Array(items, _) => items_too_deep(items@, depth + 1),
        JsonValue::Object(entries, _) => entries_too_deep(entries@, depth + 1),
        _ => false,
    }
}

/// Some item lies too deep, the items being at `depth`.
pub open spec fn items_too_deep(items: Seq<JsonValue>, depth: nat) -> bool
    decreases items,
{
    if items.len() == 0 {
        false
    } else {
        items_too_deep(items.drop_last(), depth) || too_deep(items.last(), depth)
    }
}

/// Some property's value lies too deep, the values being at `depth`.
pub open spec fn entries_too_deep(entries: Seq<(String, JsonValue)>, depth: nat) -> bool
    decreases entries,
{
    if entries.len() == 0 {
        false
    } else {
        entries_too_deep(entries.drop_last(), depth) || too_deep(entries.last().1, depth)
    }
}

/// The keywords of a document: its `message` string, or else the
/// `signature` string of its `alert`; keyword matching applies only if one
/// of them is there.
pub open spec fn json_keywords(data: JsonValue) -> (Seq<Seq<char>>, bool) {
    match json_get(data, "message"@) {
        Some(JsonValue::String(m)) => (seq![m@], true),
        _ => match json_get(data, "alert"@) {
            Some(alert) => match json_get(alert, "signature"@) {
                Some(JsonValue::String(s)) => (seq![s@], true),
                _ => (Seq::empty(), false),
            },
            None => (Seq::empty(), false),
        },
    }
}

/// A copy of a document's value as a selection gives it.
fn value_of_json(j: &JsonValue) -> (r: Value)
    ensures
        r == json_value_of(*j),
{
    match j {
        JsonValue::Null => Value::Null,
        JsonValue::Bool(b) => Value::Boolean(*b),
        JsonValue::Integer(i) => Value::Integer(*i),
        JsonValue::Float(f) => Value::Float(*f),
        JsonValue::String(s) => Value::String(s.clone()),
        JsonValue::Array(_, r) => Value::Composite(r.clone()),
        JsonValue::Object(_, r) => Value::Composite(r.clone()),
    }
}

/// The property of a document named by `key`.
fn json_get_exec<'a>(j: &'a JsonValue, key: &[char]) -> (r: Option<&'a JsonValue>)
    ensures
        match json_get(*j, key@) {
            Some(v) => r matches Some(x) && *x == v,
            None => r is None,
        },
{
    match j {
        JsonValue::Object(entries, _) => {
            let mut i: usize = 0;
            assert(entries@.subrange(0, entries@.len() as int) =~= entries@);
            while i < entries.len()
                invariant
                    i <= entries@.len(),
                    json_get(*j, key@) == json_lookup(entries@, key@),
                    json_lookup(entries@, key@) == json_lookup(
                        entries@.subrange(i as int, entries@.len() as int),
                        key@,
                    ),
                decreases entries.len() - i,
            {
                let ghost rest = entries@.subrange(i as int, entries@.len() as int);
                assert(rest.drop_first() =~= entries@.subrange(i + 1, entries@.len() as int));
                assert(rest[0] == entries@[i as int]);
                let name = chars_of(entries[i].0.as_str());
                if chars_eq(&name, key) {
                    return Some(&entries[i].1);
                }
                i = i + 1;
            }
            None
        },
        _ => None,
    }
}

/// Whether a key may be looked up (see `key_ok`).
fn key_is_valid(key: &[char]) -> (r: bool)
    ensures
        r == key_ok(key@),
{
    if key.len() == 0 || key[0] == '.' || key[key.len() - 1] == '.' {
        return false;
    }
    let mut i: usize = 0;
    while i + 1 < key.len()
        invariant
            key@.len() > 0,
            i + 1 <= key@.len(),
            forall|k: int| 0 <= k < i ==> !(key@[k] == '.' && #[trigger] key@[k + 1] == '.'),
        decreases key.len() - i,
    {
        if key[i] == '.' && key[i + 1] == '.' {
            return false;
        }
        i = i + 1;
    }
    true
}

/// The pieces of a key between dots.
fn split_dots_exec(key: &[char]) -> (r: Vec<Vec<char>>)
    ensures
        r@.map_values(|p: Vec<char>| p@) == split_dots(key@),
{
    let mut parts: Vec<Vec<char>> = Vec::new();
    parts.push(Vec::new());
    let mut i: usize = 0;
    assert(key@.take(0) =~= Seq::<char>::empty());
    assert(parts@.map_values(|p: Vec<char>| p@) =~= split_dots(key@.take(0)));
    while i < key.len()
        invariant
            i <= key@.len(),
            parts@.len() > 0,
            parts@.map_values(|p: Vec<char>| p@) == split_dots(key@.take(i as int)),
        decreases key.len() - i,
    {
        let ghost before = parts@.map_values(|p: Vec<char>| p@);
        assert(key@.take(i + 1).drop_last() =~= key@.take(i as int));
        assert(key@.take(i + 1).last() == key@[i as int]);
        if key[i] == '.' {
            parts.push(Vec::new());
            assert(parts@.map_values(|p: Vec<char>| p@) =~= before.push(Seq::<char>::empty()));
        } else {
            let last = parts.len() - 1;
            let mut piece = parts.pop().unwrap();
            piece.push(key[i]);
            parts.push(piece);
            assert(parts@.map_values(|p: Vec<char>| p@) =~= before.update(
                before.len() - 1,
                before.last().push(key@[i as int]),
            ));
        }
        i = i + 1;
    }
    assert(key@.take(key@.len() as int) =~= key@);
    parts
}

proof fn lemma_items_too_deep_prefix(items: Seq<JsonValue>, k: int, depth: nat)
    requires
        0 <= k <= items.len(),
        items_too_deep(items.take(k), depth),
    ensures
        items_too_deep(items, depth),
    decreases items.len() - k,
{
    if k < items.len() {
        assert(items.take(k + 1).drop_last() =~= items.take(k));
        lemma_items_too_deep_prefix(items, k + 1, depth);
    } else {
        assert(items.take(k) =~= items);
    }
}

proof fn lemma_entries_too_deep_prefix(entries: Seq<(String, JsonValue)>, k: int, depth: nat)
    requires
        0 <= k <= entries.len(),
        entries_too_deep(entries.take(k), depth),
    ensures
        entries_too_deep(entries, depth),
    decreases entries.len() - k,
{
    if k < entries.len() {
        assert(entries.take(k + 1).drop_last() =~= entries.take(k));
        lemma_entries_too_deep_prefix(entries, k + 1, depth);
    } else {
        assert(entries.take(k) =~= entries);
    }
}

/// Whether some part of a document lies too deep (see `too_deep`).
fn exceeds_depth(j: &JsonValue, depth: usize) -> (r: bool)
    ensures
        r == too_deep(*j, depth as nat),
    decreases j,
{
    if depth > MAX_JSON_DEPTH {
        return true;
    }
    match j {
        JsonValue::Array(items, _) => {
            let mut i: usize = 0;
            while i < items.len()
                invariant
                    depth <= MAX_JSON_DEPTH,
                    *j is Array,
                    j->Array_0 == *items,
                    i <= items@.len(),
                    !items_too_deep(items@.take(i as int), (depth + 1) as nat),
                decreases items.len() - i,
            {
                assert(items@.take(i + 1).drop_last() =~= items@.take(i as int));
                assert(items@.take(i + 1).last() == items@[i as int]);
                proof {
                    assert(decreases_to!(*j => j->Array_0));
                    assert(decreases_to!(j->Array_0 => j->Array_0@));
                    assert(decreases_to!(j->Array_0@ => j->Array_0@[i as int]));
                }
                if exceeds_depth(&items[i], depth + 1) {
                    proof { lemma_items_too_deep_prefix(items@, i + 1, (depth + 1) as nat); }
                    return true;
                }
                i = i + 1;
            }
            assert(items@.take(items@.len() as int) =~= items@);
            false
        },
        JsonValue::Object(entries, _) => {
            let mut i: usize = 0;
            while i < entries.len()
                invariant
                    depth <= MAX_JSON_DEPTH,
                    *j is Object,
                    j->Object_0 == *entries,
                    i <= entries@.len(),
                    !entries_too_deep(entries@.take(i as int), (depth + 1) as nat),
                decreases entries.len() - i,
            {
                assert(entries@.take(i + 1).drop_last() =~= entries@.take(i as int));
                assert(entries@.take(i + 1).last() == entries@[i as int]);
                proof {
                    assert(decreases_to!(*j => j->Object_0));
                    assert(decreases_to!(j->Object_0 => j->Object_0@));
                    assert(decreases_to!(j->Object_0@ => j->Object_0@[i as int]));
                    assert(decreases_to!(j->Object_0@[i as int] => j->Object_0@[i as int].1));
                }
                if exceeds_depth(&entries[i].1, depth + 1) {
                    proof { lemma_entries_too_deep_prefix(entries@, i + 1, (depth + 1) as nat); }
                    return true;
                }
                i = i + 1;
            }
            assert(entries@.take(entries@.len() as int) =~= entries@);
            false
        },
        _ => false,
    }
}

/// A fresh random identifier in the hyphenated form.
///
/// Trusted: calls `uuid::Uuid::new_v4()` and formats it with `to_string`,
/// which writes the hyphenated form of 36 characters. The identifier itself
/// is random: nothing more is claimed of it.
#[verifier::external_body]
fn new_event_id() -> (r: String)
    ensures
        r@.len() == 36,
{
    uuid::Uuid::new_v4().to_string()
}

/// An event over a JSON document, with an identifier and a timestamp.
#[derive(Debug)]
pub struct DynamicEvent {
    data: JsonValue,
    id: String,
    timestamp: i64,
}

impl DynamicEvent {
    /// The event's document.
    pub closed spec fn data_spec(&self) -> JsonValue {
        self.data
    }

    /// The event's identifier.
    pub closed spec fn id_spec(&self) -> Seq<char> {
        self.id@
    }

    /// The event's timestamp, in seconds since the Unix epoch.
    pub closed spec fn timestamp_spec(&self) -> i64 {
        self.timestamp
    }

    /// Create a new dynamic event with the given data, a fresh random
    /// identifier and the current time.
    pub fn new(data: JsonValue) -> (r: Self)
        ensures
            r.data_spec() == data,
    {
        DynamicEvent { data, id: new_event_id(), timestamp: unix_now_seconds() }
    }

    /// A document as a value: `Null` when some part of it lies deeper than
    /// `MAX_JSON_DEPTH`, else its value as a selection gives it.
    pub fn json_to_value(json: &JsonValue) -> (r: Value)
        ensures
            r == (if too_deep(*json, 0) {
                Value::Null
            } else {
                json_value_of(*json)
            }),
    {
        if exceeds_depth(json, 0) {
            Value::Null
        } else {
            value_of_json(json)
        }
    }
}

impl Keyworder for DynamicEvent {
    open spec fn keywords_spec(&self) -> (Seq<Seq<char>>, bool) {
        json_keywords(self.data_spec())
    }

    fn keywords(&self) -> (r: (Vec<String>, bool)) {
        let message = chars_of("message");
        if let Some(JsonValue::String(m)) = json_get_exec(&self.data, &message) {
            let out = vec![m.clone()];
            assert(string_views(out@) =~= seq![m@]);
            return (out, true);
        }
        let alert_name = chars_of("alert");
        if let Some(alert) = json_get_exec(&self.data, &alert_name) {
            let signature = chars_of("signature");
            if let Some(JsonValue::String(s)) = json_get_exec(alert, &signature) {
                let out = vec![s.clone()];
                assert(string_views(out@) =~= seq![s@]);
                return (out, true);
            }
        }
        let out: Vec<String> = Vec::new();
        assert(string_views(out@) =~= Seq::<Seq<char>>::empty());
        (out, false)
    }
}

impl Selector for DynamicEvent {
    open spec fn select_spec(&self, key: Seq<char>) -> Option<Value> {
        if !key_ok(key) {
            None
        } else {
            match json_path(self.data_spec(), split_dots(key)) {
                Some(j) => Some(json_value_of(j)),
                None => None,
            }
        }
    }

    fn select(&self, key: &str) -> (r: (Option<Value>, bool)) {
        let key_chars = chars_of(key);
        if !key_is_valid(&key_chars) {
            return (None, false);
        }
        let parts = split_dots_exec(&key_chars);
        let ghost path = split_dots(key@);
        let mut current: &JsonValue = &self.data;
        let mut i: usize = 0;
        assert(path.skip(0) =~= path);
        while i < parts.len()
            invariant
                i <= parts@.len(),
                key_ok(key@),
                path == split_dots(key@),
                path == parts@.map_values(|p: Vec<char>| p@),
                json_path(self.data, path) == json_path(*current, path.skip(i as int)),
            decreases parts.len() - i,
        {
            let ghost rest = path.skip(i as int);
            assert(rest.drop_first() =~= path.skip(i + 1));
            assert(rest.len() > 0);
            assert(rest[0] == parts@[i as int]@);
            if parts[i].len() == 0 {
                assert(json_path(*current, rest) is None);
                return (None, false);
            }
            match json_get_exec(current, &parts[i]) {
                Some(next) => {
                    current = next;
                },
                None => {
                    assert(json_path(*current, rest) is None);
                    return (None, false);
                },
            }
            i = i + 1;
        }
        assert(path.skip(parts@.len() as int) =~= Seq::<Seq<char>>::empty());
        (Some(value_of_json(current)), true)
    }
}

impl Event for DynamicEvent {
    open spec fn event_id_spec(&self) -> Seq<char> {
        self.id_spec()
    }

    open spec fn event_timestamp_spec(&self) -> i64 {
        self.timestamp_spec()
    }

    fn id(&self) -> &str {
        self.id.as_str()
    }

    fn timestamp(&self) -> i64 {
        self.timestamp
    }
}

/// A name without dots is a path of one name: itself.
proof fn lemma_split_plain_name(k: Seq<char>)
    requires
        forall|i: int| 0 <= i < k.len() ==> k[i] != '.',
    ensures
        split_dots(k) == seq![k],
    decreases k.len(),
{
    if k.len() > 0 {
        lemma_split_plain_name(k.drop_last());
        assert(k.drop_last().push(k.last()) =~= k);
        assert(seq![k.drop_last()].update(0, k.drop_last().push(k.last())) =~= seq![k]);
    } else {
        assert(k =~= Seq::<char>::empty());
    }
}

/// Selecting a top-level property of a document by its name gives that
/// property's value: a boolean, integer, float or string as it is, null as
/// null, an array or object as its rendering; a name the document lacks
/// gives nothing.
pub proof fn lemma_select_top_level_property(e: DynamicEvent, k: Seq<char>)
    requires
        k.len() > 0,
        forall|i: int| 0 <= i < k.len() ==> k[i] != '.',
        e.data_spec() is Object,
    ensures
        match json_lookup(e.data_spec()->Object_0@, k) {
            None => e.select_spec(k) is None,
            Some(JsonValue::Bool(b)) => e.select_spec(k) == Some(Value::Boolean(b)),
            Some(JsonValue::Integer(i)) => e.select_spec(k) == Some(Value::Integer(i)),
            Some(JsonValue::Float(f)) => e.select_spec(k) == Some(Value::Float(f)),
            Some(JsonValue::Null) => e.select_spec(k) == Some(Value::Null),
            Some(JsonValue::String(v)) => e.select_spec(k) matches Some(Value::String(t)) && t@ == v@,
            Some(JsonValue::Array(_, r)) => e.select_spec(k) matches Some(Value::Composite(t)) && t@ == r@,
            Some(JsonValue::Object(_, r)) => e.select_spec(k) matches Some(Value::Composite(t)) && t@ == r@,
        },
{
    lemma_split_plain_name(k);
    assert(key_ok(k));
    let path = seq![k];
    assert(path.drop_first() =~= Seq::<Seq<char>>::empty());
    assert(path[0] == k);
    assert(json_get(e.data_spec(), k) == json_lookup(e.data_spec()->Object_0@, k));
    match json_lookup(e.data_spec()->Object_0@, k) {
        Some(n) => {
            assert(json_path(n, path.drop_first()) == Some(n));
            assert(json_path(e.data_spec(), path) == Some(n));
        },
        None => {
            assert(json_path(e.data_spec(), path) is None);
        },
    }
    assert(split_dots(k) == path);
}

proof fn lemma_split_dots_nonempty(s: Seq<char>)
    ensures
        split_dots(s).len() >= 1,
    decreases s.len(),
{
    if s.len() > 0 {
        lemma_split_dots_nonempty(s.drop_last());
    }
}

/// Appending a text without dots extends the last name of a path.
proof fn lemma_split_dots_extend(p: Seq<char>, y: Seq<char>)
    requires
        forall|i: int| 0 <= i < y.len() ==> y[i] != '.',
    ensures
        split_dots(p + y) == split_dots(p).update(
            split_dots(p).len() - 1,
            split_dots(p).last() + y,
        ),
    decreases y.len(),
{
    lemma_split_dots_nonempty(p);
    let sp = split_dots(p);
    if y.len() == 0 {
        assert(p + y =~= p);
        assert(sp.last() + y =~= sp.last());
        assert(sp.update(sp.len() - 1, sp.last()) =~= sp);
    } else {
        let y0 = y.drop_last();
        lemma_split_dots_extend(p, y0);
        assert((p + y).drop_last() =~= p + y0);
        assert((p + y).last() == y.last());
        let r = split_dots(p + y0);
        assert(r.last() == sp.last() + y0);
        assert((sp.last() + y0).push(y.last()) =~= sp.last() + y);
        assert(r.update(r.len() - 1, r.last().push(y.last())) =~= sp.update(sp.len() - 1, sp.last() + y));
    }
}

/// Selecting `a.b`, for names `a` and `b` without dots, looks up `b` within
/// the property `a` of the document: it gives the value found there, and
/// nothing when either name is missing (or `a` is not an object).
pub proof fn lemma_select_dotted_property(e: DynamicEvent, a: Seq<char>, b: Seq<char>)
    requires
        a.len() > 0,
        b.len() > 0,
        forall|i: int| 0 <= i < a.len() ==> a[i] != '.',
        forall|i: int| 0 <= i < b.len() ==> b[i] != '.',
    ensures
        e.select_spec(a + "."@ + b) == (match json_get(e.data_spec(), a) {
            Some(inner) => match json_get(inner, b) {
                Some(v) => Some(json_value_of(v)),
                None => None,
            },
            None => None,
        }),
{
    reveal_strlit(".");
    let k = a + "."@ + b;
    let dot = a + "."@;
    lemma_split_plain_name(a);
    assert(dot.drop_last() =~= a);
    assert(dot.last() == '.');
    assert(split_dots(dot) == seq![a].push(Seq::<char>::empty()));
    lemma_split_dots_extend(dot, b);
    assert(Seq::<char>::empty() + b =~= b);
    assert(seq![a].push(Seq::<char>::empty()).update(1, Seq::<char>::empty() + b) =~= seq![a, b]);
    assert(k == dot + b);
    let path = seq![a, b];
    assert(split_dots(k) == path);
    assert(k[0] == a[0]);
    assert(k.last() == b.last());
    assert forall|i: int| 0 <= i < k.len() - 1 implies !(k[i] == '.' && #[trigger] k[i + 1] == '.') by {
        if i < a.len() {
            assert(k[i] == a[i]);
        } else if i == a.len() {
            assert(k[i + 1] == b[0]);
        } else {
            assert(k[i] == b[i - a.len() - 1]);
        }
    }
    assert(key_ok(k));
    assert(path[0] == a && path.drop_first() =~= seq![b]);
    assert(seq![b][0] == b && seq![b].drop_first() =~= Seq::<Seq<char>>::empty());
    match json_get(e.data_spec(), a) {
        Some(inner) => {
            assert(json_path(e.data_spec(), path) == json_path(inner, seq![b]));
            match json_get(inner, b) {
                Some(v) => {
                    assert(json_path(v, Seq::<Seq<char>>::empty()) == Some(v));
                    assert(json_path(inner, seq![b]) == Some(v));
                },
                None => {
                    assert(json_path(inner, seq![b]) is None);
                },
            }
        },
        None => {
            assert(json_path(e.data_spec(), path) is None);
        },
    }
}

/// Whether a selection gave a string.
pub open spec fn selected_text(o: Option<Value>) -> bool {
    o matches Some(Value::String(_))
}

/// The keywords of a document event are the text of its `message` field
/// when that is a string, else the text of its `alert.signature` field when
/// that is a string; otherwise it offers none, and keyword rules do not
/// apply to it.
pub proof fn lemma_keywords_from_message(e: DynamicEvent)
    ensures
        e.select_spec("message"@) matches Some(Value::String(m)) ==> e.keywords_spec() == (seq![m@], true),
        !selected_text(e.select_spec("message"@)) ==> (e.select_spec("alert.signature"@) matches Some(
            Value::String(t),
        ) ==> e.keywords_spec() == (seq![t@], true)),
        !selected_text(e.select_spec("message"@)) && !selected_text(e.select_spec("alert.signature"@))
            ==> !e.keywords_spec().1,
{
    reveal_strlit("message");
    reveal_strlit("alert");
    reveal_strlit("signature");
    reveal_strlit("alert.signature");
    reveal_strlit(".");
    let msg = "message"@;
    lemma_split_plain_name(msg);
    assert(key_ok(msg));
    let path = seq![msg];
    assert(path[0] == msg && path.drop_first() =~= Seq::<Seq<char>>::empty());
    match json_get(e.data_spec(), msg) {
        Some(n) => {
            assert(json_path(n, Seq::<Seq<char>>::empty()) == Some(n));
            assert(e.select_spec(msg) == Some(json_value_of(n)));
        },
        None => {
            assert(e.select_spec(msg) is None);
        },
    }
    assert("alert.signature"@ =~= "alert"@ + "."@ + "signature"@);
    lemma_select_dotted_property(e, "alert"@, "signature"@);
}

} // verus!
