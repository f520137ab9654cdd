//! Type coercion for Sigma pattern matching
//!
//! A field value is turned into the text that string matchers read, or into
//! the integer that numeric matchers compare.
use vstd::prelude::*;

use crate::event::Value;
use crate::text::{decimal_spec, int_to_decimal, owned, parse_i64, parse_i64_spec};

verus! {

/// The text a value is matched as: strings as they are, integers in decimal,
/// floats as the decimal of their integer part, `true`/`false`, `null`, and
/// arrays and objects as their rendering.
pub open spec fn string_form(v: Value) -> Seq<char> {
    match v {
        Value::String(s) => s@,
        Value::Integer(i) => decimal_spec(i as int),
        Value::Float(f) => decimal_spec(f.as_string_int as int),
        Value::Boolean(b) => if b {
            "true"@
        } else {
            "false"@
        },
        Value::Composite(s) => s@,
        Value::Null => "null"@,
    }
}

/// The integer a value is compared as: integers themselves, floats by their
/// truncation where it fits, strings that parse as an `i64`; nothing else.
pub open spec fn numeric_form(v: Value) -> Option<i64> {
    match v {
        Value::Integer(i) => Some(i),
        Value::Float(f) => f.as_numeric,
        Value::String(s) => parse_i64_spec(s@),
        _ => None,
    }
}

/// Coerce a value for string pattern matching
pub fn coerce_for_string_match(value: &Value) -> (r: String)
    ensures
        r@ == string_form(*value),
{
    match value {
        Value::String(s) => s.clone(),
        Value::Integer(i) => int_to_decimal(*i),
        Value::Float(f) => int_to_decimal(f.as_string_int),
        Value::Boolean(b) => if *b {
            owned("true")
        } else {
            owned("false")
        },
        Value::Composite(s) => s.clone(),
        Value::Null => owned("null"),
    }
}

/// Coerce a value for numeric pattern matching
/// Returns None if the value cannot be safely converted to i64
pub fn coerce_for_numeric_match(value: &Value) -> (r: Option<i64>)
    ensures
        r == numeric_form(*value),
{
    match value {
        Value::Integer(i) => Some(*i),
        Value::Float(f) => f.as_numeric,
        Value::String(s) => parse_i64(s.as_str()),
        _ => None,
    }
}

} // verus!
