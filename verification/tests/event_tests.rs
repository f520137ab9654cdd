use sigma_rs::event::{DynamicEvent, Event, EventBuilder, FloatRepr, JsonValue, Keyworder, Selector, Value};

/// A document from JSON, as an event holds it: arrays and objects keep their
/// rendering as received.
fn doc(v: &serde_json::Value) -> JsonValue {
    match v {
        serde_json::Value::Null => JsonValue::Null,
        serde_json::Value::Bool(b) => JsonValue::Bool(*b),
        serde_json::Value::Number(n) => match n.as_i64() {
            Some(i) => JsonValue::Integer(i),
            None => {
                let f = n.as_f64().unwrap_or(0.0);
                JsonValue::Float(FloatRepr { as_string_int: f as i64, as_numeric: Some(f.trunc() as i64) })
            }
        },
        serde_json::Value::String(s) => JsonValue::String(s.clone()),
        serde_json::Value::Array(a) => JsonValue::Array(a.iter().map(doc).collect(), format!("{:?}", v)),
        serde_json::Value::Object(m) => {
            JsonValue::Object(m.iter().map(|(k, x)| (k.clone(), doc(x))).collect(), format!("{:?}", v))
        }
    }
}

fn parse(text: &str) -> JsonValue {
    doc(&serde_json::from_str(text).unwrap())
}

#[test]
fn test_dynamic_event_selector() {
    let data = parse(r#"{"message": "test message", "nested": {"field": "value"}}"#);
    let event = DynamicEvent::new(data);

    let (value, found) = event.select("message");
    assert!(found);
    assert_eq!(value.unwrap().as_str(), Some("test message"));

    let (value, found) = event.select("nested.field");
    assert!(found);
    assert_eq!(value.unwrap().as_str(), Some("value"));

    let (_, found) = event.select("missing");
    assert!(!found);
}

#[test]
fn test_dynamic_event_keywords() {
    let data = parse(r#"{"message": "test keyword", "other": "field"}"#);
    let event = DynamicEvent::new(data);
    let (keywords, applicable) = event.keywords();
    assert!(applicable);
    assert_eq!(keywords, vec!["test keyword"]);
}

#[test]
fn test_malicious_field_access() {
    let data = parse(r#"{"field": "value"}"#);
    let event = DynamicEvent::new(data);
    let (_, found) = event.select("");
    assert!(!found);
    let (_, found) = event.select("field..other");
    assert!(!found);
    let (_, found) = event.select(".field");
    assert!(!found);
    let (_, found) = event.select("field.");
    assert!(!found);
    let (_, found) = event.select("field..other");
    assert!(!found);
}

#[test]
fn test_deep_json_nesting() {
    let mut json = JsonValue::Object(vec![("value".to_string(), JsonValue::Integer(1))], String::new());
    for _ in 0..200 {
        json = JsonValue::Object(vec![("nested".to_string(), json)], String::new());
    }
    let value = DynamicEvent::json_to_value(&json);
    assert!(matches!(value, Value::Null));
}

#[test]
fn test_number_conversion_edge_cases() {
    let data = parse(&format!(r#"{{"int": 42, "float": 3.14, "big_int": {}, "negative": -100}}"#, i64::MAX));
    let event = DynamicEvent::new(data);

    let (value, found) = event.select("int");
    assert!(found);
    assert_eq!(value.unwrap().as_int(), Some(42));

    let (value, found) = event.select("float");
    assert!(found);
    assert!(matches!(value.unwrap(), Value::Float(FloatRepr { as_string_int: 3, as_numeric: Some(3) })));

    let (value, found) = event.select("big_int");
    assert!(found);
    assert_eq!(value.unwrap().as_int(), Some(i64::MAX));

    let (value, found) = event.select("negative");
    assert!(found);
    assert_eq!(value.unwrap().as_int(), Some(-100));
}

#[test]
fn test_no_string_clone_performance() {
    let large_string = "x".repeat(1000);
    let data = parse(&format!(r#"{{"large": "{}", "nested": {{"string": "test"}}}}"#, large_string));
    let event = DynamicEvent::new(data);

    let (value1, found1) = event.select("large");
    assert!(found1);
    assert!(value1.is_some());

    let (value2, found2) = event.select("nested.string");
    assert!(found2);
    assert_eq!(value2.unwrap().as_str(), Some("test"));

    for _ in 0..100 {
        let (_, _) = event.select("large");
    }
}

#[test]
fn dynamic_event_alert_signature_keywords_and_composites() {
    let data = parse(r#"{"alert": {"signature": "ET SCAN"}, "list": [1, 2]}"#);
    let event = DynamicEvent::new(data);
    let (keywords, applicable) = event.keywords();
    assert!(applicable);
    assert_eq!(keywords, vec!["ET SCAN"]);
    let (value, found) = event.select("list");
    assert!(found);
    assert!(matches!(value, Some(Value::Composite(ref r)) if r.starts_with("Array")));
    let (_, found) = event.select("list.0");
    assert!(!found);
    assert_eq!(event.id().len(), 36);

    let none = DynamicEvent::new(parse(r#"{"other": 1}"#));
    let (keywords, applicable) = none.keywords();
    assert!(!applicable);
    assert!(keywords.is_empty());
}

#[test]
fn nesting_up_to_the_limit_is_converted() {
    let mut json = JsonValue::Integer(7);
    for _ in 0..128 {
        json = JsonValue::Array(vec![json], "Array [..]".to_string());
    }
    assert!(matches!(DynamicEvent::json_to_value(&json), Value::Composite(_)));
    let deeper = JsonValue::Array(vec![json], "Array [..]".to_string());
    assert!(matches!(DynamicEvent::json_to_value(&deeper), Value::Null));
}

#[test]
fn event_builder_orders_and_replaces_fields() {
    let event = EventBuilder::new()
        .field("b".to_string(), Value::String("second".to_string()))
        .field("a".to_string(), Value::String("first".to_string()))
        .field("b".to_string(), Value::String("again".to_string()))
        .timestamp(1700000000)
        .build();
    let (keywords, applicable) = event.keywords();
    assert!(applicable);
    assert_eq!(keywords, vec!["first", "again"]);
    assert_eq!(event.timestamp(), 1700000000);
    assert_eq!(event.get_field("b").and_then(|v| v.as_str()), Some("again"));
}
