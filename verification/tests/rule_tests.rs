use sigma_rs::error::SigmaError;
use sigma_rs::result::{validate_result, validate_string, validate_tags, Result, Results};
use sigma_rs::rule::{is_multipart, validate_rule, Detection, DetectionValue, Logsource, Rule, RuleHandle, Tags};
use sigma_rs::{KafkaConfig, SigmaEngineBuilder};

fn detection_with(entries: Vec<(&str, DetectionValue)>) -> Detection {
    let mut d = Detection::new();
    for (k, v) in entries {
        d.insert(k.to_string(), v);
    }
    d
}

fn rule_with(title: &str, id: &str, detection: Detection) -> Rule {
    Rule {
        author: None,
        description: None,
        falsepositives: vec![],
        fields: vec![],
        id: id.to_string(),
        level: None,
        title: title.to_string(),
        status: None,
        references: vec![],
        logsource: Logsource::default(),
        detection,
        tags: vec![],
        date: None,
        modified: None,
    }
}

fn selection_detection(condition: &str) -> Detection {
    detection_with(vec![
        ("selection", DetectionValue::Number { integer: Some(1), text: "1".to_string() }),
        ("condition", DetectionValue::String(condition.to_string())),
    ])
}

#[test]
fn test_logsource_matches() {
    let logsource = Logsource {
        product: Some("windows".to_string()),
        category: Some("process_creation".to_string()),
        service: None,
        definition: None,
    };
    assert!(logsource.matches(Some("windows"), Some("process_creation"), None));
    assert!(!logsource.matches(Some("linux"), Some("process_creation"), None));
    assert!(logsource.matches(None, None, None));
}

#[test]
fn logsource_filter_on_missing_field_fails() {
    let logsource = Logsource::default();
    assert!(!logsource.matches(None, None, Some("sysmon")));
}

#[test]
fn test_multipart_detection() {
    let single_doc = b"---\ntitle: Test";
    let multi_doc = b"title: Test\n---\ntitle: Test2";
    let no_separator = b"title: Test";
    assert!(!is_multipart(single_doc));
    assert!(is_multipart(multi_doc));
    assert!(!is_multipart(no_separator));
}

#[test]
fn multipart_short_inputs() {
    assert!(!is_multipart(b""));
    assert!(!is_multipart(b"--"));
    assert!(is_multipart(b"a---"));
}

#[test]
fn test_tags_has_all() {
    let tags = Tags::from_vec(vec!["attack.discovery".to_string(), "attack.t1069.001".to_string()]);
    assert!(tags.has_all(&["attack.discovery".to_string()]));
    assert!(tags.has_all(&["attack.discovery".to_string(), "attack.t1069.001".to_string()]));
    assert!(!tags.has_all(&["attack.discovery".to_string(), "attack.execution".to_string()]));
}

#[test]
fn test_tags_has_any() {
    let tags = Tags::from_vec(vec!["attack.discovery".to_string(), "attack.t1069.001".to_string()]);
    assert!(tags.has_any(&["attack.discovery".to_string()]));
    assert!(tags.has_any(&["attack.execution".to_string(), "attack.discovery".to_string()]));
    assert!(!tags.has_any(&["attack.execution".to_string()]));
}

#[test]
fn test_tags_add() {
    let mut tags = Tags::new();
    tags.add("attack.discovery".to_string());
    tags.add("attack.discovery".to_string());
    tags.add("attack.execution".to_string());
    assert_eq!(tags.as_vec().len(), 2);
    assert!(tags.has_all(&["attack.discovery".to_string(), "attack.execution".to_string()]));
}

#[test]
fn tags_from_vec_and_mut_vec() {
    let mut tags = Tags::from(vec!["a".to_string()]);
    tags.as_mut_vec().push("b".to_string());
    assert_eq!(tags.as_vec(), &vec!["a".to_string(), "b".to_string()]);
    assert!(tags.has_all(&[]));
    assert!(!tags.has_any(&[]));
}

#[test]
fn rule_has_tags() {
    let mut rule = rule_with("T", "12345678-1234-1234-1234-123456789012", selection_detection("selection"));
    rule.tags = vec!["attack.discovery".to_string(), "attack.t1069.001".to_string()];
    assert!(rule.has_tags(&["attack.discovery".to_string()]));
    assert!(!rule.has_tags(&["attack.execution".to_string()]));
}

#[test]
fn rule_handle_builders() {
    let rule = rule_with("T", "12345678-1234-1234-1234-123456789012", selection_detection("selection"));
    let handle = RuleHandle::new(rule, "test.yml".to_string()).with_multipart(true).with_no_collapse_ws(true);
    assert!(handle.multipart);
    assert!(handle.no_collapse_ws);
    assert_eq!(handle.path, "test.yml");
}

#[test]
fn rule_validation_accepts_a_valid_rule() {
    let rule = rule_with("Test Rule", "12345678-1234-1234-1234-123456789012", selection_detection("selection"));
    assert!(validate_rule(&rule).is_ok());
}

#[test]
fn test_rule_validation_empty_title() {
    let rule = rule_with("   ", "12345678-1234-1234-1234-123456789012", selection_detection("selection"));
    match validate_rule(&rule) {
        Err(SigmaError::InvalidRule(m)) => assert!(m.contains("title cannot be empty")),
        _ => panic!("expected an invalid rule"),
    }
}

#[test]
fn test_rule_validation_invalid_id_format() {
    let rule = rule_with("Test Rule", "not-a-valid-uuid", selection_detection("selection"));
    match validate_rule(&rule) {
        Err(SigmaError::InvalidRule(m)) => {
            assert_eq!(m, "Rule ID 'not-a-valid-uuid' is not a valid UUID format");
        }
        _ => panic!("expected an invalid rule"),
    }
}

#[test]
fn test_rule_validation_missing_condition() {
    let det = detection_with(vec![(
        "selection",
        DetectionValue::Number { integer: Some(1), text: "1".to_string() },
    )]);
    let rule = rule_with("Test Rule", "12345678-1234-1234-1234-123456789012", det);
    assert!(matches!(validate_rule(&rule), Err(SigmaError::MissingCondition)));
}

#[test]
fn test_rule_validation_no_selections() {
    let det = detection_with(vec![("condition", DetectionValue::String("selection".to_string()))]);
    let rule = rule_with("Test Rule", "12345678-1234-1234-1234-123456789012", det);
    match validate_rule(&rule) {
        Err(SigmaError::InvalidRule(m)) => assert!(m.contains("must contain at least one selection")),
        _ => panic!("expected an invalid rule"),
    }
}

#[test]
fn test_rule_validation_valid_edge_cases() {
    let det = detection_with(vec![("condition", DetectionValue::String("true".to_string()))]);
    let rule = rule_with("Always True Rule", "12345678-1234-1234-1234-123456789012", det);
    assert!(validate_rule(&rule).is_ok());
    let det = detection_with(vec![("condition", DetectionValue::String("0".to_string()))]);
    let rule = rule_with("Always False Rule", "12345678-1234-1234-1234-123456789012", det);
    assert!(validate_rule(&rule).is_ok());
}

#[test]
fn detection_insert_replaces_and_extract_skips_condition() {
    let mut d = selection_detection("selection");
    d.insert("selection".to_string(), DetectionValue::Bool(true));
    assert_eq!(d.len(), 2);
    assert!(matches!(d.get("selection"), Some(DetectionValue::Bool(true))));
    assert_eq!(d.condition(), Some("selection"));
    let sel = d.extract();
    assert_eq!(sel.len(), 1);
    assert_eq!(sel[0].0, "selection");
    assert!(d.get("missing").is_none());
}

#[test]
fn test_result_creation() {
    let result = Result::new("123".to_string(), "Test Rule".to_string(), "Test Description".to_string());
    assert_eq!(result.id, "123");
    assert_eq!(result.title, "Test Rule");
    assert_eq!(result.description, "Test Description");
    assert!(result.tags.is_empty());
}

#[test]
fn test_result_with_tags() {
    let result = Result::new("123".to_string(), "Test Rule".to_string(), "Test Description".to_string())
        .with_tags(vec!["attack.discovery".to_string()]);
    assert_eq!(result.tags.len(), 1);
    assert_eq!(result.tags[0], "attack.discovery");
}

#[test]
fn test_results_collection() {
    let mut results = Results::new();
    assert!(results.is_empty());
    results.push(Result::new("123".to_string(), "Rule 1".to_string(), "Description 1".to_string()));
    results.push(Result::new("456".to_string(), "Rule 2".to_string(), "Description 2".to_string()));
    assert_eq!(results.len(), 2);
    let ids: Vec<&str> = results.iter().map(|r| r.id.as_str()).collect();
    assert_eq!(ids, vec!["123", "456"]);
}

#[test]
fn test_results_iteration() {
    let results = Results::from(vec![
        Result::new("1".to_string(), "R1".to_string(), "D1".to_string()),
        Result::new("2".to_string(), "R2".to_string(), "D2".to_string()),
    ]);
    let count = results.iter().count();
    assert_eq!(count, 2);
    let count = results.as_slice().iter().count();
    assert_eq!(count, 2);
    let count = results.into_vec().into_iter().count();
    assert_eq!(count, 2);
}

#[test]
fn test_results_as_ref() {
    let results = Results::from(vec![Result::new("1".to_string(), "R1".to_string(), "D1".to_string())]);
    let slice: &[Result] = results.as_slice();
    assert_eq!(slice.len(), 1);
}

#[test]
fn result_field_limits() {
    let ok = Result::new("test-id".to_string(), "Test Title".to_string(), "Test Description".to_string())
        .with_tags(vec!["tag1".to_string(), "tag2".to_string()]);
    assert!(validate_result(&ok).is_ok());
    let long_id = "a".repeat(257);
    assert_eq!(
        validate_string(&long_id, 256, "id").unwrap_err(),
        "id exceeds maximum length of 256 characters (got 257)"
    );
    let bad = Result::new(long_id, "Test".to_string(), "Test".to_string());
    assert!(validate_result(&bad).is_err());
    let many: Vec<String> = (0..101).map(|i| format!("tag{}", i)).collect();
    assert_eq!(validate_tags(&many).unwrap_err(), "Too many tags: maximum 100 allowed (got 101)");
    let long_tag = vec!["a".repeat(129)];
    assert_eq!(
        validate_tags(&long_tag).unwrap_err(),
        "Tag at index 0 exceeds maximum length of 128 characters (got 129)"
    );
}

#[test]
fn test_builder_configuration() {
    let kafka_config = KafkaConfig {
        brokers: "localhost:9092".to_string(),
        group_id: "sigma-test".to_string(),
        topics: vec!["events".to_string()],
        properties: std::collections::HashMap::new(),
        batch_size: Some(100),
        max_retries: Some(3),
        dlq_topic: Some("dlq-events".to_string()),
        backpressure_buffer_size: Some(1000),
        enable_metrics: true,
    };
    let builder = SigmaEngineBuilder::new()
        .add_rule_dir("/path/to/rules".to_string())
        .fail_on_parse_error(true)
        .collapse_whitespace(false)
        .worker_threads(4)
        .with_kafka(kafka_config);
    assert_eq!(builder.rule_dirs, vec!["/path/to/rules"]);
    assert!(builder.fail_on_parse_error);
    assert!(!builder.collapse_whitespace);
    assert_eq!(builder.worker_threads, 4);
    assert!(builder.kafka_config.is_some());
}

#[test]
fn test_builder_defaults() {
    let builder = SigmaEngineBuilder::new();
    assert_eq!(builder.rule_dirs.len(), 0);
    assert!(!builder.fail_on_parse_error);
    assert!(builder.collapse_whitespace);
    assert_eq!(builder.worker_threads, num_cpus::get());
    assert!(builder.kafka_config.is_none());
    let kafka = KafkaConfig::default();
    assert_eq!(kafka.brokers, "localhost:9092");
    assert_eq!(kafka.batch_size, Some(1000));
}

/// Reads a result's fields out of JSON text and checks them, as loading a
/// result does.
fn result_from_json_text(text: &str) -> std::result::Result<Result, String> {
    let v: serde_json::Value = serde_json::from_str(text).unwrap();
    let field = |name: &str| v.get(name).and_then(|x| x.as_str()).unwrap_or("").to_string();
    let tags: Vec<String> = match v.get("tags").and_then(|t| t.as_array()) {
        Some(a) => a.iter().map(|t| t.as_str().unwrap_or("").to_string()).collect(),
        None => Vec::new(),
    };
    let r = Result::new(field("id"), field("title"), field("description")).with_tags(tags);
    validate_result(&r).map(|_| r)
}

#[test]
fn test_deserialization_validation() {
    let valid_json = r#"{
        "id": "test-id",
        "title": "Test Title",
        "description": "Test Description",
        "tags": ["tag1", "tag2"]
    }"#;
    let result = result_from_json_text(valid_json).unwrap();
    assert_eq!(result.id, "test-id");
    assert_eq!(result.tags.len(), 2);
}

#[test]
fn test_deserialization_id_too_long() {
    let long_id = "a".repeat(sigma_rs::result::MAX_ID_TITLE_LENGTH + 1);
    let invalid_json = format!(
        r#"{{
            "id": "{}",
            "title": "Test",
            "description": "Test"
        }}"#,
        long_id
    );
    let result = result_from_json_text(&invalid_json);
    assert!(result.is_err());
    assert!(result.unwrap_err().contains("id exceeds maximum length"));
}

#[test]
fn test_deserialization_title_too_long() {
    let long_title = "a".repeat(sigma_rs::result::MAX_ID_TITLE_LENGTH + 1);
    let invalid_json = format!(
        r#"{{
            "id": "test",
            "title": "{}",
            "description": "Test"
        }}"#,
        long_title
    );
    let result = result_from_json_text(&invalid_json);
    assert!(result.is_err());
    assert!(result.unwrap_err().contains("title exceeds maximum length"));
}

#[test]
fn test_deserialization_too_many_tags() {
    let tags: Vec<String> = (0..sigma_rs::result::MAX_TAGS + 1).map(|i| format!("tag{}", i)).collect();
    let tags_json = serde_json::to_string(&tags).unwrap();
    let invalid_json = format!(
        r#"{{
            "id": "test",
            "title": "Test",
            "description": "Test",
            "tags": {}
        }}"#,
        tags_json
    );
    let result = result_from_json_text(&invalid_json);
    assert!(result.is_err());
    assert!(result.unwrap_err().contains("Too many tags"));
}

#[test]
fn test_deserialization_tag_too_long() {
    let long_tag = "a".repeat(sigma_rs::result::MAX_TAG_LENGTH + 1);
    let invalid_json = format!(
        r#"{{
            "id": "test",
            "title": "Test",
            "description": "Test",
            "tags": ["{}"]
        }}"#,
        long_tag
    );
    let result = result_from_json_text(&invalid_json);
    assert!(result.is_err());
    assert!(result.unwrap_err().contains("Tag at index 0 exceeds maximum length"));
}
