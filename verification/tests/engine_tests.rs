use sigma_rs::ast::{Branch, FieldPattern, FieldRule, MatchResult, NodeNot, NodeSimpleAnd, NodeSimpleOr};
use sigma_rs::ast::new_node_not_if_negated;
use sigma_rs::event::{DynamicEvent, JsonValue, SimpleEvent, Value};
use sigma_rs::lexer::lex;
use sigma_rs::lexer::token::{check_keyword, Token};
use sigma_rs::parser::rules::{create_rule_from_ident, parse_field_modifier, process_string_value};
use sigma_rs::parser::{extract_group, valid_token_sequence, ParseError, Parser};
use sigma_rs::pattern::string_matcher::{ContentPattern, StringMatcher};
use sigma_rs::pattern::TextPatternModifier;
use sigma_rs::rule::{Detection, DetectionValue, Logsource, Rule, RuleHandle};
use sigma_rs::tree::{build_tree, Tree};
use sigma_rs::service::{authorize, evaluate_request, rules_summary, EvaluateRefusal, HealthCheckService};
use sigma_rs::{RuleSet, SigmaEngine, SigmaEngineBuilder};

fn s(v: &str) -> DetectionValue {
    DetectionValue::String(v.to_string())
}

fn n(v: i64) -> DetectionValue {
    DetectionValue::Number { integer: Some(v), text: v.to_string() }
}

fn obj(entries: Vec<(&str, DetectionValue)>) -> DetectionValue {
    DetectionValue::Object(entries.into_iter().map(|(k, v)| (k.to_string(), v)).collect())
}

fn detection(entries: Vec<(&str, DetectionValue)>) -> Detection {
    let mut d = Detection::new();
    for (k, v) in entries {
        d.insert(k.to_string(), v);
    }
    d
}

fn event(fields: Vec<(&str, Value)>) -> SimpleEvent {
    SimpleEvent::new(fields.into_iter().map(|(k, v)| (k.to_string(), v)).collect())
}

fn text(v: &str) -> Value {
    Value::String(v.to_string())
}

fn parse(det: Detection) -> Result<Branch, ParseError> {
    let mut parser = Parser::new(det, false);
    parser.run()?;
    Ok(parser.into_result().expect("a tree after a successful run"))
}

fn rule(id: &str, title: &str, det: Detection) -> Rule {
    Rule {
        author: None,
        description: Some("Test Description".to_string()),
        falsepositives: vec![],
        fields: vec![],
        id: id.to_string(),
        level: Some("medium".to_string()),
        title: title.to_string(),
        status: None,
        references: vec![],
        logsource: Logsource::default(),
        detection: det,
        tags: vec!["attack.discovery".to_string()],
        date: None,
        modified: None,
    }
}

#[test]
fn test_valid_sequences() {
    assert!(valid_token_sequence(Token::Begin, Token::Identifier));
    assert!(valid_token_sequence(Token::Begin, Token::KeywordNot));
    assert!(valid_token_sequence(Token::Begin, Token::SepLpar));
    assert!(valid_token_sequence(Token::Begin, Token::StmtAllOf));
    assert!(valid_token_sequence(Token::Begin, Token::StmtOneOf));
    assert!(valid_token_sequence(Token::Identifier, Token::KeywordAnd));
    assert!(valid_token_sequence(Token::Identifier, Token::KeywordOr));
    assert!(valid_token_sequence(Token::Identifier, Token::LitEof));
    assert!(valid_token_sequence(Token::KeywordAnd, Token::Identifier));
    assert!(valid_token_sequence(Token::KeywordNot, Token::Identifier));
    assert!(valid_token_sequence(Token::StmtAllOf, Token::IdentifierAll));
    assert!(valid_token_sequence(Token::StmtOneOf, Token::Identifier));
    assert!(valid_token_sequence(Token::SepLpar, Token::Identifier));
    assert!(valid_token_sequence(Token::Identifier, Token::SepRpar));
}

#[test]
fn test_invalid_sequences() {
    assert!(!valid_token_sequence(Token::Identifier, Token::Identifier));
    assert!(!valid_token_sequence(Token::KeywordAnd, Token::KeywordAnd));
    assert!(!valid_token_sequence(Token::KeywordNot, Token::KeywordAnd));
    assert!(!valid_token_sequence(Token::Begin, Token::LitEof));
    assert!(!valid_token_sequence(Token::SepRpar, Token::SepLpar));
}

#[test]
fn lexing_a_condition() {
    let items = lex("sel1 and not (sel2 or 1 of them)");
    let tokens: Vec<Token> = items.iter().map(|i| i.token).collect();
    assert_eq!(
        tokens,
        vec![
            Token::Identifier,
            Token::KeywordAnd,
            Token::KeywordNot,
            Token::SepLpar,
            Token::Identifier,
            Token::KeywordOr,
            Token::StmtOneOf,
            Token::IdentifierAll,
            Token::SepRpar,
            Token::LitEof,
        ]
    );
    assert_eq!(items[0].value, "sel1");
    assert_eq!(items[6].value, "1 of");
    assert_eq!(check_keyword("all of"), Token::StmtAllOf);
}

#[test]
fn field_modifiers_and_values() {
    assert_eq!(parse_field_modifier("CommandLine|contains"), ("CommandLine".to_string(), Some(TextPatternModifier::Contains)));
    assert_eq!(parse_field_modifier("Image|EndsWith"), ("Image".to_string(), Some(TextPatternModifier::Suffix)));
    assert_eq!(parse_field_modifier("Image|weird"), ("Image".to_string(), None));
    assert_eq!(parse_field_modifier("Image"), ("Image".to_string(), None));
    assert_eq!(process_string_value("  a \t b  ", false), "a b");
    assert_eq!(process_string_value("  a \t b  ", true), "  a \t b  ");
}

#[test]
fn test_basic_parser() {
    let det = detection(vec![
        ("condition", s("selection1 and selection2")),
        ("selection1", s("value1")),
        ("selection2", s("value2")),
    ]);
    let tree = parse(det).unwrap();
    let hit = event(vec![("selection1", text("value1")), ("selection2", text("value2"))]);
    let miss = event(vec![("selection1", text("value1")), ("selection2", text("other"))]);
    assert_eq!(tree.matches(&hit), MatchResult { matched: true, applicable: true });
    assert_eq!(tree.matches(&miss), MatchResult { matched: false, applicable: true });
}

#[test]
fn test_parser_with_or() {
    let det = detection(vec![
        ("condition", s("selection1 or selection2")),
        ("selection1", s("value1")),
        ("selection2", s("value2")),
    ]);
    let tree = parse(det).unwrap();
    let hit = event(vec![("selection2", text("value2"))]);
    assert!(tree.matches(&hit).matched);
    let none = event(vec![]);
    assert_eq!(tree.matches(&none), MatchResult { matched: false, applicable: false });
}

#[test]
fn test_parser_with_not() {
    let det = detection(vec![
        ("condition", s("selection1 and not selection2")),
        ("selection1", s("value1")),
        ("selection2", s("value2")),
    ]);
    let tree = parse(det).unwrap();
    assert!(tree.matches(&event(vec![("selection1", text("value1")), ("selection2", text("x"))])).matched);
    assert!(!tree.matches(&event(vec![("selection1", text("value1")), ("selection2", text("value2"))])).matched);
}

#[test]
fn test_parser_with_parentheses() {
    let det = detection(vec![
        ("condition", s("(selection1 or selection2) and selection3")),
        ("selection1", s("value1")),
        ("selection2", s("value2")),
        ("selection3", s("value3")),
    ]);
    let tree = parse(det).unwrap();
    assert!(tree.matches(&event(vec![("selection2", text("value2")), ("selection3", text("value3"))])).matched);
    assert!(!tree.matches(&event(vec![("selection2", text("value2")), ("selection3", text("no"))])).matched);
}

#[test]
fn test_parser_with_object_rules() {
    let det = detection(vec![
        ("condition", s("selection and not exclusion")),
        ("selection", obj(vec![("EventID", n(4688)), ("Process", s("cmd.exe"))])),
        ("exclusion", obj(vec![("User", s("SYSTEM"))])),
    ]);
    let tree = parse(det).unwrap();
    let hit = event(vec![("EventID", Value::Integer(4688)), ("Process", text("cmd.exe")), ("User", text("alice"))]);
    let excluded = event(vec![("EventID", Value::Integer(4688)), ("Process", text("cmd.exe")), ("User", text("SYSTEM"))]);
    assert!(tree.matches(&hit).matched);
    assert!(!tree.matches(&excluded).matched);
}

#[test]
fn test_parser_with_numeric_values() {
    let det = detection(vec![
        ("condition", s("selection")),
        ("selection", obj(vec![("EventID", n(4688)), ("ProcessId", n(1234)), ("Enabled", DetectionValue::Bool(true))])),
    ]);
    let tree = parse(det).unwrap();
    let hit = event(vec![("EventID", text("4688")), ("ProcessId", Value::Integer(1234)), ("Enabled", Value::Boolean(true))]);
    assert!(tree.matches(&hit).matched);
}

#[test]
fn test_parser_with_field_modifiers() {
    let det = detection(vec![
        ("condition", s("selection")),
        (
            "selection",
            obj(vec![
                ("CommandLine|contains", s("powershell")),
                ("ProcessName|prefix", s("cmd")),
                ("ServiceName|suffix", s(".exe")),
            ]),
        ),
    ]);
    let tree = parse(det).unwrap();
    let hit = event(vec![
        ("CommandLine", text("run powershell -enc")),
        ("ProcessName", text("cmd.exe")),
        ("ServiceName", text("svc.exe")),
    ]);
    assert!(tree.matches(&hit).matched);
}

#[test]
fn test_deep_recursion_protection() {
    let mut condition = String::new();
    for _ in 0..60 {
        condition.push('(');
    }
    condition.push_str("selection");
    for _ in 0..60 {
        condition.push(')');
    }
    let det = detection(vec![("condition", s(&condition)), ("selection", s("value"))]);
    match parse(det) {
        Err(ParseError::RecursionLimitExceeded { current, limit }) => {
            assert_eq!(current, 51);
            assert_eq!(limit, 50);
        }
        _ => panic!("Expected RecursionLimitExceeded error"),
    }
}

#[test]
fn test_error_context_preservation() {
    let det = detection(vec![
        ("condition", s("selection1 selection2")),
        ("selection1", s("value1")),
        ("selection2", s("value2")),
    ]);
    match parse(det) {
        Err(ParseError::InvalidTokenSequence { token_count, context_tokens, .. }) => {
            assert!(token_count > 0);
            assert!(context_tokens.len() <= 5);
        }
        _ => panic!("Expected InvalidTokenSequence error"),
    }
}

#[test]
fn memory_limit_of_collected_tokens() {
    let det = detection(vec![("condition", s("selection1 or selection2")), ("selection1", s("a")), ("selection2", s("b"))]);
    let mut parser = Parser::new_with_limits(det, false, 100).with_max_memory(10);
    match parser.run() {
        Err(ParseError::MemoryLimitExceeded { limit_bytes, .. }) => assert_eq!(limit_bytes, 10),
        _ => panic!("Expected MemoryLimitExceeded error"),
    }
}

#[test]
fn token_limit_of_collected_tokens() {
    let det = detection(vec![("condition", s("selection1 or selection2")), ("selection1", s("a")), ("selection2", s("b"))]);
    let mut parser = Parser::new_with_limits(det, false, 2);
    match parser.run() {
        Err(ParseError::TokenLimitExceeded { current, limit }) => {
            assert_eq!(current, 2);
            assert_eq!(limit, 2);
        }
        _ => panic!("Expected TokenLimitExceeded error"),
    }
}

#[test]
fn missing_selection_is_reported() {
    let det = detection(vec![("condition", s("selection or other")), ("selection", s("a"))]);
    match parse(det) {
        Err(ParseError::MissingConditionItem { key }) => assert_eq!(key, "other"),
        _ => panic!("Expected MissingConditionItem"),
    }
}

#[test]
fn unbalanced_parentheses_are_refused() {
    let det = detection(vec![("condition", s("(selection")), ("selection", s("a"))]);
    assert_eq!(parse(det).unwrap_err(), ParseError::ParserError("Unbalanced parentheses".to_string()));
}

#[test]
fn quantifiers_over_selections() {
    let det = detection(vec![
        ("condition", s("1 of sel*")),
        ("sel_a", s("a")),
        ("sel_b", s("b")),
        ("other", s("c")),
    ]);
    let tree = parse(det).unwrap();
    assert!(tree.matches(&event(vec![("sel_b", text("b"))])).matched);
    assert!(!tree.matches(&event(vec![("other", text("c"))])).matched);

    let det = detection(vec![("condition", s("all of them")), ("a", s("1")), ("b", s("2"))]);
    let tree = parse(det).unwrap();
    assert!(tree.matches(&event(vec![("a", text("1")), ("b", text("2"))])).matched);
    assert!(!tree.matches(&event(vec![("a", text("1")), ("b", text("3"))])).matched);

    let det = detection(vec![("condition", s("1 of nothing*")), ("a", s("1"))]);
    assert_eq!(
        parse(det).unwrap_err(),
        ParseError::ParserError("No matching identifiers for wildcard pattern".to_string())
    );
}

#[test]
fn list_values_match_any() {
    let det = detection(vec![
        ("condition", s("selection")),
        ("selection", obj(vec![("Image|endswith", DetectionValue::Array(vec![s("\\cmd.exe"), s("\\pwsh.exe"), DetectionValue::Null]))])),
    ]);
    let tree = parse(det).unwrap();
    assert!(tree.matches(&event(vec![("Image", text("C:\\Windows\\cmd.exe"))])).matched);
    assert!(!tree.matches(&event(vec![("Image", text("C:\\Windows\\notepad.exe"))])).matched);
}

#[test]
fn null_value_is_refused() {
    let r = create_rule_from_ident("Field", &DetectionValue::Null, false);
    assert_eq!(
        r.unwrap_err(),
        ParseError::FieldPatternCreationFailed {
            field: "Field".to_string(),
            value: "Null".to_string(),
            error: "Unsupported value type for field rule".to_string(),
        }
    );
    let empty = create_rule_from_ident("Field", &DetectionValue::Object(vec![]), false);
    assert!(matches!(empty, Err(ParseError::FieldPatternCreationFailed { .. })));
    let none_valid = create_rule_from_ident("Field", &DetectionValue::Array(vec![DetectionValue::Null]), false);
    match none_valid {
        Err(ParseError::NoValidFieldPatterns { rule_id, field, errors }) => {
            assert_eq!(rule_id, "unknown");
            assert_eq!(field, "Field");
            assert_eq!(errors.len(), 1);
        }
        _ => panic!("Expected NoValidFieldPatterns"),
    }
}

#[test]
fn extracting_a_group() {
    let items = lex("(a or (b)) and c");
    let (group, next) = extract_group(&items, 1).unwrap();
    assert_eq!(group.len(), 5);
    assert_eq!(next, 7);
    assert!(extract_group(&lex("(a or b"), 1).is_err());
}

#[test]
fn node_reduction_and_negation() {
    let leaf = |v: &str| {
        Branch::Rule(FieldRule::new(
            "f".to_string(),
            FieldPattern::String {
                matcher: StringMatcher::Content(ContentPattern { token: v.to_string(), lowercase: false, no_collapse_ws: false }),
                pattern_desc: v.to_string(),
            },
        ))
    };
    assert!(NodeSimpleAnd::new(vec![]).reduce().is_err());
    assert!(matches!(NodeSimpleAnd::new(vec![leaf("a")]).reduce(), Ok(Branch::Rule(_))));
    assert!(matches!(NodeSimpleAnd::new(vec![leaf("a"), leaf("b")]).reduce(), Ok(Branch::And(_))));
    assert!(matches!(NodeSimpleOr::new(vec![leaf("a"), leaf("b")]).reduce(), Ok(Branch::Or(_))));
    assert!(matches!(NodeSimpleOr::new(vec![leaf("a"), leaf("b"), leaf("c")]).reduce(), Ok(Branch::SimpleOr(_))));
    let ev = event(vec![("f", text("a"))]);
    let not_a = new_node_not_if_negated(leaf("a"), true);
    assert_eq!(not_a.matches(&ev), MatchResult { matched: false, applicable: true });
    let twice = Branch::Not(NodeNot::new(Box::new(not_a)));
    assert_eq!(twice.matches(&ev), leaf("a").matches(&ev));
    let absent = event(vec![]);
    assert_eq!(new_node_not_if_negated(leaf("a"), true).matches(&absent), MatchResult::not_applicable());
}

#[test]
fn keyword_rules() {
    let rule = FieldRule::new("kw".to_string(), FieldPattern::Keywords(vec!["evil".to_string()]));
    assert_eq!(rule.matches(&event(vec![("x", text("evil"))])), MatchResult::matched());
    assert_eq!(rule.matches(&event(vec![("x", text("good"))])), MatchResult::not_matched());
}

#[test]
fn test_tree_eval() {
    let det = detection(vec![("condition", s("selection")), ("selection", obj(vec![("EventID", s("1"))]))]);
    let handle = RuleHandle::new(rule("12345678-1234-1234-1234-123456789007", "Test Rule", det), "test.yml".to_string());
    let tree: Tree = build_tree(handle).unwrap();
    let (result, applicable) = tree.eval(&event(vec![("EventID", text("1"))]));
    assert!(applicable);
    let result = result.expect("a result when the event matches");
    assert_eq!(result.id, "12345678-1234-1234-1234-123456789007");
    assert_eq!(result.title, "Test Rule");
    assert_eq!(result.description, "Test Description");
    assert_eq!(result.tags, vec!["attack.discovery"]);
    let (result, applicable) = tree.eval(&event(vec![("EventID", text("2"))]));
    assert!(applicable);
    assert!(result.is_none());
}

#[test]
fn build_tree_reports_errors_against_the_rule() {
    let det = detection(vec![("selection", s("a"))]);
    let handle = RuleHandle::new(rule("r1", "T", det), "x".to_string());
    assert!(matches!(build_tree(handle), Err(ParseError::MissingCondition)));
    let det = detection(vec![("condition", s("(")), ("selection", s("a"))]);
    let handle = RuleHandle::new(rule("r1", "T", det), "x".to_string());
    assert!(build_tree(handle).is_err());
}

#[test]
fn ruleset_add_evaluate_and_enable() {
    let mut rs = RuleSet::new();
    assert!(rs.is_empty());
    let det1 = detection(vec![("condition", s("selection")), ("selection", obj(vec![("EventID", n(1))]))]);
    let det2 = detection(vec![("condition", s("selection")), ("selection", obj(vec![("EventID", n(2))]))]);
    rs.add_rule(rule("rule-1", "One", det1)).unwrap();
    rs.add_rule(rule("", "Two", det2)).unwrap();
    assert_eq!(rs.len(), 2);
    assert_eq!(rs.get_metadata().enabled_rules, 2);
    let result = rs.evaluate(&event(vec![("EventID", Value::Integer(1))]));
    assert_eq!(result.rules_evaluated, 2);
    assert!(result.matches[0].matched);
    assert_eq!(result.matches[0].rule_id, "rule-1");
    assert!(!result.matches[1].matched);
    assert_eq!(result.matches[1].rule_id, "unknown");
    rs.set_rule_enabled("rule-1", false).unwrap();
    rs.set_rule_enabled("rule-1", false).unwrap();
    assert_eq!(rs.get_metadata().enabled_rules, 1);
    rs.set_rule_enabled("rule_1", true).unwrap();
    assert_eq!(rs.get_metadata().enabled_rules, 1);
    let result = rs.evaluate(&event(vec![("EventID", Value::Integer(1))]));
    assert_eq!(result.rules_evaluated, 1);
    assert_eq!(rs.set_rule_enabled("missing", true).unwrap_err(), "Rule not found: missing");
    let bad = detection(vec![("condition", s("nope")), ("selection", s("a"))]);
    assert!(rs.add_rule(rule("bad", "Bad", bad)).is_err());
    assert_eq!(rs.len(), 2);
}

#[test]
fn test_set_rule_enabled_idempotent() {
    let mut ruleset = RuleSet::new();
    let det = detection(vec![("selection", obj(vec![("EventID", n(1))])), ("condition", s("selection"))]);
    ruleset.add_rule(rule("12345678-1234-1234-1234-123456789001", "Test Rule", det)).unwrap();
    assert_eq!(ruleset.get_metadata().enabled_rules, 1);
    ruleset.set_rule_enabled("12345678-1234-1234-1234-123456789001", false).unwrap();
    assert_eq!(ruleset.get_metadata().enabled_rules, 0);
    ruleset.set_rule_enabled("12345678-1234-1234-1234-123456789001", false).unwrap();
    assert_eq!(ruleset.get_metadata().enabled_rules, 0);
    ruleset.set_rule_enabled("12345678-1234-1234-1234-123456789001", true).unwrap();
    assert_eq!(ruleset.get_metadata().enabled_rules, 1);
    ruleset.set_rule_enabled("12345678-1234-1234-1234-123456789001", true).unwrap();
    assert_eq!(ruleset.get_metadata().enabled_rules, 1);
}

/// A JSON object of the given properties, as an event holds it.
fn json_object(props: Vec<(&str, JsonValue)>) -> JsonValue {
    let rendering = format!("Object {:?}", props.iter().map(|(k, _)| k.to_string()).collect::<Vec<_>>());
    JsonValue::Object(props.into_iter().map(|(k, v)| (k.to_string(), v)).collect(), rendering)
}

#[test]
fn test_empty_ruleset() {
    let ruleset = RuleSet::new();
    assert!(ruleset.is_empty());
    assert_eq!(ruleset.len(), 0);
    let event = DynamicEvent::new(json_object(vec![
        ("EventID", JsonValue::Integer(1)),
        ("CommandLine", JsonValue::String("test.exe".to_string())),
    ]));
    let result = ruleset.evaluate(&event);
    assert_eq!(result.rules_evaluated, 0);
    assert!(result.matches.is_empty());
}

#[test]
fn test_add_rule() {
    let mut ruleset = RuleSet::new();
    let det = detection(vec![("selection", obj(vec![("EventID", n(1))])), ("condition", s("selection"))]);
    ruleset.add_rule(rule("12345678-1234-1234-1234-123456789001", "Test Rule", det)).unwrap();
    assert_eq!(ruleset.len(), 1);
    assert!(!ruleset.is_empty());
}

#[test]
fn test_rule_evaluation() {
    let mut ruleset = RuleSet::new();
    let det = detection(vec![
        ("selection", obj(vec![("EventID", n(1)), ("CommandLine|contains", s("powershell"))])),
        ("condition", s("selection")),
    ]);
    ruleset.add_rule(rule("12345678-1234-1234-1234-123456789002", "Process Creation", det)).unwrap();

    let event = DynamicEvent::new(json_object(vec![
        ("EventID", JsonValue::Integer(1)),
        ("CommandLine", JsonValue::String("powershell.exe -Command Get-Process".to_string())),
    ]));
    let result = ruleset.evaluate(&event);
    assert_eq!(result.rules_evaluated, 1);
    assert_eq!(result.matches.len(), 1);
    assert!(result.matches[0].matched);

    let event = DynamicEvent::new(json_object(vec![
        ("EventID", JsonValue::Integer(1)),
        ("CommandLine", JsonValue::String("notepad.exe".to_string())),
    ]));
    let result = ruleset.evaluate(&event);
    assert_eq!(result.rules_evaluated, 1);
    assert_eq!(result.matches.len(), 1);
    assert!(!result.matches[0].matched);
}

#[test]
fn test_engine_creation() {
    let engine = SigmaEngine::from_parts(RuleSet::new(), SigmaEngineBuilder::new());
    assert_eq!(engine.ruleset().len(), 0);
    let result = engine.process_event(DynamicEvent::new(json_object(vec![("EventID", JsonValue::Integer(1))])));
    assert_eq!(result.rules_evaluated, 0);
}

#[test]
fn test_build_tree_from_rule() {
    let det = detection(vec![("selection", obj(vec![("EventID", n(1))])), ("condition", s("selection"))]);
    let handle = RuleHandle::new(rule("test-123", "Test Rule", det), "test.yml".to_string());
    assert!(build_tree(handle).is_ok());
}

#[test]
fn test_build_tree_with_complex_condition() {
    let det = detection(vec![
        ("selection1", obj(vec![("EventID", n(1))])),
        ("selection2", obj(vec![("User", s("admin"))])),
        ("condition", s("selection1 and selection2")),
    ]);
    let handle = RuleHandle::new(rule("test-456", "Complex Rule", det), "test.yml".to_string());
    let tree = build_tree(handle).unwrap();
    let hit = event(vec![("EventID", Value::Integer(1)), ("User", text("admin"))]);
    let miss = event(vec![("EventID", Value::Integer(1)), ("User", text("guest"))]);
    assert!(tree.match_event(&hit).0);
    assert!(!tree.match_event(&miss).0);
}

/// An engine with one keyword rule, as a service is started with.
fn keyword_engine() -> SigmaEngine {
    let mut ruleset = RuleSet::new();
    let det = detection(vec![
        ("keywords", DetectionValue::Array(vec![s("test")])),
        ("condition", s("keywords")),
    ]);
    ruleset.add_rule(rule("", "Test Rule", det)).unwrap();
    SigmaEngine::from_parts(ruleset, SigmaEngineBuilder::new())
}

#[test]
fn test_api_key_authentication() {
    assert!(!authorize("/metrics", Some("test-api-key"), None));
    assert!(authorize("/metrics", Some("test-api-key"), Some("test-api-key")));
    assert!(!authorize("/metrics", Some("test-api-key"), Some("wrong-key")));
    assert!(authorize("/metrics", None, None));
}

#[test]
fn test_health_endpoint_bypasses_auth() {
    assert!(authorize("/health", Some("test-api-key"), None));
}

#[test]
fn test_rules_endpoint() {
    let engine = keyword_engine();
    let rules = rules_summary(&engine.ruleset().get_metadata());
    assert!(!rules.is_empty());
    assert!(rules[0].contains("Total rules:"));
    assert_eq!(rules, vec!["Total rules: 1", "Enabled rules: 1", "Failed rules: 0"]);
}

#[test]
fn test_evaluate_endpoint_success() {
    let engine = keyword_engine();
    let event = json_object(vec![("message", JsonValue::String("test event".to_string()))]);
    let response = evaluate_request(&engine, event).unwrap();
    // A keyword list is matched against a field of its identifier's name.
    assert!(!response.matched);
    assert!(response.rules.is_empty());
    assert_eq!(response.total_rules_evaluated, 1);
    let event = json_object(vec![("keywords", JsonValue::String("test".to_string()))]);
    let response = evaluate_request(&engine, event).unwrap();
    assert!(response.matched);
    assert_eq!(response.rules.len(), 1);
    assert_eq!(response.rules[0].rule_id, "unknown");
    assert_eq!(response.rules[0].rule_title, "Test Rule");
    assert_eq!(response.total_rules_evaluated, 1);
}

#[test]
fn test_evaluate_endpoint_empty_event() {
    let engine = keyword_engine();
    assert_eq!(evaluate_request(&engine, json_object(vec![])).unwrap_err(), EvaluateRefusal::BadRequest);
}

#[test]
fn test_health_endpoint() {
    let engine = std::sync::Arc::new(keyword_engine());
    let health = HealthCheckService::new(engine).check();
    assert_eq!(health.status, "healthy");
    assert!(!health.version.is_empty());
}

#[test]
fn item_glob_is_compiled_once_and_kept() {
    let mut item = sigma_rs::lexer::Item::new(Token::IdentifierWithWildcard, "sel*".to_string());
    let g = item.glob().expect("a glob");
    assert!(sigma_rs::pattern::engines::glob_is_match(g, "selection"));
    assert!(!sigma_rs::pattern::engines::glob_is_match(g, "filter"));
    assert!(item.glob_val.is_some());
    assert!(item.glob().is_some());
}

#[test]
fn item_glob_of_a_broken_pattern_is_none() {
    let mut item = sigma_rs::lexer::Item::new(Token::IdentifierWithWildcard, "a[".to_string());
    assert!(item.glob().is_none());
    assert!(item.glob_compile_failed);
    assert!(item.glob().is_none());
}

#[test]
fn test_lex_one_of() {
    let mut lexer = sigma_rs::lexer::Lexer::new("1 of");

    let next_state = lexer.lex_one_of();
    assert_eq!(next_state, sigma_rs::lexer::LexState::Condition);

    let item = &lexer.emitted()[0];
    assert_eq!(item.token, Token::StmtOneOf);
    assert_eq!(item.value, "1 of");
}

#[test]
fn test_lex_all_of() {
    let mut lexer = sigma_rs::lexer::Lexer::new("all of");

    let next_state = lexer.lex_all_of();
    assert_eq!(next_state, sigma_rs::lexer::LexState::Condition);

    let item = &lexer.emitted()[0];
    assert_eq!(item.token, Token::StmtAllOf);
    assert_eq!(item.value, "all of");
}

#[test]
fn test_memory_limit() {
    // Create a large condition that would exceed memory limits
    let large_value = "x".repeat(1_000_000); // 1MB string
    let condition = "selection1 or selection2 or selection3 or selection4 or selection5".to_string();
    let mut entries = vec![("condition".to_string(), s(&condition))];
    for i in 1..=5 {
        entries.push((format!("selection{}", i), s(&large_value)));
    }
    let mut detection = Detection::new();
    for (k, v) in entries {
        detection.insert(k, v);
    }

    let mut parser = Parser::new_with_limits(detection, false, 100).with_max_memory(1024 * 1024);

    let result = parser.run();
    match result {
        Err(ParseError::MemoryLimitExceeded { .. }) => {
            // Expected error
        }
        _ => panic!("Expected MemoryLimitExceeded error"),
    }
}

#[test]
fn selection_values_count_toward_the_memory_limit() {
    let det = detection(vec![("condition", s("selection")), ("selection", s("abcdef"))]);
    let mut parser = Parser::new_with_limits(det, false, 100).with_max_memory(5);
    match parser.run() {
        Err(ParseError::MemoryLimitExceeded { current_bytes, limit_bytes }) => {
            assert_eq!(current_bytes, 6);
            assert_eq!(limit_bytes, 5);
        }
        _ => panic!("Expected MemoryLimitExceeded error"),
    }
}

#[test]
fn array_without_usable_values_reports_one_error_per_value() {
    match create_rule_from_ident("Field", &DetectionValue::Array(vec![]), false) {
        Err(ParseError::NoValidFieldPatterns { rule_id, field, errors }) => {
            assert_eq!(rule_id, "unknown");
            assert_eq!(field, "Field");
            assert!(errors.is_empty());
        }
        other => panic!("unexpected {:?}", other.is_ok()),
    }
    let items = vec![DetectionValue::Null, DetectionValue::String("/(a+)+/".to_string())];
    match create_rule_from_ident("Field|re", &DetectionValue::Array(items), false) {
        Err(ParseError::NoValidFieldPatterns { errors, .. }) => {
            assert_eq!(errors.len(), 2);
            assert!(errors[0].starts_with("Unsupported value type in array: "));
            assert!(errors[1].starts_with("Failed to create string matcher for '/(a+)+/': Unsafe regex pattern: "));
        }
        other => panic!("unexpected {:?}", other.is_ok()),
    }
}

#[test]
fn descriptions_of_rules_and_branches() {
    let rule = FieldRule::glob_pattern("CommandLine".to_string(), "cmd*".to_string()).unwrap();
    let text = rule.describe();
    assert_eq!(text, "CommandLine matches String { pattern_desc: \"cmd*\" }");
    let id = sigma_rs::ast::Identifier::from_rule(rule);
    assert_eq!(id.describe(), text);
    let other = FieldRule::glob_pattern("Image".to_string(), "a".to_string()).unwrap();
    let both = NodeSimpleAnd::new(vec![Branch::Ident(id), Branch::Rule(other)]);
    assert_eq!(
        Branch::SimpleAnd(both).describe(),
        "(CommandLine matches String { pattern_desc: \"cmd*\" } AND Image matches String { pattern_desc: \"a\" })"
    );
}

fn rule_outcome(id: &str, title: &str, matched: bool) -> sigma_rs::RuleMatch {
    sigma_rs::RuleMatch {
        rule_id: id.to_string(),
        rule_title: title.to_string(),
        matched,
        match_result: sigma_rs::MatchResult::new(matched, true),
        evaluation_time: std::time::Duration::from_millis(1),
    }
}

fn outcomes(ms: Vec<sigma_rs::RuleMatch>) -> sigma_rs::RuleSetResult {
    let n = ms.len();
    sigma_rs::RuleSetResult { matches: ms, rules_evaluated: n, evaluation_time: std::time::Duration::from_millis(3) }
}

#[test]
fn compact_line_joins_matched_rule_ids() {
    let result = outcomes(vec![
        rule_outcome("a", "First", true),
        rule_outcome("b", "Second", false),
        rule_outcome("c", "Third", true),
    ]);
    assert_eq!(sigma_rs::report::compact_line(&result), Some("a,c".to_string()));
    let none = outcomes(vec![rule_outcome("a", "First", false)]);
    assert_eq!(sigma_rs::report::compact_line(&none), None);
    assert_eq!(sigma_rs::report::compact_line(&outcomes(vec![])), None);
}

#[test]
fn csv_rows_write_one_row_per_match_with_commas_replaced() {
    let result = outcomes(vec![
        rule_outcome("r1", "Suspicious, odd", true),
        rule_outcome("r2", "Quiet", false),
        rule_outcome("r3", "Plain", true),
    ]);
    let rows = sigma_rs::report::csv_rows(&result, "2024-01-01T00:00:00Z", 7);
    assert_eq!(
        rows,
        vec![
            "2024-01-01T00:00:00Z,7,r1,Suspicious; odd,true".to_string(),
            "2024-01-01T00:00:00Z,7,r3,Plain,true".to_string(),
        ]
    );
    assert_eq!(sigma_rs::report::csv_header(), "timestamp,event_id,rule_id,rule_title,matched");
}
