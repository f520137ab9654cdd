use sigma_rs::ast::tiered_compiler::{TieredCompiler, TieredRule};
use sigma_rs::batch::{BatchColumn, BatchProcessorConfig, EventBatch, OptimizedBatchProcessor, OPTIMAL_BATCH_SIZE};
use sigma_rs::error::SigmaError;
use sigma_rs::event::JsonValue;
use sigma_rs::pattern::grouped_matcher::{FieldPatternGroup, GroupedPattern, GroupedPatternMatcher, PatternType};
use sigma_rs::rule::{Detection, DetectionValue, Logsource, Rule};

fn pattern(text: &str, pattern_type: PatternType, rule_id: &str, pattern_id: usize) -> GroupedPattern {
    GroupedPattern { pattern: text.to_string(), pattern_type, rule_id: rule_id.to_string(), pattern_id }
}

#[test]
fn test_grouped_matcher() {
    let mut matcher = GroupedPatternMatcher::new();
    matcher
        .add_pattern("CommandLine", pattern("powershell", PatternType::Contains, "rule1", 0))
        .unwrap();
    matcher
        .add_pattern("CommandLine", pattern("encoded", PatternType::Contains, "rule2", 1))
        .unwrap();
    matcher.build().unwrap();

    let group = matcher.get_field_group("CommandLine").unwrap();
    let matches = group.match_value("powershell -encoded command");
    assert_eq!(matches.len(), 2);
    assert!(matches.contains(&"rule1".to_string()));
    assert!(matches.contains(&"rule2".to_string()));
}

#[test]
fn grouped_matcher_orders_matches_by_kind() {
    let mut group = FieldPatternGroup::new("Image".to_string());
    group.add_pattern(pattern("cmd.exe", PatternType::EndsWith, "suffix", 0)).unwrap();
    group.add_pattern(pattern("C:\\Windows", PatternType::StartsWith, "prefix", 1)).unwrap();
    group.add_pattern(pattern("C:\\Windows\\cmd.exe", PatternType::Exact, "exact", 2)).unwrap();
    group.add_pattern(pattern("C:\\Windows\\cmd.exe", PatternType::Exact, "exact2", 3)).unwrap();
    group.add_pattern(pattern("^C:.*exe$", PatternType::Regex, "regex", 4)).unwrap();
    group.add_pattern(pattern("Windows", PatternType::Contains, "contains", 5)).unwrap();
    // The automaton is built only on request.
    assert_eq!(group.match_value("C:\\Windows\\cmd.exe"), vec!["exact", "exact2", "prefix", "suffix", "regex"]);
    group.build().unwrap();
    assert_eq!(
        group.match_value("C:\\Windows\\cmd.exe"),
        vec!["exact", "exact2", "contains", "prefix", "suffix", "regex"]
    );
    assert!(group.match_value("D:\\tools\\other.bin").is_empty());
    assert_eq!(group.exact_patterns.len(), 1);
}

#[test]
fn grouped_matcher_refuses_a_bad_regex_and_counts() {
    let mut matcher = GroupedPatternMatcher::new();
    let r = matcher.add_pattern("F", pattern("(unclosed", PatternType::Regex, "r", 0));
    assert!(matches!(r, Err(SigmaError::Pattern(ref m)) if m.starts_with("Invalid regex: ")));
    assert_eq!(matcher.pattern_count(), 0);
    // The field's group is created though the pattern was refused.
    assert!(matcher.get_field_group("F").is_some());
    matcher.add_pattern("G", pattern("x", PatternType::Exact, "r", 1)).unwrap();
    assert_eq!(matcher.pattern_count(), 1);
    assert!(matcher.get_field_group("H").is_none());
}

#[test]
fn grouped_matcher_matches_a_column() {
    let mut group = FieldPatternGroup::new("User".to_string());
    group.add_pattern(pattern("admin", PatternType::Contains, "r1", 0)).unwrap();
    group.add_pattern(pattern("root", PatternType::Exact, "r2", 1)).unwrap();
    group.build().unwrap();
    let column = vec![Some("administrator".to_string()), None, Some("root".to_string()), Some("sysadmin".to_string())];
    let hits = group.match_array(&column);
    assert_eq!(hits, vec![("r1".to_string(), vec![0, 3]), ("r2".to_string(), vec![2])]);
}

#[test]
fn test_tiered_compilation() {
    let mut compiler = TieredCompiler::new();
    let mut detection = Detection::new();
    detection.insert("condition".to_string(), DetectionValue::String("selection".to_string()));
    let rule = Rule {
        id: "test_rule".to_string(),
        title: "Test Rule".to_string(),
        description: Some("Test rule".to_string()),
        level: Some("medium".to_string()),
        detection,
        tags: vec![],
        logsource: Logsource::default(),
        author: None,
        falsepositives: vec![],
        fields: vec![],
        status: None,
        references: vec![],
        date: None,
        modified: None,
    };
    compiler.compile_rule(&rule).unwrap();
    compiler.build().unwrap();
    let stats = compiler.stats();
    assert_eq!(stats.total_rules, 1);
    assert_eq!(stats.simple_rules, 1);
    match &compiler.get_simple_rules()[0] {
        TieredRule::Simple { rule_id, field, value } => {
            assert_eq!(rule_id, "test_rule");
            assert_eq!(field, "placeholder");
            assert!(matches!(value, JsonValue::String(v) if v == "value"));
        }
        _ => panic!("expected a tier-1 rule"),
    }
    assert!(compiler.get_pattern_rules().is_empty());
    assert!(compiler.get_complex_rules().is_empty());
}

#[test]
fn test_batch_processor() {
    let config = BatchProcessorConfig::with_profiling(false);
    let tiered_compiler = TieredCompiler::new();
    let processor = OptimizedBatchProcessor::new(config, tiered_compiler);
    assert_eq!(processor.config().batch_size, OPTIMAL_BATCH_SIZE);
}

#[test]
fn batch_processing_counts_events_and_rules() {
    let mut compiler = TieredCompiler::new();
    let mut detection = Detection::new();
    detection.insert("condition".to_string(), DetectionValue::String("selection".to_string()));
    let rule = Rule {
        id: "r".to_string(),
        title: "R".to_string(),
        description: None,
        level: None,
        detection,
        tags: vec![],
        logsource: Logsource::default(),
        author: None,
        falsepositives: vec![],
        fields: vec![],
        status: None,
        references: vec![],
        date: None,
        modified: None,
    };
    compiler.compile_rule(&rule).unwrap();
    let processor = OptimizedBatchProcessor::new(BatchProcessorConfig::with_profiling(false), compiler);
    let batch = EventBatch {
        num_rows: 2,
        columns: vec![
            ("CommandLine".to_string(), BatchColumn::Text(vec![Some("a".to_string()), None])),
            ("EventID".to_string(), BatchColumn::Other("Int64".to_string())),
        ],
    };
    let results = processor.process_batch(&batch).unwrap();
    assert_eq!(results.stats.events_processed, 2);
    assert_eq!(results.stats.rules_evaluated, 1);
    assert_eq!(results.stats.matches_found, 0);
    assert!(results.rule_matches.is_empty());
}
