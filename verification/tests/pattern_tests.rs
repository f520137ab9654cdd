use std::borrow::Cow;

use sigma_rs::event::{FloatRepr, Value};
use sigma_rs::pattern::arrow_string_matcher::{ArrowMultiStringMatcher, ArrowStringMatcher};
use sigma_rs::pattern::coercion::{coerce_for_numeric_match, coerce_for_string_match};
use sigma_rs::pattern::factory::{new_num_matcher, new_string_matcher};
use sigma_rs::pattern::intern::{StringInterner, StringInternerConfig};
use sigma_rs::pattern::num_matcher::{NumMatchers, NumPattern};
use sigma_rs::pattern::security::{
    has_catastrophic_backtracking, has_excessive_nesting, safe_regex_compile,
    safe_regex_compile_with_config, RegexSecurityConfig, MAX_REGEX_PATTERN_LENGTH,
};
use sigma_rs::pattern::string_matcher::escape_sigma_for_glob as matcher_escape;
use sigma_rs::pattern::string_matcher::{ContentPattern, PrefixPattern, SuffixPattern};
use sigma_rs::pattern::{escape_sigma_for_glob, escape_sigma_for_glob_cow, handle_whitespace};
use sigma_rs::pattern::{IdentifierType, TextPatternModifier};
use sigma_rs::error::SigmaError;

#[test]
fn test_escape_empty_string() {
    assert_eq!(escape_sigma_for_glob(""), "");
}

#[test]
fn test_escape_simple_wildcards() {
    assert_eq!(escape_sigma_for_glob("test*"), "test*");
    assert_eq!(escape_sigma_for_glob("test?"), "test?");
}

#[test]
fn test_escape_backslash_wildcard() {
    assert_eq!(escape_sigma_for_glob("test\\*"), "test\\*");
    assert_eq!(escape_sigma_for_glob("test\\\\*"), "test\\\\*");
    assert_eq!(escape_sigma_for_glob("test\\\\\\*"), "test\\\\\\*");
}

#[test]
fn test_escape_brackets() {
    assert_eq!(escape_sigma_for_glob("test[abc]"), "test\\[abc\\]");
    assert_eq!(escape_sigma_for_glob("test{abc}"), "test\\{abc\\}");
}

#[test]
fn test_escape_complex() {
    assert_eq!(escape_sigma_for_glob("test\\\\"), "test\\\\");
    assert_eq!(escape_sigma_for_glob("\\\\test"), "\\\\test");
    assert_eq!(escape_sigma_for_glob("test\\[abc\\]"), "test\\\\\\[abc\\\\\\]");
}

#[test]
fn test_escape_cow_optimization() {
    let simple = "test_simple";
    let cow_result = escape_sigma_for_glob_cow(simple);
    match cow_result {
        Cow::Borrowed(s) => assert_eq!(s, simple),
        Cow::Owned(_) => panic!("Should be borrowed for simple strings"),
    }
    let complex = "test[abc]";
    let cow_result = escape_sigma_for_glob_cow(complex);
    match cow_result {
        Cow::Borrowed(_) => panic!("Should be owned for complex strings"),
        Cow::Owned(s) => assert_eq!(s, "test\\[abc\\]"),
    }
}

#[test]
fn debug_escape() {
    let input = "test\\[abc\\]";
    let result = escape_sigma_for_glob(input);
    println!("Input:  {:?}", input);
    println!("Output: {:?}", result);
    for (i, b) in input.as_bytes().iter().enumerate() {
        println!("{}: {} ({})", i, b, *b as char);
    }
    for (i, b) in result.as_bytes().iter().enumerate() {
        println!("{}: {} ({})", i, b, *b as char);
    }
}

#[test]
fn escape_plain_text_unchanged() {
    assert_eq!(escape_sigma_for_glob("plain text"), "plain text");
    assert_eq!(escape_sigma_for_glob("a]b"), "a\\]b");
}

#[test]
fn test_no_whitespace() {
    assert_eq!(handle_whitespace("test", false), "test");
    assert_eq!(handle_whitespace("test", true), "test");
}

#[test]
fn test_single_spaces() {
    assert_eq!(handle_whitespace("test string", false), "test string");
    assert_eq!(handle_whitespace("test string", true), "test string");
}

#[test]
fn test_collapse_whitespace() {
    assert_eq!(handle_whitespace("test  string", false), "test string");
    assert_eq!(handle_whitespace("test   string", false), "test string");
    assert_eq!(handle_whitespace("test\t\tstring", false), "test string");
    assert_eq!(handle_whitespace("test\n\nstring", false), "test string");
    assert_eq!(handle_whitespace("test \t \n string", false), "test string");
}

#[test]
fn test_no_collapse_when_disabled() {
    assert_eq!(handle_whitespace("test  string", true), "test  string");
    assert_eq!(handle_whitespace("test\t\tstring", true), "test\t\tstring");
    assert_eq!(handle_whitespace("test\n\nstring", true), "test\n\nstring");
}

#[test]
fn test_leading_trailing_whitespace() {
    assert_eq!(handle_whitespace("  test  ", false), " test ");
    assert_eq!(handle_whitespace("\t\ttest\n\n", false), " test ");
    assert_eq!(handle_whitespace("  test  ", true), "  test  ");
}

#[test]
fn test_cow_optimization() {
    let result = handle_whitespace("test", true);
    assert!(matches!(result, Cow::Borrowed(_)));
    let result = handle_whitespace("test string", false);
    assert!(matches!(result, Cow::Borrowed(_)));
    let result = handle_whitespace("test  string", false);
    assert!(matches!(result, Cow::Owned(_)));
}

#[test]
fn test_content_pattern() {
    let pattern = ContentPattern { token: "test".to_string(), lowercase: false, no_collapse_ws: false };
    assert!(pattern.string_match("test"));
    assert!(!pattern.string_match("Test"));
    assert!(!pattern.string_match("testing"));
}

#[test]
fn test_content_pattern_case_insensitive() {
    let pattern = ContentPattern { token: "test".to_string(), lowercase: true, no_collapse_ws: false };
    assert!(pattern.string_match("test"));
    assert!(pattern.string_match("Test"));
    assert!(pattern.string_match("TEST"));
    assert!(!pattern.string_match("testing"));
}

#[test]
fn test_prefix_pattern() {
    let pattern = PrefixPattern { token: "test".to_string(), lowercase: false, no_collapse_ws: false };
    assert!(pattern.string_match("test"));
    assert!(pattern.string_match("testing"));
    assert!(!pattern.string_match("Test"));
    assert!(!pattern.string_match("pretest"));
}

#[test]
fn test_suffix_pattern() {
    let pattern = SuffixPattern { token: "test".to_string(), lowercase: false, no_collapse_ws: false };
    assert!(pattern.string_match("test"));
    assert!(pattern.string_match("pretest"));
    assert!(!pattern.string_match("Test"));
    assert!(!pattern.string_match("testing"));
}

#[test]
fn test_whitespace_handling() {
    let pattern = ContentPattern { token: "test value".to_string(), lowercase: false, no_collapse_ws: false };
    assert!(pattern.string_match("test value"));
    assert!(pattern.string_match("test  value"));
    assert!(pattern.string_match("test\tvalue"));
    assert!(pattern.string_match("test\n\nvalue"));
}

#[test]
fn test_whitespace_preserved() {
    let pattern = ContentPattern { token: "test  value".to_string(), lowercase: false, no_collapse_ws: true };
    assert!(!pattern.string_match("test value"));
    assert!(pattern.string_match("test  value"));
}

#[test]
fn test_escape_sigma_for_glob() {
    assert_eq!(matcher_escape("test"), "test");
    assert_eq!(matcher_escape("*"), "*");
    assert_eq!(matcher_escape("\\*"), "\\*");
    assert_eq!(matcher_escape("\\\\*"), "\\\\*");
    assert_eq!(matcher_escape("[test]"), "\\[test\\]");
    assert_eq!(matcher_escape("\\"), "\\\\");
}

#[test]
fn test_num_pattern() {
    let pattern = NumPattern { value: 42 };
    assert!(pattern.num_match(42));
    assert!(!pattern.num_match(41));
    assert!(!pattern.num_match(43));
}

#[test]
fn test_num_matchers() {
    let matchers = vec![NumPattern { value: 1 }, NumPattern { value: 2 }, NumPattern { value: 3 }];
    let collection = NumMatchers::new(matchers);
    assert!(collection.num_match(1));
    assert!(collection.num_match(2));
    assert!(collection.num_match(3));
    assert!(!collection.num_match(4));
}

#[test]
fn test_identifier_type() {
    assert_eq!(IdentifierType::Selection, IdentifierType::Selection);
    assert_ne!(IdentifierType::Selection, IdentifierType::Keywords);
}

#[test]
fn test_new_string_matcher_content() {
    let matcher = new_string_matcher(TextPatternModifier::NoModifier, false, false, false, vec!["test".to_string()]).unwrap();
    assert!(matcher.string_match("test"));
    assert!(!matcher.string_match("Test"));
}

#[test]
fn test_new_string_matcher_prefix() {
    let matcher = new_string_matcher(TextPatternModifier::Prefix, false, false, false, vec!["test".to_string()]).unwrap();
    assert!(matcher.string_match("test"));
    assert!(matcher.string_match("testing"));
    assert!(!matcher.string_match("pretest"));
}

#[test]
fn test_new_string_matcher_contains() {
    let matcher = new_string_matcher(TextPatternModifier::Contains, false, false, false, vec!["test".to_string()]).unwrap();
    assert!(matcher.string_match("test"));
    assert!(matcher.string_match("testing"));
    assert!(matcher.string_match("pretest"));
    assert!(matcher.string_match("pretesting"));
}

#[test]
fn test_new_string_matcher_regex() {
    let matcher = new_string_matcher(TextPatternModifier::Regex, false, false, false, vec![r"test\d+".to_string()]).unwrap();
    assert!(matcher.string_match("test123"));
    assert!(!matcher.string_match("test"));
    assert!(!matcher.string_match("testing"));
}

#[test]
fn test_new_string_matcher_glob() {
    let matcher = new_string_matcher(TextPatternModifier::NoModifier, false, false, false, vec!["test*".to_string()]).unwrap();
    assert!(matcher.string_match("test"));
    assert!(matcher.string_match("testing"));
    assert!(!matcher.string_match("pretest"));
}

#[test]
fn test_new_string_matcher_multiple() {
    let matcher = new_string_matcher(
        TextPatternModifier::NoModifier,
        false,
        false,
        false,
        vec!["test1".to_string(), "test2".to_string()],
    )
    .unwrap();
    assert!(matcher.string_match("test1"));
    assert!(matcher.string_match("test2"));
    assert!(!matcher.string_match("test3"));
}

#[test]
fn test_new_string_matcher_all() {
    let matcher = new_string_matcher(
        TextPatternModifier::Contains,
        false,
        true,
        false,
        vec!["test".to_string(), "value".to_string()],
    )
    .unwrap();
    assert!(matcher.string_match("test value"));
    assert!(matcher.string_match("value test"));
    assert!(matcher.string_match("this test contains value"));
    assert!(!matcher.string_match("test"));
    assert!(!matcher.string_match("value"));
    assert!(!matcher.string_match("neither"));
}

#[test]
fn test_new_num_matcher() {
    let matcher = new_num_matcher(vec![1, 2, 3]).unwrap();
    assert!(matcher.num_match(1));
    assert!(matcher.num_match(2));
    assert!(matcher.num_match(3));
    assert!(!matcher.num_match(4));
}

#[test]
fn test_new_num_matcher_single() {
    let matcher = new_num_matcher(vec![42]).unwrap();
    assert!(matcher.num_match(42));
    assert!(!matcher.num_match(41));
}

#[test]
fn test_empty_patterns_error() {
    let result = new_string_matcher(TextPatternModifier::NoModifier, false, false, false, vec![]);
    assert!(result.is_err());
    assert_eq!(result.unwrap_err(), "No patterns defined for matcher object");
}

#[test]
fn test_memory_allocation_optimization() {
    let patterns = vec!["pattern1".to_string(), "pattern2".to_string(), "pattern3".to_string()];
    let result = new_string_matcher(TextPatternModifier::Contains, false, false, false, patterns);
    assert!(result.is_ok());
    let single_pattern = vec!["single".to_string()];
    let result = new_string_matcher(TextPatternModifier::NoModifier, false, false, false, single_pattern);
    assert!(result.is_ok());
}

#[test]
fn empty_num_matcher_is_refused() {
    assert_eq!(new_num_matcher(vec![]).unwrap_err(), "No patterns defined for matcher object");
}

#[test]
fn slashes_make_a_regex_and_keyword_finds_substrings() {
    let re = new_string_matcher(TextPatternModifier::NoModifier, false, false, false, vec!["/ab+c/".to_string()]).unwrap();
    assert!(re.string_match("xabbbcx"));
    assert!(!re.string_match("ac"));
    let kw = new_string_matcher(TextPatternModifier::Keyword, false, false, false, vec!["evil".to_string()]).unwrap();
    assert!(kw.string_match("an evil command"));
    assert!(!kw.string_match("good"));
}

#[test]
fn test_safe_patterns() {
    let safe_patterns = [r"test", r"^start", r"end$", r"[a-zA-Z]+", r"\d{4}-\d{2}-\d{2}", r"(?i)case_insensitive"];
    for pattern in &safe_patterns {
        assert!(safe_regex_compile(pattern).is_ok(), "Safe pattern should compile: {}", pattern);
    }
}

#[test]
fn test_unsafe_patterns() {
    let unsafe_patterns = ["", "(a+)+", "(a*)*", "(a|a)*"];
    for pattern in &unsafe_patterns {
        assert!(safe_regex_compile(pattern).is_err(), "Unsafe pattern should be rejected: {}", pattern);
    }
}

#[test]
fn test_excessive_nesting() {
    let deeply_nested = "((((((((((a))))))))))";
    assert!(!has_excessive_nesting(deeply_nested));
    let too_deeply_nested = "(((((((((((a)))))))))))";
    assert!(has_excessive_nesting(too_deeply_nested));
}

#[test]
fn test_catastrophic_backtracking() {
    assert!(has_catastrophic_backtracking("(a+)+"));
    assert!(has_catastrophic_backtracking("(a*)*"));
    assert!(has_catastrophic_backtracking("(.*|.*)"));
    assert!(!has_catastrophic_backtracking("normal pattern"));
}

#[test]
fn test_pattern_length_limit() {
    let long_pattern = "a".repeat(MAX_REGEX_PATTERN_LENGTH + 1);
    let result = safe_regex_compile(&long_pattern);
    assert!(result.is_err());
    if let Err(SigmaError::UnsafeRegex { reason, .. }) = result {
        assert!(reason.contains("Pattern too long"));
        assert_eq!(reason, "Pattern too long: 1001 characters (max: 1000)");
    }
}

#[test]
fn test_custom_config() {
    let config = RegexSecurityConfig { max_pattern_length: 10, enable_redos_scanning: false, ..Default::default() };
    let result = safe_regex_compile_with_config("this_is_too_long", &config);
    assert!(result.is_err());
    let result = safe_regex_compile_with_config("test", &config);
    assert!(result.is_ok());
    let _result = safe_regex_compile_with_config("(a+)+", &config);
}

#[test]
fn redos_reason_names_the_pattern_found() {
    match safe_regex_compile("(a+)+") {
        Err(SigmaError::UnsafeRegex { pattern, reason }) => {
            assert_eq!(pattern, "(a+)+");
            assert!(reason.starts_with("Pattern matches known ReDoS vulnerability: "));
        }
        _ => panic!("expected a refusal"),
    }
}

#[test]
fn test_string_interner() {
    let mut interner = StringInterner::new();
    let s1 = interner.intern("test");
    let s2 = interner.intern("test");
    let s3 = interner.intern("different");
    assert!(std::sync::Arc::ptr_eq(&s1, &s2));
    assert!(!std::sync::Arc::ptr_eq(&s1, &s3));
    assert_eq!(s1.as_str(), "test");
    assert_eq!(s2.as_str(), "test");
    assert_eq!(s3.as_str(), "different");
}

#[test]
fn test_interner_stats() {
    let mut interner = StringInterner::new();
    let _s1 = interner.intern("stat_test_1");
    let _s2 = interner.intern("stat_test_2");
    let _s3 = interner.intern("stat_test_1");
    let stats = interner.stats();
    assert_eq!(stats.unique_strings, 2);
    assert_eq!(stats.poison_events, 0);
}

#[test]
fn test_capacity_eviction() {
    let config = StringInternerConfig { max_capacity: 10 };
    let mut interner = StringInterner::with_config(config);
    for i in 0..10 {
        interner.intern(&format!("string_{}", i));
    }
    let stats = interner.stats();
    assert_eq!(stats.unique_strings, 10);
    for i in 10..15 {
        interner.intern(&format!("string_{}", i));
    }
    let stats = interner.stats();
    assert!(stats.unique_strings <= 10);
    assert!(stats.unique_strings >= 5);
}

#[test]
fn test_custom_capacity() {
    let config = StringInternerConfig { max_capacity: 100 };
    let mut interner = StringInterner::with_config(config);
    for i in 0..50 {
        interner.intern(&format!("test_{}", i));
    }
    let stats = interner.stats();
    assert_eq!(stats.unique_strings, 50);
}

#[test]
fn eviction_drops_the_oldest_tenth() {
    let mut interner = StringInterner::with_config(StringInternerConfig { max_capacity: 10 });
    let first = interner.intern("s0");
    for i in 1..10 {
        interner.intern(&format!("s{}", i));
    }
    interner.intern("s10");
    assert_eq!(interner.stats().unique_strings, 10);
    let again = interner.intern("s0");
    assert!(!std::sync::Arc::ptr_eq(&first, &again));
    assert_eq!(again.as_str(), "s0");
}

#[test]
fn coercion_of_values() {
    assert_eq!(coerce_for_string_match(&Value::String("test".to_string())), "test");
    assert_eq!(coerce_for_string_match(&Value::Integer(123)), "123");
    assert_eq!(coerce_for_string_match(&Value::Integer(-45)), "-45");
    assert_eq!(
        coerce_for_string_match(&Value::Float(FloatRepr { as_string_int: 123, as_numeric: Some(123) })),
        "123"
    );
    assert_eq!(coerce_for_string_match(&Value::Boolean(true)), "true");
    assert_eq!(coerce_for_string_match(&Value::Null), "null");
    assert_eq!(coerce_for_numeric_match(&Value::Integer(123)), Some(123));
    assert_eq!(coerce_for_numeric_match(&Value::String("123".to_string())), Some(123));
    assert_eq!(coerce_for_numeric_match(&Value::String("not a number".to_string())), None);
    assert_eq!(coerce_for_numeric_match(&Value::Boolean(true)), None);
    assert_eq!(
        coerce_for_numeric_match(&Value::Float(FloatRepr { as_string_int: 0, as_numeric: None })),
        None
    );
    assert_eq!(coerce_for_numeric_match(&Value::String("-9223372036854775808".to_string())), Some(i64::MIN));
    assert_eq!(coerce_for_numeric_match(&Value::String("9223372036854775808".to_string())), None);
}

/// The representation a JSON float such as 123.456 gets: its integer part.
fn float_of_integer_part(i: i64) -> Value {
    Value::Float(FloatRepr { as_string_int: i, as_numeric: Some(i) })
}

#[test]
fn test_string_coercion() {
    assert_eq!(coerce_for_string_match(&Value::String("test".to_string())), "test");
    assert_eq!(coerce_for_string_match(&Value::Integer(123)), "123");
    assert_eq!(coerce_for_string_match(&float_of_integer_part(123)), "123");
    assert_eq!(coerce_for_string_match(&Value::Boolean(true)), "true");
    assert_eq!(coerce_for_string_match(&Value::Null), "null");
}

#[test]
fn test_numeric_coercion() {
    assert_eq!(coerce_for_numeric_match(&Value::Integer(123)), Some(123));
    assert_eq!(coerce_for_numeric_match(&float_of_integer_part(123)), Some(123));
    assert_eq!(coerce_for_numeric_match(&Value::String("123".to_string())), Some(123));
    assert_eq!(coerce_for_numeric_match(&Value::String("not a number".to_string())), None);
    assert_eq!(coerce_for_numeric_match(&Value::Boolean(true)), None);
}

fn column(values: &[&str]) -> Vec<Option<String>> {
    values.iter().map(|v| Some(v.to_string())).collect()
}

#[test]
fn test_exact_match() {
    let array = column(&["hello", "world", "Hello", "HELLO"]);
    let matcher = ArrowStringMatcher::new("hello".to_string(), TextPatternModifier::NoModifier, false);
    let result = matcher.evaluate(&array).unwrap();
    assert_eq!(result[0], Some(true));
    assert_eq!(result[1], Some(false));
    assert_eq!(result[2], Some(false));
    assert_eq!(result[3], Some(false));

    let matcher = ArrowStringMatcher::new("hello".to_string(), TextPatternModifier::NoModifier, true);
    let result = matcher.evaluate(&array).unwrap();
    assert_eq!(result[0], Some(true));
    assert_eq!(result[1], Some(false));
    assert_eq!(result[2], Some(true));
    assert_eq!(result[3], Some(true));
}

#[test]
fn test_contains_match() {
    let array = column(&["hello world", "goodbye", "say hello", "HELLO"]);
    let matcher = ArrowStringMatcher::new("hello".to_string(), TextPatternModifier::Contains, false);
    let result = matcher.evaluate(&array).unwrap();
    assert_eq!(result[0], Some(true));
    assert_eq!(result[1], Some(false));
    assert_eq!(result[2], Some(true));
    assert_eq!(result[3], Some(false));
}

#[test]
fn test_multi_pattern() {
    let array = column(&["hello", "world", "goodbye", "hello world"]);
    let matcher = ArrowMultiStringMatcher::new(
        vec!["hello".to_string(), "world".to_string()],
        TextPatternModifier::Contains,
        false,
    );
    let result = matcher.evaluate(&array).unwrap();
    assert_eq!(result[0], Some(true));
    assert_eq!(result[1], Some(true));
    assert_eq!(result[2], Some(false));
    assert_eq!(result[3], Some(true));

    let matcher = ArrowMultiStringMatcher::new(
        vec!["hello".to_string(), "world".to_string()],
        TextPatternModifier::Contains,
        false,
    )
    .with_and_combination();
    let result = matcher.evaluate(&array).unwrap();
    assert_eq!(result[0], Some(false));
    assert_eq!(result[1], Some(false));
    assert_eq!(result[2], Some(false));
    assert_eq!(result[3], Some(true));
}

#[test]
fn columnar_matching_of_missing_values_and_other_modifiers() {
    let array = vec![Some("C:\\Windows\\cmd.exe".to_string()), None, Some("c:\\windows\\CMD.EXE".to_string())];
    let prefix = ArrowStringMatcher::new("C:\\Windows".to_string(), TextPatternModifier::Prefix, false);
    assert_eq!(prefix.evaluate(&array).unwrap(), vec![Some(true), None, Some(false)]);
    let suffix = ArrowStringMatcher::new("cmd.exe".to_string(), TextPatternModifier::Suffix, true);
    assert_eq!(suffix.evaluate(&array).unwrap(), vec![Some(true), None, Some(true)]);
    let regex = ArrowStringMatcher::new("^[a-z]:".to_string(), TextPatternModifier::Regex, false);
    assert_eq!(regex.evaluate(&array).unwrap(), vec![Some(false), None, Some(true)]);
    let bad = ArrowStringMatcher::new("(".to_string(), TextPatternModifier::Regex, false);
    assert!(matches!(bad.evaluate(&array), Err(SigmaError::Pattern(ref m)) if m.starts_with("Invalid regex: ")));
    let all = ArrowStringMatcher::new("x".to_string(), TextPatternModifier::All, false);
    assert!(matches!(all.evaluate(&array), Err(SigmaError::Pattern(ref m)) if m == "All modifier not supported at array level"));
    let none = ArrowMultiStringMatcher::new(vec![], TextPatternModifier::Contains, false);
    assert_eq!(none.evaluate(&array).unwrap(), vec![Some(false), Some(false), Some(false)]);
    let special = ArrowStringMatcher::new("a.b".to_string(), TextPatternModifier::NoModifier, true);
    assert_eq!(special.evaluate(&column(&["A.B", "axb"])).unwrap(), vec![Some(true), Some(false)]);
}

#[test]
fn small_interner_stays_within_its_capacity() {
    let mut interner = StringInterner::with_config(StringInternerConfig { max_capacity: 1 });
    let a = interner.intern("first");
    let b = interner.intern("second");
    assert_eq!(&*a, "first");
    assert_eq!(&*b, "second");
    assert_eq!(interner.stats().unique_strings, 1);
    let mut interner = StringInterner::with_config(StringInternerConfig { max_capacity: 3 });
    for s in ["a", "b", "c", "d", "e"] {
        interner.intern(s);
        assert!(interner.stats().unique_strings <= 3);
    }
}

#[test]
fn unsafe_regex_is_refused_with_its_reason() {
    match new_string_matcher(TextPatternModifier::Regex, false, false, false, vec![String::new()]) {
        Err(e) => assert_eq!(e, "Unsafe regex pattern: Empty regex pattern"),
        Ok(_) => panic!("an empty regex is refused"),
    }
    match sigma_rs::ast::FieldRule::glob_pattern("f".to_string(), "/(a+)+/".to_string()) {
        Err(e) => assert!(e.starts_with("Unsafe regex pattern")),
        Ok(_) => panic!("a nested quantifier is refused"),
    }
}
