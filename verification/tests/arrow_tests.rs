use std::sync::Arc;

use arrow_json::reader::{infer_json_schema, ReaderBuilder};
use sigma_rs::arrow_event::{ArrowSchemaBuilder, ColumnType};
use sigma_rs::error::SigmaError;
use sigma_rs::json_to_arrow::{
    batch_bounds, is_blank, json_array_text, non_blank_lines, schema_sample_text, JsonLineBuffer,
};

fn lines(v: &[&str]) -> Vec<String> {
    v.iter().map(|s| s.to_string()).collect()
}

#[test]
fn test_schema_builder() {
    let schema = ArrowSchemaBuilder::new()
        .add_string_field("EventID")
        .add_string_field("CommandLine")
        .add_int_field("ProcessId")
        .add_float_field("CPU")
        .add_bool_field("Elevated");

    assert_eq!(schema.fields().len(), 7); // 2 default + 5 added
    assert_eq!(schema.fields()[0].0, "timestamp");
    assert_eq!(schema.fields()[1].0, "hostname");
}

#[test]
fn schema_builder_keeps_the_first_field_of_a_name() {
    let schema = ArrowSchemaBuilder::new().add_int_field("EventID").add_string_field("EventID").add_bool_field("hostname");
    let fields = schema.fields();
    assert_eq!(fields.len(), 3);
    assert_eq!(fields[2], ("EventID".to_string(), ColumnType::Int64));
    assert_eq!(fields[1], ("hostname".to_string(), ColumnType::Utf8));
}

#[test]
fn lines_are_written_as_one_json_array() {
    assert_eq!(json_array_text(&lines(&["{\"a\":1}", "{\"a\":2}"])), "[{\"a\":1},{\"a\":2}]");
    assert_eq!(json_array_text(&lines(&["{}"])), "[{}]");
    assert_eq!(json_array_text(&[]), "[]");
}

#[test]
fn blank_lines_are_skipped() {
    assert!(is_blank("  \t"));
    assert!(!is_blank(" {} "));
    assert_eq!(non_blank_lines(&lines(&["", "{\"a\":1}", "   ", "{\"a\":2}"])), lines(&["{\"a\":1}", "{\"a\":2}"]));
}

#[test]
fn schema_sample_keeps_the_lines_that_parse() {
    let text = schema_sample_text(&lines(&["{\"a\":1}", "not json", "{\"b\":\"x\"}"])).unwrap();
    assert_eq!(text, "{\"a\":1}\n{\"b\":\"x\"}\n");
    match schema_sample_text(&lines(&["nope", "{"])) {
        Err(SigmaError::Parse(m)) => assert_eq!(m, "No valid JSON found for schema inference"),
        other => panic!("unexpected {:?}", other),
    }
}

#[test]
fn schema_sample_reads_the_first_hundred_lines_only() {
    let mut v: Vec<String> = (0..100).map(|_| "x".to_string()).collect();
    v.push("{\"late\":1}".to_string());
    assert!(matches!(schema_sample_text(&v), Err(SigmaError::Parse(_))));
}

#[test]
fn batches_cover_the_lines_in_order() {
    assert_eq!(batch_bounds(3, 2), vec![(0, 2), (2, 3)]);
    assert_eq!(batch_bounds(4, 2), vec![(0, 2), (2, 4)]);
    assert_eq!(batch_bounds(1, 10), vec![(0, 1)]);
    assert_eq!(batch_bounds(0, 5), vec![]);
}

#[test]
fn line_buffer_is_ready_at_the_batch_size() {
    let mut b = JsonLineBuffer::new(2);
    b.add_line("{\"EventID\": 1}\n".to_string());
    b.add_line("\n".to_string());
    assert!(!b.should_flush());
    b.add_line("{\"EventID\": 2}\n".to_string());
    assert!(b.should_flush());
    assert_eq!(b.lines().len(), 2);
    b.clear();
    assert!(b.lines().is_empty());
}

#[test]
fn json_lines_decode_into_batches_of_the_batch_size() {
    let data = lines(&[
        "{\"EventID\": 1, \"CommandLine\": \"cmd.exe /c whoami\", \"ProcessId\": 1234}",
        "",
        "{\"EventID\": 4104, \"CommandLine\": \"Get-Process\", \"ProcessId\": 5678}",
        "{\"EventID\": 1, \"CommandLine\": \"powershell.exe -encoded\", \"ProcessId\": 9012}",
    ]);
    let kept = non_blank_lines(&data);
    let sample = schema_sample_text(&kept).unwrap();
    let (schema, _) = infer_json_schema(std::io::Cursor::new(sample.as_bytes()), None).unwrap();
    let schema = Arc::new(schema);
    assert!(schema.field_with_name("EventID").is_ok());
    assert!(schema.field_with_name("CommandLine").is_ok());
    assert!(schema.field_with_name("ProcessId").is_ok());

    let mut rows = Vec::new();
    for (start, end) in batch_bounds(kept.len(), 2) {
        let text = json_array_text(&kept[start..end]);
        let mut decoder = ReaderBuilder::new(schema.clone())
            .with_batch_size(end - start)
            .with_flatten(true)
            .build_decoder()
            .unwrap();
        decoder.decode(text.as_bytes()).unwrap();
        rows.push(decoder.flush().unwrap().unwrap().num_rows());
    }
    assert_eq!(rows, vec![2, 1]);
}
