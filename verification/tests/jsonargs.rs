use std::collections::HashMap;
use std::io::{BufRead, Cursor};

use libmcptool::error::Error;
use libmcptool::jsonargs::{JsonArgsReader, JsonKind, JsonStep};
use serde_json::Value;

/// Reads JSON arguments line by line as the JSON mode does; the object
/// found, if any, is read into a map.
fn read(input: &str) -> Result<Option<HashMap<String, Value>>, Error> {
    let mut reader = JsonArgsReader::new();
    let mut outcome = None;
    for line in Cursor::new(input.to_string()).lines() {
        let line = line.unwrap();
        if let JsonStep::Done(r) = reader.feed(&line) {
            outcome = Some(r);
            break;
        }
    }
    let outcome = match outcome {
        Some(r) => r,
        None => reader.finish(),
    };
    outcome.map(|o| o.map(|text| serde_json::from_str::<HashMap<String, Value>>(&text).unwrap()))
}

#[test]
fn test_empty_input() {
    let result = read("").unwrap();
    assert!(result.is_none());
}

#[test]
fn test_simple_json_object() {
    let input = r#"{"name": "test", "count": 42}"#;
    let map = read(input).unwrap().unwrap();
    assert_eq!(map.len(), 2);
    assert_eq!(
        map.get("name").unwrap(),
        &serde_json::Value::String("test".to_string())
    );
    assert_eq!(
        map.get("count").unwrap(),
        &serde_json::Value::Number(serde_json::Number::from(42))
    );
}

#[test]
fn test_multiline_json() {
    let input = "{\n  \"name\": \"test\",\n  \"enabled\": true\n}";
    let map = read(input).unwrap().unwrap();
    assert_eq!(map.len(), 2);
    assert_eq!(
        map.get("name").unwrap(),
        &serde_json::Value::String("test".to_string())
    );
    assert_eq!(map.get("enabled").unwrap(), &serde_json::Value::Bool(true));
}

#[test]
fn test_complex_json_object() {
    let input = r#"{
            "string_val": "hello",
            "int_val": 123,
            "float_val": 3.14,
            "bool_val": true,
            "null_val": null,
            "array_val": [1, 2, 3],
            "nested_obj": {
                "inner": "value"
            }
        }"#;
    let map = read(input).unwrap().unwrap();
    assert_eq!(map.len(), 7);
    assert_eq!(
        map.get("string_val").unwrap(),
        &serde_json::Value::String("hello".to_string())
    );
    assert_eq!(
        map.get("int_val").unwrap(),
        &serde_json::Value::Number(serde_json::Number::from(123))
    );
    assert_eq!(map.get("bool_val").unwrap(), &serde_json::Value::Bool(true));
    assert_eq!(map.get("null_val").unwrap(), &serde_json::Value::Null);
    assert!(map.get("array_val").unwrap().is_array());
    assert!(map.get("nested_obj").unwrap().is_object());
}

#[test]
fn test_json_array_rejection() {
    let result = read(r#"[1, 2, 3]"#);
    assert!(result.is_err());
    assert!(result
        .unwrap_err()
        .message()
        .contains("JSON input must be an object"));
}

#[test]
fn test_json_primitive_rejection() {
    let result = read(r#""just a string""#);
    assert!(result.is_err());
    assert!(result
        .unwrap_err()
        .message()
        .contains("JSON input must be an object"));
}

#[test]
fn test_json_number_rejection() {
    let result = read("42");
    assert!(result.is_err());
    assert!(result
        .unwrap_err()
        .message()
        .contains("JSON input must be an object"));
}

#[test]
fn test_json_boolean_rejection() {
    let result = read("true");
    assert!(result.is_err());
    assert!(result
        .unwrap_err()
        .message()
        .contains("JSON input must be an object"));
}

#[test]
fn test_invalid_json() {
    let result = read(r#"{invalid json}"#);
    assert!(result.is_err());
    assert!(result.unwrap_err().message().contains("Invalid JSON"));
}

#[test]
fn test_incomplete_json() {
    let result = read(r#"{"name": "test""#); // Missing closing brace
    assert!(result.is_err());
    assert!(result.unwrap_err().message().contains("Invalid JSON"));
}

#[test]
fn test_empty_json_object() {
    let map = read("{}").unwrap().unwrap();
    assert_eq!(map.len(), 0);
}

#[test]
fn test_whitespace_only_input() {
    let result = read("\n\n  \t  \n\n").unwrap();
    assert!(result.is_none());
}

#[test]
fn test_two_consecutive_newlines_stops_reading() {
    let result = read("incomplete json\n\n{\"this\": \"should not be read\"}");
    assert!(result.is_err());
    assert!(result.unwrap_err().message().contains("Invalid JSON"));
}

#[test]
fn test_json_with_special_characters() {
    let input =
        r#"{"unicode": "ñoño 🚀", "escaped": "line1\nline2\ttab", "path": "C:\\Users\\test"}"#;
    let map = read(input).unwrap().unwrap();
    assert_eq!(map.len(), 3);
    assert_eq!(
        map.get("unicode").unwrap(),
        &serde_json::Value::String("ñoño 🚀".to_string())
    );
    assert_eq!(
        map.get("escaped").unwrap(),
        &serde_json::Value::String("line1\nline2\ttab".to_string())
    );
    assert_eq!(
        map.get("path").unwrap(),
        &serde_json::Value::String("C:\\Users\\test".to_string())
    );
}

#[test]
fn a_second_blank_line_in_a_row_ends_reading() {
    let mut reader = JsonArgsReader::new();
    assert!(matches!(reader.feed("{\"a\":"), JsonStep::More));
    assert!(matches!(reader.feed(""), JsonStep::More));
    match reader.feed("   ") {
        JsonStep::Done(Err(e)) => assert!(e.message().starts_with("MCP error: Invalid JSON: ")),
        _ => panic!("expected the reading to end with an error"),
    }
}

#[test]
fn an_object_is_taken_as_soon_as_it_is_complete() {
    let mut reader = JsonArgsReader::new();
    assert!(matches!(reader.feed("{\"a\":"), JsonStep::More));
    match reader.feed(" 1}") {
        JsonStep::Done(Ok(Some(text))) => assert_eq!(text, "{\"a\": 1}"),
        _ => panic!("expected the object"),
    }
}

#[test]
fn decisions_follow_what_the_text_is() {
    let mut reader = JsonArgsReader::new();
    match reader.decide("x", JsonKind::NotObject) {
        JsonStep::Done(Err(e)) => assert_eq!(e.message(), "MCP error: JSON input must be an object"),
        _ => panic!("expected a refusal"),
    }
    let mut reader = JsonArgsReader::new();
    assert!(matches!(reader.decide("x", JsonKind::Invalid("bad".to_string())), JsonStep::More));
    let r = reader.outcome(JsonKind::Invalid("bad".to_string()));
    // Nothing was added to the text by `decide`, so it is still empty.
    assert!(matches!(r, Ok(None)));
}
