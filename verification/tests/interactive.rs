use std::collections::HashMap;
use std::io::{BufRead, Cursor, Write};

use libmcptool::args::ArgValue;
use libmcptool::interactive::{
    interpret_input, prompt_text, sort_params, InputOutcome, InteractiveSession, ParamSpec,
};
use serde_json::Value;

fn param(name: &str, ty: Option<&str>, description: &str, required: bool) -> ParamSpec {
    ParamSpec::from_schema(
        name.to_string(),
        ty.map(|t| t.to_string()),
        Some(description.to_string()),
        required,
    )
}

fn to_json(v: &ArgValue) -> Value {
    match v {
        ArgValue::Bool(b) => Value::Bool(*b),
        ArgValue::Integer(n) => Value::Number(serde_json::Number::from(*n)),
        ArgValue::String(s) => Value::String(s.clone()),
        ArgValue::FloatCandidate(s) => Value::Number(
            serde_json::Number::from_f64(s.parse::<f64>().unwrap()).unwrap(),
        ),
    }
}

/// Asks for the parameters as the interactive mode does, reading answers
/// from `input` and writing prompts and messages to a buffer.
fn run(params: Vec<ParamSpec>, input: &str) -> (Option<HashMap<String, Value>>, String) {
    let mut reader = Cursor::new(input.to_string());
    let mut writer: Vec<u8> = Vec::new();
    let mut session = InteractiveSession::new(params);
    while let Some(p) = session.current() {
        let prompt = prompt_text(p);
        writer.write_all(format!("{}\n> ", prompt).as_bytes()).unwrap();
        let mut line = String::new();
        reader.read_line(&mut line).unwrap();
        let number_ok = line.trim().parse::<f64>().is_ok();
        if let Some(message) = session.answer(&line, number_ok) {
            writer.write_all(format!("{}\n", message).as_bytes()).unwrap();
        }
    }
    let result = session
        .finish()
        .map(|m| m.entries().iter().map(|(k, v)| (k.clone(), to_json(v))).collect());
    (result, String::from_utf8(writer).unwrap())
}

#[test]
fn test_no_properties() {
    let (result, _) = run(vec![], "");
    assert!(result.is_none());
}

#[test]
fn test_single_string_parameter() {
    let (result, _) = run(vec![param("name", Some("string"), "User name", true)], "John\n");
    let map = result.unwrap();
    assert_eq!(map.len(), 1);
    assert_eq!(
        map.get("name").unwrap(),
        &serde_json::Value::String("John".to_string())
    );
}

#[test]
fn test_boolean_parameter_various_inputs() {
    let test_cases = vec![
        ("true", true),
        ("True", true),
        ("TRUE", true),
        ("t", true),
        ("T", true),
        ("yes", true),
        ("YES", true),
        ("y", true),
        ("Y", true),
        ("1", true),
        ("false", false),
        ("False", false),
        ("FALSE", false),
        ("f", false),
        ("F", false),
        ("no", false),
        ("NO", false),
        ("n", false),
        ("N", false),
        ("0", false),
    ];

    for (input_val, expected) in test_cases {
        let input = format!("{}\n", input_val);
        let (result, _) = run(vec![param("flag", Some("boolean"), "Boolean flag", true)], &input);
        let map = result.unwrap();
        assert_eq!(map.len(), 1);
        assert_eq!(map.get("flag").unwrap(), &serde_json::Value::Bool(expected));
    }
}

#[test]
fn test_integer_parameter() {
    let (result, _) = run(vec![param("count", Some("integer"), "Count value", true)], "42\n");
    let map = result.unwrap();
    assert_eq!(map.len(), 1);
    assert_eq!(
        map.get("count").unwrap(),
        &serde_json::Value::Number(serde_json::Number::from(42))
    );
}

#[test]
fn test_number_parameter() {
    let (result, _) = run(vec![param("rate", Some("number"), "Rate value", true)], "3.14\n");
    let map = result.unwrap();
    assert_eq!(map.len(), 1);
    assert_eq!(
        map.get("rate").unwrap(),
        &serde_json::Value::Number(serde_json::Number::from_f64(3.14).unwrap())
    );
}

#[test]
fn test_optional_parameter_empty() {
    let (result, _) = run(
        vec![param("optional", Some("string"), "Optional parameter", false)],
        "\n",
    );
    assert!(result.is_none()); // Should return None for empty arg_map
}

#[test]
fn test_mixed_parameters() {
    let params = vec![
        param("name", Some("string"), "User name", true),
        param("count", Some("integer"), "Count value", true),
        param("enabled", Some("boolean"), "Enabled flag", false),
    ];
    let (result, _) = run(params, "100\ntrue\nAlice\n");
    let map = result.unwrap();
    assert_eq!(map.len(), 3);
    assert_eq!(
        map.get("name").unwrap(),
        &serde_json::Value::String("Alice".to_string())
    );
    assert_eq!(
        map.get("count").unwrap(),
        &serde_json::Value::Number(serde_json::Number::from(100))
    );
    assert_eq!(map.get("enabled").unwrap(), &serde_json::Value::Bool(true));
}

#[test]
fn test_invalid_boolean_then_valid() {
    let (result, written) = run(
        vec![param("flag", Some("boolean"), "Boolean flag", true)],
        "invalid\ntrue\n",
    );
    let map = result.unwrap();
    assert_eq!(map.len(), 1);
    assert_eq!(map.get("flag").unwrap(), &serde_json::Value::Bool(true));
    assert!(written.contains("Invalid boolean value"));
}

#[test]
fn test_invalid_integer_then_valid() {
    let (result, written) = run(
        vec![param("count", Some("integer"), "Count value", true)],
        "not_a_number\n42\n",
    );
    let map = result.unwrap();
    assert_eq!(map.len(), 1);
    assert_eq!(
        map.get("count").unwrap(),
        &serde_json::Value::Number(serde_json::Number::from(42))
    );
    assert!(written.contains("Invalid integer value"));
}

#[test]
fn test_invalid_number_then_valid() {
    let (result, written) = run(
        vec![param("rate", Some("number"), "Rate value", true)],
        "not_a_number\n3.14\n",
    );
    let map = result.unwrap();
    assert_eq!(map.len(), 1);
    assert_eq!(
        map.get("rate").unwrap(),
        &serde_json::Value::Number(serde_json::Number::from_f64(3.14).unwrap())
    );
    assert!(written.contains("Invalid number value"));
}

#[test]
fn test_default_string_type() {
    // No "type" in the schema: the parameter is read as a string.
    let (result, _) = run(
        vec![param("unknown_type", None, "Unknown type parameter", true)],
        "test_value\n",
    );
    let map = result.unwrap();
    assert_eq!(map.len(), 1);
    assert_eq!(
        map.get("unknown_type").unwrap(),
        &serde_json::Value::String("test_value".to_string())
    );
}

#[test]
fn test_empty_required_parameter_retry() {
    let (result, written) = run(
        vec![param("required_param", Some("string"), "Required parameter", true)],
        "\nvalid_value\n",
    );
    let map = result.unwrap();
    assert_eq!(map.len(), 1);
    assert_eq!(
        map.get("required_param").unwrap(),
        &serde_json::Value::String("valid_value".to_string())
    );
    assert!(written.contains("This parameter is required"));
}

#[test]
fn prompts_mark_required_and_optional_parameters() {
    assert_eq!(
        prompt_text(&param("name", Some("string"), "User name", true)),
        "name (string)*: User name"
    );
    assert_eq!(
        prompt_text(&param("limit", Some("integer"), "Max rows", false)),
        "limit (integer) [optional]: Max rows"
    );
    let p = ParamSpec::from_schema("x".to_string(), None, None, false);
    assert_eq!(prompt_text(&p), "x (string) [optional]: ");
}

#[test]
fn parameters_are_asked_in_name_order() {
    let sorted = sort_params(vec![
        param("zeta", None, "", false),
        param("Alpha", None, "", false),
        param("beta", None, "", false),
        param("alpha", None, "", false),
    ]);
    let names: Vec<&str> = sorted.iter().map(|p| p.name.as_str()).collect();
    assert_eq!(names, vec!["Alpha", "alpha", "beta", "zeta"]);
}

#[test]
fn answers_are_trimmed_and_typed() {
    let p = param("n", Some("integer"), "", true);
    assert_eq!(
        interpret_input(&p, "  -7 \n", false),
        InputOutcome::Value(ArgValue::Integer(-7))
    );
    assert_eq!(
        interpret_input(&p, "9223372036854775808\n", false),
        InputOutcome::Retry("Invalid integer value.".to_string())
    );
    let s = param("s", Some("string"), "", false);
    assert_eq!(interpret_input(&s, "   \n", false), InputOutcome::Skip);
    assert_eq!(
        interpret_input(&s, " hello world \r\n", false),
        InputOutcome::Value(ArgValue::String("hello world".to_string()))
    );
    let b = param("b", Some("boolean"), "", true);
    assert_eq!(
        interpret_input(&b, "maybe\n", false),
        InputOutcome::Retry("Invalid boolean value. Use true/false, yes/no, or 1/0.".to_string())
    );
}
