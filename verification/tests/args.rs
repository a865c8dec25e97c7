use std::collections::HashMap;

use libmcptool::args::{parse_command_line_arguments, ArgMap, ArgValue, ArgumentParser};
use serde_json::Value;

/// The JSON value of an argument as `ArgumentParser` gives it: text that
/// reads as a finite float becomes a number, other text a string.
fn parser_json(v: &ArgValue) -> Value {
    match v {
        ArgValue::Bool(b) => Value::Bool(*b),
        ArgValue::Integer(n) => Value::Number(serde_json::Number::from(*n)),
        ArgValue::String(s) => Value::String(s.clone()),
        ArgValue::FloatCandidate(s) => match s.parse::<f64>().ok().and_then(serde_json::Number::from_f64) {
            Some(n) => Value::Number(n),
            None => Value::String(s.clone()),
        },
    }
}

/// The JSON value of an argument as the command line gives it.
fn cmdline_json(v: &ArgValue) -> Value {
    match v {
        ArgValue::FloatCandidate(s) => match s.parse::<f64>() {
            Ok(num) => Value::Number(serde_json::Number::from_f64(num).unwrap()),
            Err(_) => Value::String(s.clone()),
        },
        other => parser_json(other),
    }
}

fn to_map(m: &ArgMap, conv: fn(&ArgValue) -> Value) -> HashMap<String, Value> {
    m.entries().iter().map(|(k, v)| (k.clone(), conv(v))).collect()
}

fn parse_args(args: Vec<String>) -> Option<HashMap<String, Value>> {
    ArgumentParser::parse_key_value_args(args)
        .unwrap()
        .map(|m| to_map(&m, parser_json))
}

fn parse_cmdline(args: Vec<String>) -> HashMap<String, Value> {
    to_map(&parse_command_line_arguments(args).unwrap().unwrap(), cmdline_json)
}

#[test]
fn test_parse_empty_args() {
    let result = ArgumentParser::parse_key_value_args(vec![]).unwrap();
    assert!(result.is_none());
}

#[test]
fn test_parse_string_arg() {
    let args = vec!["name=test".to_string()];
    let result = parse_args(args).unwrap();
    assert_eq!(result.get("name"), Some(&Value::String("test".to_string())));
}

#[test]
fn test_parse_bool_args() {
    let args = vec!["enabled=true".to_string(), "disabled=false".to_string()];
    let result = parse_args(args).unwrap();
    assert_eq!(result.get("enabled"), Some(&Value::Bool(true)));
    assert_eq!(result.get("disabled"), Some(&Value::Bool(false)));
}

#[test]
fn test_parse_number_args() {
    let args = vec!["count=42".to_string(), "rate=3.14".to_string()];
    let result = parse_args(args).unwrap();
    assert_eq!(
        result.get("count"),
        Some(&Value::Number(serde_json::Number::from(42)))
    );
    assert!(matches!(result.get("rate"), Some(Value::Number(_))));
}

#[test]
fn test_invalid_format() {
    let args = vec!["invalid".to_string()];
    let result = ArgumentParser::parse_key_value_args(args);
    assert!(result.is_err());
}

#[test]
fn test_preserve_string_numbers() {
    let args = vec!["id=007".to_string()];
    let result = parse_args(args).unwrap();
    // "007" gets parsed as number 7.0, but we want to preserve the string format
    // This shows the current behavior - we could change the logic if needed
    assert_eq!(
        result.get("id"),
        Some(&Value::Number(serde_json::Number::from_f64(7.0).unwrap()))
    );
}

#[test]
fn test_empty_args() {
    let result = parse_command_line_arguments(vec![]).unwrap();
    assert!(result.is_none());
}

#[test]
fn test_string_argument() {
    let args = vec!["name=test".to_string()];
    let map = parse_cmdline(args);
    assert_eq!(map.len(), 1);
    assert_eq!(
        map.get("name").unwrap(),
        &serde_json::Value::String("test".to_string())
    );
}

#[test]
fn test_boolean_arguments() {
    let args = vec!["flag1=true".to_string(), "flag2=false".to_string()];
    let map = parse_cmdline(args);
    assert_eq!(map.len(), 2);
    assert_eq!(map.get("flag1").unwrap(), &serde_json::Value::Bool(true));
    assert_eq!(map.get("flag2").unwrap(), &serde_json::Value::Bool(false));
}

#[test]
fn test_integer_argument() {
    let args = vec!["count=42".to_string(), "negative=-10".to_string()];
    let map = parse_cmdline(args);
    assert_eq!(map.len(), 2);
    assert_eq!(
        map.get("count").unwrap(),
        &serde_json::Value::Number(serde_json::Number::from(42))
    );
    assert_eq!(
        map.get("negative").unwrap(),
        &serde_json::Value::Number(serde_json::Number::from(-10))
    );
}

#[test]
fn test_float_argument() {
    let args = vec!["rate=3.14".to_string(), "zero=0.0".to_string()];
    let map = parse_cmdline(args);
    assert_eq!(map.len(), 2);
    assert_eq!(
        map.get("rate").unwrap(),
        &serde_json::Value::Number(serde_json::Number::from_f64(3.14).unwrap())
    );
    assert_eq!(
        map.get("zero").unwrap(),
        &serde_json::Value::Number(serde_json::Number::from_f64(0.0).unwrap())
    );
}

#[test]
fn test_mixed_arguments() {
    let args = vec![
        "name=test".to_string(),
        "enabled=true".to_string(),
        "count=100".to_string(),
        "rate=2.5".to_string(),
    ];
    let map = parse_cmdline(args);
    assert_eq!(map.len(), 4);
    assert_eq!(
        map.get("name").unwrap(),
        &serde_json::Value::String("test".to_string())
    );
    assert_eq!(map.get("enabled").unwrap(), &serde_json::Value::Bool(true));
    assert_eq!(
        map.get("count").unwrap(),
        &serde_json::Value::Number(serde_json::Number::from(100))
    );
    assert_eq!(
        map.get("rate").unwrap(),
        &serde_json::Value::Number(serde_json::Number::from_f64(2.5).unwrap())
    );
}

#[test]
fn test_string_with_equals() {
    let args = vec!["url=https://example.com/path?param=value".to_string()];
    let map = parse_cmdline(args);
    assert_eq!(map.len(), 1);
    assert_eq!(
        map.get("url").unwrap(),
        &serde_json::Value::String("https://example.com/path?param=value".to_string())
    );
}

#[test]
fn test_empty_value() {
    let args = vec!["empty=".to_string()];
    let map = parse_cmdline(args);
    assert_eq!(map.len(), 1);
    assert_eq!(
        map.get("empty").unwrap(),
        &serde_json::Value::String("".to_string())
    );
}

#[test]
fn test_numeric_string() {
    // Numbers that should be parsed as strings due to formatting
    let args = vec!["version=1.0.0".to_string(), "id=00123".to_string()];
    let map = parse_cmdline(args);
    assert_eq!(map.len(), 2);
    assert_eq!(
        map.get("version").unwrap(),
        &serde_json::Value::String("1.0.0".to_string())
    );
    assert_eq!(
        map.get("id").unwrap(),
        &serde_json::Value::String("00123".to_string())
    );
}

#[test]
fn test_invalid_format_no_equals() {
    let args = vec!["invalid_arg".to_string()];
    let result = parse_command_line_arguments(args);

    assert!(result.is_err());
    assert!(result
        .unwrap_err()
        .message()
        .contains("Invalid argument format"));
}

#[test]
fn test_invalid_format_only_key() {
    let args = vec!["key=".to_string(), "another_key".to_string()];
    let result = parse_command_line_arguments(args);

    assert!(result.is_err());
    assert!(result
        .unwrap_err()
        .message()
        .contains("Invalid argument format"));
}

#[test]
fn test_key_override() {
    let args = vec!["key=first".to_string(), "key=second".to_string()];
    let map = parse_cmdline(args);
    assert_eq!(map.len(), 1);
    // Last value should win
    assert_eq!(
        map.get("key").unwrap(),
        &serde_json::Value::String("second".to_string())
    );
}

#[test]
fn invalid_argument_messages_name_the_expected_form() {
    let e = parse_command_line_arguments(vec!["oops".to_string()]).unwrap_err();
    assert_eq!(
        e.message(),
        "MCP error: Invalid argument format: 'oops'. Expected 'key=value'"
    );
    let e = ArgumentParser::parse_key_value_args(vec!["oops".to_string()]).unwrap_err();
    assert_eq!(
        e.message(),
        "MCP error: Invalid argument format: 'oops'. Expected key=value"
    );
}

#[test]
fn parser_and_command_line_type_padded_integers_differently() {
    assert_eq!(
        ArgumentParser::parse_value_type("00123".to_string()),
        ArgValue::FloatCandidate("00123".to_string())
    );
    assert_eq!(
        libmcptool::args::cmdline_value_type("00123".to_string()),
        ArgValue::String("00123".to_string())
    );
    assert_eq!(
        ArgumentParser::parse_value_type("-9223372036854775808".to_string()),
        ArgValue::Integer(i64::MIN)
    );
    assert_eq!(
        ArgumentParser::parse_value_type("+5".to_string()),
        ArgValue::FloatCandidate("+5".to_string())
    );
}

#[test]
fn printed_integers_stay_integers_on_both_paths() {
    for n in [0i64, 7, -42, i64::MAX, i64::MIN] {
        assert_eq!(
            ArgumentParser::parse_value_type(n.to_string()),
            ArgValue::Integer(n)
        );
        assert_eq!(
            libmcptool::args::cmdline_value_type(n.to_string()),
            ArgValue::Integer(n)
        );
    }
}

#[test]
fn arg_map_replaces_values_in_place() {
    let mut m = ArgMap::new();
    m.insert("a".to_string(), ArgValue::Bool(true));
    m.insert("b".to_string(), ArgValue::Integer(1));
    m.insert("a".to_string(), ArgValue::Bool(false));
    assert_eq!(m.len(), 2);
    assert_eq!(m.get("a"), Some(&ArgValue::Bool(false)));
    assert_eq!(m.get("c"), None);
}

#[test]
fn required_and_boolean_arguments_are_checked() {
    let m = ArgumentParser::parse_key_value_args(vec!["flag=true".to_string(), "n=3".to_string()])
        .unwrap()
        .unwrap();
    assert!(ArgumentParser::validate_required_args(&m, &vec!["flag".to_string()]).is_ok());
    let e = ArgumentParser::validate_required_args(&m, &vec!["missing".to_string()]).unwrap_err();
    assert_eq!(e.message(), "MCP error: Required argument 'missing' is missing");
    assert_eq!(ArgumentParser::get_bool_arg(&m, "flag").unwrap(), Some(true));
    assert_eq!(ArgumentParser::get_bool_arg(&m, "absent").unwrap(), None);
    let e = ArgumentParser::get_bool_arg(&m, "n").unwrap_err();
    assert_eq!(e.message(), "MCP error: Argument 'n' must be a boolean");
}

#[test]
fn string_arguments_are_looked_up_by_key() {
    let args = ArgumentParser::parse_key_value_args(vec![
        "name=test".to_string(),
        "ratio=2.5".to_string(),
        "count=3".to_string(),
    ])
    .unwrap()
    .unwrap();
    assert_eq!(ArgumentParser::get_string_arg(&args, "name", false).unwrap(), Some("test".to_string()));
    assert_eq!(ArgumentParser::get_string_arg(&args, "missing", false).unwrap(), None);
    assert_eq!(
        ArgumentParser::get_string_arg(&args, "count", false).unwrap_err().message(),
        "MCP error: Argument 'count' must be a string"
    );
    assert!(ArgumentParser::get_string_arg(&args, "ratio", true).is_err());
}

#[test]
fn a_pair_splits_at_its_first_equals_sign() {
    assert_eq!(
        ArgumentParser::parse_key_value_pair("url=http://x?a=b").unwrap(),
        ("url".to_string(), "http://x?a=b".to_string())
    );
    assert_eq!(
        ArgumentParser::parse_key_value_pair("novalue").unwrap_err().message(),
        "MCP error: Invalid argument format: 'novalue'. Expected key=value"
    );
}
