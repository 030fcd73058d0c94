use reeve::runtime::errors::HostError;
use reeve::runtime::parse::{parse_json, parse_yaml, MAX_PARSE_BYTES};

fn expect_parse_error(err: HostError, want_format: &str) -> String {
    assert_eq!(err.kind(), "ParseError");
    match err {
        HostError::ParseError { format, message } => {
            assert_eq!(format, want_format);
            message
        }
        other => panic!("expected ParseError, got: {:?}", other),
    }
}

fn check_json_object(text: &str) {
    let result = parse_json(text).expect("valid JSON should parse");
    let map = result.cast::<rhai::Map>();
    let a = map.get("a").cloned().expect("key 'a' should exist");
    assert_eq!(a.cast::<i64>(), 1_i64);
}

#[test]
fn parse_json_object() {
    check_json_object(r#"{"a": 1}"#);
}

#[test]
fn parse_parse_json_object() {
    check_json_object(r#"{"a": 1}"#);
}

#[test]
fn parse_json_rejects_invalid() {
    let result = parse_json("{not json");
    assert!(result.is_err(), "invalid JSON should return Err");
}

#[test]
fn parse_parse_json_rejects_invalid() {
    let err = parse_json("{not json").unwrap_err();
    expect_parse_error(err, "json");
}

#[test]
fn parse_yaml_list() {
    let result = parse_yaml("- a\n- b\n").expect("valid YAML should parse");
    let arr = result.cast::<rhai::Array>();
    assert_eq!(arr.len(), 2);
}

#[test]
fn parse_parse_yaml_list() {
    let result = parse_yaml("- a\n- b\n").expect("valid YAML should parse");
    let arr = result.cast::<rhai::Array>();
    assert_eq!(arr.len(), 2);
    assert_eq!(arr[0].clone().cast::<String>(), "a");
    assert_eq!(arr[1].clone().cast::<String>(), "b");
}

#[test]
fn parse_yaml_rejects_invalid() {
    let result = parse_yaml("{key: [unclosed");
    assert!(result.is_err(), "invalid YAML should return Err");
}

#[test]
fn parse_parse_yaml_rejects_invalid() {
    let err = parse_yaml("{key: [unclosed").unwrap_err();
    expect_parse_error(err, "yaml");
}

#[test]
fn parse_json_rejects_oversized_input() {
    let oversized = "a".repeat(MAX_PARSE_BYTES + 1);
    let err = parse_json(&oversized).unwrap_err();
    let msg = expect_parse_error(err, "json");
    assert!(msg.contains("10485760"), "message should mention the byte limit: {}", msg);
}

#[test]
fn parse_yaml_rejects_oversized_input() {
    let oversized = "a".repeat(MAX_PARSE_BYTES + 1);
    let err = parse_yaml(&oversized).unwrap_err();
    let msg = expect_parse_error(err, "yaml");
    assert!(msg.contains("10485760"), "message should mention the byte limit: {}", msg);
}

#[test]
fn parse_json_at_exact_limit_is_not_rejected_for_size() {
    // A string of exactly MAX_PARSE_BYTES is parsed, not refused for its size.
    let mut text = String::from("\"");
    text.push_str(&"a".repeat(MAX_PARSE_BYTES - 2));
    text.push('"');
    assert_eq!(text.len(), MAX_PARSE_BYTES);
    let v = parse_json(&text).expect("string of exactly the limit should parse");
    assert_eq!(v.cast::<String>().len(), MAX_PARSE_BYTES - 2);
}

#[test]
fn parse_json_nested_values() {
    let v = parse_json(r#"{"list": [1, 2, 3], "name": "x"}"#).expect("parse");
    let map = v.cast::<rhai::Map>();
    let list = map.get("list").cloned().unwrap().cast::<rhai::Array>();
    assert_eq!(list.len(), 3);
    assert_eq!(map.get("name").cloned().unwrap().cast::<String>(), "x");
}

#[test]
fn parse_yaml_mapping() {
    let v = parse_yaml("k: v\nn: 3\n").expect("parse");
    let map = v.cast::<rhai::Map>();
    assert_eq!(map.get("k").cloned().unwrap().cast::<String>(), "v");
    assert_eq!(map.get("n").cloned().unwrap().cast::<i64>(), 3);
}

#[test]
fn parse_json_callable() {
    let v = parse_json("{\"x\":1}").expect("parse_json should work");
    let x = v.cast::<rhai::Map>().get("x").cloned().unwrap().cast::<i64>();
    assert_eq!(x, 1_i64);
}
