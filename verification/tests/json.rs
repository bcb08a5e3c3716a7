use openshell_fractal::json::Json;
use openshell_fractal::json_text::{json_of, parse_json, to_compact, to_pretty, unsigned, value_of};

fn sample() -> Json {
    Json::Object(vec![
        ("z".into(), Json::Text("old".into())),
        ("a".into(), Json::Array(vec![Json::Null, Json::Bool(true), unsigned(7)])),
        ("z".into(), Json::Text("n\"w".into())),
    ])
}

#[test]
fn the_later_entry_of_a_key_counts() {
    assert_eq!(sample().get_str("z"), Some("n\"w"));
    assert!(sample().get("y").is_none());
    assert_eq!(to_compact(&sample()), r#"{"a":[null,true,7],"z":"n\"w"}"#);
    let read = parse_json(r#"{"k": 1, "k": 2}"#).unwrap();
    assert_eq!(to_compact(read.get("k").unwrap()), "2");
}

#[test]
fn indented_form() {
    let expected = "{\n  \"a\": [\n    null,\n    true,\n    7\n  ],\n  \"z\": \"n\\\"w\"\n}";
    assert_eq!(to_pretty(&sample()), expected);
    assert_eq!(to_pretty(&Json::Array(vec![])), "[]");
}

#[test]
fn kinds_are_told_apart() {
    assert!(sample().is_object());
    assert!(!Json::Array(vec![]).is_object());
    assert!(Json::Null.get("k").is_none());
    assert_eq!(Json::Bool(true).as_str(), None);
    assert_eq!(Json::Text("x".into()).as_str(), Some("x"));
    assert_eq!(sample().get("a").unwrap().as_array().unwrap().len(), 3);
    assert!(sample().as_array().is_none());
    assert_eq!(sample().get_str("a"), None);
}

#[test]
fn values_go_through_the_tree_and_back() {
    let text = r#"{"a":[1.5,-3,18446744073709551615],"b":{"c":null},"d":"é"}"#;
    let value: serde_json::Value = serde_json::from_str(text).unwrap();
    assert_eq!(value_of(&json_of(value.clone())), value);
    assert_eq!(value_of(&sample().clone()), value_of(&sample()));
}

#[test]
fn errors_are_messages() {
    let error = serde_json::from_str::<serde_json::Value>("{").unwrap_err().to_string();
    assert_eq!(parse_json("{").unwrap_err(), error);
}

#[test]
fn counts_are_numbers() {
    assert_eq!(to_compact(&unsigned(0)), "0");
    assert_eq!(to_compact(&unsigned(u64::MAX as u128)), "18446744073709551615");
    assert_eq!(to_compact(&unsigned(u64::MAX as u128 + 1)), "null");
}
