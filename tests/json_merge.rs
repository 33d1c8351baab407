use rig_providers::json::{merge, Json, Num};

fn parse(text: &str) -> Json {
    Json::parse(text).expect("test input is JSON")
}

fn text_of(j: &Json) -> String {
    j.to_text()
}

#[test]
fn merge_with_only_new_keys_keeps_every_base_key() {
    let base = parse(r#"{"a": 1, "b": {"c": 2}}"#);
    let overlay = parse(r#"{"d": 3, "e": [1, 2]}"#);
    let m = merge(base, overlay);
    assert_eq!(text_of(&m), r#"{"a":1,"b":{"c":2},"d":3,"e":[1,2]}"#);
}

#[test]
fn merge_scalar_overlay_replaces_value() {
    let base = parse(r#"{"a": {"x": 1, "y": 2}, "b": 1}"#);
    let overlay = parse(r#"{"a": 7}"#);
    let m = merge(base, overlay);
    assert_eq!(text_of(&m), r#"{"a":7,"b":1}"#);
}

#[test]
fn merge_nested_objects_recursively() {
    let base = parse(r#"{"a": {"x": 1, "y": 2}}"#);
    let overlay = parse(r#"{"a": {"x": 5, "z": true}}"#);
    let m = merge(base, overlay);
    assert_eq!(text_of(&m), r#"{"a":{"x":5,"y":2,"z":true}}"#);
}

#[test]
fn merge_object_over_scalar_takes_object() {
    let base = parse(r#"{"a": 1}"#);
    let overlay = parse(r#"{"a": {"x": 1}}"#);
    let m = merge(base, overlay);
    assert_eq!(text_of(&m), r#"{"a":{"x":1}}"#);
}

#[test]
fn merge_non_object_overlay_wins_outright() {
    let m = merge(parse(r#"{"a": 1}"#), parse("[1, 2]"));
    assert_eq!(m, parse("[1,2]"));
    let m = merge(parse("[1]"), parse(r#"{"a": 1}"#));
    assert_eq!(text_of(&m), r#"{"a":1}"#);
}

#[test]
fn merge_arrays_are_replaced_not_combined() {
    let m = merge(parse(r#"{"a": [1, 2, 3]}"#), parse(r#"{"a": [9]}"#));
    assert_eq!(text_of(&m), r#"{"a":[9]}"#);
}

#[test]
fn merge_empty_overlay_object_changes_nothing() {
    let m = merge(parse(r#"{"a": 1, "b": null}"#), parse("{}"));
    assert_eq!(text_of(&m), r#"{"a":1,"b":null}"#);
}

#[test]
fn parse_numbers_in_three_forms() {
    let j = parse("[1, -2, 0.5]");
    match j {
        Json::Array(v) => {
            assert_eq!(v[0], Json::Number(Num::PosInt(1)));
            assert_eq!(v[1], Json::Number(Num::NegInt(-2)));
            assert_eq!(v[2], Json::Number(Num::Float("0.5".to_string())));
        }
        _ => panic!("not an array"),
    }
}

#[test]
fn parse_rejects_malformed_text() {
    assert!(Json::parse("{not json").is_err());
}

#[test]
fn field_looks_up_keys() {
    let j = parse(r#"{"a": "x", "b": 2}"#);
    assert_eq!(j.field("a"), Some(&Json::Str("x".to_string())));
    assert_eq!(j.field("zz"), None);
    assert_eq!(parse("3").field("a"), None);
}

#[test]
fn well_formed_rejects_repeated_keys() {
    let dup = Json::Object(vec![
        ("a".to_string(), Json::Null),
        ("a".to_string(), Json::Bool(true)),
    ]);
    assert!(!dup.well_formed());
    let nested = Json::Array(vec![Json::Null, dup]);
    assert!(!nested.well_formed());
    assert!(parse(r#"{"a": [{"b": 1}], "c": {"d": null}}"#).well_formed());
}

#[test]
fn merging_the_same_overlay_twice_changes_nothing() {
    let overlay_text = r#"{"a": {"x": 5, "z": [1]}, "n": 3}"#;
    let once = merge(parse(r#"{"a": {"x": 1, "y": 2}, "b": true}"#), parse(overlay_text));
    let once_text = text_of(&once);
    let twice = merge(once, parse(overlay_text));
    assert_eq!(text_of(&twice), once_text);
    assert_eq!(once_text, r#"{"a":{"x":5,"y":2,"z":[1]},"b":true,"n":3}"#);
}
