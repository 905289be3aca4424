use nmcr::{build_context_map, extract_positional_out, parse_arg_pair, parse_value, JsonValue};

#[test]
fn parse_arg_pair_supports_scalars() {
    let (key, value) = parse_arg_pair("count=42").expect("parse integer");
    assert_eq!(key, "count");
    assert!(matches!(value, JsonValue::Int(42)));

    let (_, bool_value) = parse_arg_pair("enabled=true").expect("parse bool");
    assert!(matches!(bool_value, JsonValue::Bool(true)));

    let (_, string_value) = parse_arg_pair("name=component").expect("parse string");
    match string_value {
        JsonValue::Str(s) => assert_eq!(s, "component"),
        other => panic!("expected a string value, got {other:?}"),
    }

    let (_, null_value) = parse_arg_pair("optional=null").expect("parse null");
    assert!(matches!(null_value, JsonValue::Null));
}

#[test]
fn parse_arg_pair_requires_equals() {
    let err = parse_arg_pair("invalid").expect_err("should error");
    assert!(err.contains("expected key=value"));
}

#[test]
fn extract_positional_out_consumes_first_value() {
    let mut pairs = vec!["./out".to_string(), "name=app".to_string()];
    let out = extract_positional_out(&mut pairs).expect("out present");
    assert_eq!(out, "./out".to_string());
    assert_eq!(pairs, vec!["name=app".to_string()]);
}

#[test]
fn context_map_rejects_duplicates() {
    let pairs = vec!["a=1".to_string(), "b=two".to_string()];
    let members = build_context_map(&pairs).expect("context builds");
    assert_eq!(members.len(), 2);
    assert_eq!(members[0].key, "a");
    assert!(matches!(members[0].value, JsonValue::Int(1)));
    assert_eq!(members[1].key, "b");

    let dup = vec!["a=1".to_string(), "a=2".to_string()];
    let err = build_context_map(&dup).expect_err("duplicate key should fail");
    assert_eq!(err, "Duplicate argument 'a'.");
}

#[test]
fn fractional_values_pass_through_as_text() {
    match parse_value("1.5") {
        JsonValue::Str(s) => assert_eq!(s, "1.5"),
        other => panic!("expected pass-through text, got {other:?}"),
    }
    assert!(matches!(parse_value("-7"), JsonValue::Int(-7)));
    assert!(matches!(parse_value("FALSE"), JsonValue::Bool(false)));
}
