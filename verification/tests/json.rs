use kdeconnect::json::JsonValue;

#[test]
fn members_and_items() {
    let v = JsonValue::Object(vec![
        ("a".to_string(), JsonValue::Str("x".to_string())),
        ("b".to_string(), JsonValue::Array(vec![JsonValue::Null])),
    ]);
    assert!(matches!(v.get("a"), Some(JsonValue::Str(s)) if s == "x"));
    assert_eq!(v.get("a").and_then(|x| x.as_str()), Some("x"));
    assert_eq!(v.get("b").and_then(|x| x.as_array()).map(|a| a.len()), Some(1));
    assert!(v.get("c").is_none());
    assert!(JsonValue::Null.get("a").is_none());
    assert!(JsonValue::Bool(true).as_str().is_none());
    assert!(JsonValue::Number("1".to_string()).as_array().is_none());
}
