use kdeconnect::contacts::{
    build_vcards_request, decode_photo, parse_uids_timestamps, parse_vcard, parse_vcards,
};
use kdeconnect::json::JsonValue;

fn s(x: &str) -> JsonValue {
    JsonValue::Str(x.to_string())
}

fn object(members: Vec<(&str, JsonValue)>) -> JsonValue {
    JsonValue::Object(members.into_iter().map(|(k, v)| (k.to_string(), v)).collect())
}

#[test]
fn uids_are_read_from_the_body() {
    let body = object(vec![(
        "uids",
        JsonValue::Array(vec![s("1"), JsonValue::Number("7".to_string()), s("2")]),
    )]);
    assert_eq!(parse_uids_timestamps(&body), vec!["1", "2"]);
}

#[test]
fn missing_or_malformed_uids_give_nothing() {
    assert!(parse_uids_timestamps(&object(vec![])).is_empty());
    assert!(parse_uids_timestamps(&object(vec![("uids", s("1"))])).is_empty());
    assert!(parse_uids_timestamps(&JsonValue::Null).is_empty());
    assert!(parse_vcards(&object(vec![])).is_none());
}

#[test]
fn vcards_become_a_phone_to_name_map() {
    let body = object(vec![
        ("uids", JsonValue::Array(vec![s("a"), s("b"), s("c"), s("missing")])),
        ("a", s("BEGIN:VCARD\nFN:Alice\nTEL:111\nTEL:222\nEND:VCARD")),
        ("b", s("BEGIN:VCARD\nTEL:333\nEND:VCARD")),
        ("c", s("BEGIN:VCARD\nFN:Carol\nTEL:222\nEND:VCARD")),
    ]);
    let contacts = parse_vcards(&body).expect("uids are present");
    assert_eq!(contacts.len(), 2);
    assert_eq!(contacts.get("111").map(String::as_str), Some("Alice"));
    assert_eq!(contacts.get("222").map(String::as_str), Some("Carol"));
    assert_eq!(contacts.get("333"), None);
}

#[test]
fn vcards_request_lists_the_uids() {
    let uids = vec!["x".to_string(), "y".to_string()];
    let req = build_vcards_request(uids.clone());
    match &req {
        JsonValue::Object(members) => {
            assert_eq!(members.len(), 1);
            assert_eq!(members[0].0, "uids");
        }
        _ => panic!("expected an object"),
    }
    assert_eq!(parse_uids_timestamps(&req), uids);
}

#[test]
fn core_vcard_parser_agrees() {
    let card = "FN:Bob\nTEL;TYPE=CELL:555\n";
    assert_eq!(parse_vcard(card), kdeconnect::sms_utils::parse_vcard(card));
    assert_eq!(parse_vcard(card).0.as_deref(), Some("Bob"));
}

#[test]
fn photos_decode_from_base64() {
    assert_eq!(decode_photo("aGVsbG8="), Some(b"hello".to_vec()));
    assert_eq!(decode_photo(""), Some(Vec::new()));
    assert_eq!(decode_photo("not base64!"), None);
    assert_ne!(decode_photo("AAEC"), Some(b"AAEC".to_vec()));
}
