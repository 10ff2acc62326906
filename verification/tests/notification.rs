use kdeconnect::hidden_conversations::{
    hidden_conversations_file_name, hidden_file_contents, hidden_from_file,
};
use std::collections::HashSet;
use kdeconnect::notification::Notification;
use kdeconnect::strmap::StrMap;

#[test]
fn notification_needs_title_and_text() {
    let mut n = Notification::default();
    assert!(n.desktop_notification().is_none());
    n.title = Some("Alice".to_string());
    assert!(n.desktop_notification().is_none());
    n.text = Some("Hi there".to_string());
    let d = n.desktop_notification().unwrap();
    assert_eq!(d.summary, "Alice");
    assert_eq!(d.body, "Hi there");
    assert_eq!(d.app_name, "");
    assert!(d.actions.is_empty());
    n.title = None;
    assert!(n.desktop_notification().is_none());
}

#[test]
fn notification_keeps_app_name_and_actions() {
    let n = Notification {
        id: Some("0|org.telegram|1".to_string()),
        title: Some("Bob".to_string()),
        text: Some("Lunch?".to_string()),
        app_name: Some("Telegram".to_string()),
        actions: Some(vec!["Reply".to_string(), "Mark read".to_string()]),
        ..Notification::default()
    };
    let d = n.desktop_notification().unwrap();
    assert_eq!(d.app_name, "Telegram");
    assert_eq!(d.actions, vec!["Reply".to_string(), "Mark read".to_string()]);
}

#[test]
fn hidden_file_name() {
    assert_eq!(
        hidden_conversations_file_name("abc123"),
        "abc123_hidden_conversations.json"
    );
}

#[test]
fn hidden_from_file_contents() {
    assert!(hidden_from_file(None).is_empty());
    let s = hidden_from_file(Some(r#"["12", "34", "12"]"#));
    assert_eq!(s.len(), 2);
    assert!(s.contains("12") && s.contains("34"));
    assert!(hidden_from_file(Some("not json")).is_empty());
    assert!(hidden_from_file(Some(r#"{"a": 1}"#)).is_empty());
    assert!(hidden_from_file(Some("[]")).is_empty());
}

#[test]
fn strmap_insert_get_remove() {
    let mut m: StrMap<i32> = StrMap::new();
    assert_eq!(m.len(), 0);
    m.insert("a".to_string(), 1);
    m.insert("b".to_string(), 2);
    m.insert("a".to_string(), 3);
    assert_eq!(m.len(), 2);
    assert_eq!(m.get("a"), Some(&3));
    assert!(m.contains_key("b"));
    assert_eq!(m.remove("b"), Some(2));
    assert_eq!(m.remove("b"), None);
    assert!(!m.contains_key("b"));
    assert_eq!(m.entries().len(), 1);
    m.clear();
    assert_eq!(m.len(), 0);
}

#[test]
fn hidden_set_reads_back_after_write() {
    let mut hidden: HashSet<String> = HashSet::new();
    hidden.insert("101".to_string());
    hidden.insert("quote\"d".to_string());
    hidden.insert("ünï".to_string());
    let text = hidden_file_contents(&hidden).expect("a set of strings is written");
    assert!(text.starts_with('[') && text.ends_with(']'));
    assert_eq!(hidden_from_file(Some(&text)), hidden);
    let empty: HashSet<String> = HashSet::new();
    let text = hidden_file_contents(&empty).unwrap();
    assert_eq!(text, "[]");
    assert!(hidden_from_file(Some(&text)).is_empty());
}
