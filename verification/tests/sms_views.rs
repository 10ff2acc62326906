use kdeconnect::sms_views::{
    attachment_view, bubble, bubble_at, contact_match_query, display_name, filtered_contacts,
    find_conversation, get_contact_name, get_contact_photo, get_current_conversation_phone,
    is_conversation_unread, sender_label, truncate_preview, AttachmentView, Avatar, Conversation,
    MessageAttachment, PlaceholderKind, SmsWindow, TextMessage, PREVIEW_MAX_CHARS,
};
use kdeconnect::strmap::StrMap;

fn pair(a: &str, b: &str) -> (String, String) {
    (a.to_string(), b.to_string())
}

fn conv(thread: &str, phone: &str, ts: i64, unread: bool) -> Conversation {
    Conversation {
        thread_id: thread.to_string(),
        phone_number: phone.to_string(),
        timestamp: ts,
        unread,
    }
}

fn window() -> SmsWindow {
    SmsWindow {
        contacts: vec![
            pair("+1 (555) 123-4567", "Alice Smith"),
            pair("555-987-6543", "Bob Jones"),
            pair("15551234567", "Alice (work)"),
        ],
        contact_photos: vec![(
            "5559876543".to_string(),
            Avatar {
                width: 2,
                height: 1,
                rgba: vec![1, 2, 3, 4, 5, 6, 7, 8],
            },
        )],
        conversations: vec![
            conv("t1", "5551234567", 1000, false),
            conv("t2", "5559876543", 2000, true),
        ],
        selected_thread: None,
        last_seen_timestamp: StrMap::new(),
        search_contact_query: String::new(),
        search_field_active: false,
    }
}

#[test]
fn preview_is_cut_by_characters() {
    assert_eq!(truncate_preview("hello", 10), "hello");
    assert_eq!(truncate_preview("hello", 5), "hello");
    assert_eq!(truncate_preview("hello world", 5), "hello\u{2026}");
    assert_eq!(truncate_preview("äöüß", 2), "äö\u{2026}");
    assert_eq!(truncate_preview("", 0), "");
    assert_eq!(PREVIEW_MAX_CHARS, 50);
    let long = "x".repeat(60);
    assert_eq!(
        truncate_preview(&long, PREVIEW_MAX_CHARS).chars().count(),
        51
    );
}

#[test]
fn contact_query_ignores_case() {
    let c = pair("555-987-6543", "Bob Jones");
    assert!(contact_match_query(&c, "bob"));
    assert!(contact_match_query(&c, "JONES"));
    assert!(contact_match_query(&c, "987"));
    assert!(contact_match_query(&c, ""));
    assert!(!contact_match_query(&c, "alice"));
}

#[test]
fn filtered_contacts_keeps_order() {
    let mut w = window();
    assert_eq!(filtered_contacts(&w).len(), 3);
    w.search_contact_query = "alice".to_string();
    let r = filtered_contacts(&w);
    assert_eq!(
        r,
        vec![
            pair("+1 (555) 123-4567", "Alice Smith"),
            pair("15551234567", "Alice (work)")
        ]
    );
    w.search_contact_query = "nobody".to_string();
    assert!(filtered_contacts(&w).is_empty());
}

#[test]
fn contact_name_by_matching_number() {
    let w = window();
    assert_eq!(
        get_contact_name(&w, "5551234567").as_deref(),
        Some("Alice Smith")
    );
    assert_eq!(
        get_contact_name(&w, "(555) 987 6543").as_deref(),
        Some("Bob Jones")
    );
    assert_eq!(get_contact_name(&w, "999"), None);
}

#[test]
fn contact_photo_by_matching_number() {
    let w = window();
    let a = get_contact_photo(&w, "+1 555 987 6543").unwrap();
    assert_eq!(a.width, 2);
    assert_eq!(a.rgba.len(), 8);
    assert!(get_contact_photo(&w, "5551234567").is_none());
}

#[test]
fn current_conversation_phone() {
    let mut w = window();
    assert_eq!(get_current_conversation_phone(&w), None);
    w.selected_thread = Some("t2".to_string());
    assert_eq!(
        get_current_conversation_phone(&w).as_deref(),
        Some("5559876543")
    );
    w.selected_thread = Some("t9".to_string());
    assert_eq!(get_current_conversation_phone(&w), None);
}

#[test]
fn unread_marker_follows_last_seen() {
    let mut w = window();
    let c1 = conv("t1", "5551234567", 1000, false);
    let c2 = conv("t2", "5559876543", 2000, true);
    assert!(!is_conversation_unread(&w, &c1));
    assert!(is_conversation_unread(&w, &c2));
    w.last_seen_timestamp.insert("t2".to_string(), 2000);
    assert!(!is_conversation_unread(&w, &c2));
    w.last_seen_timestamp.insert("t1".to_string(), 500);
    assert!(is_conversation_unread(&w, &c1));
}

#[test]
fn display_name_falls_back_to_number() {
    let w = window();
    assert_eq!(display_name(&w, "5551234567"), "Alice Smith");
    assert_eq!(display_name(&w, "+44 20 7946 0000"), "+44 20 7946 0000");
}

#[test]
fn sender_label_prefers_selected_conversation() {
    let mut w = window();
    assert_eq!(sender_label(&w, "555-987-6543"), "Bob Jones");
    assert_eq!(sender_label(&w, "12"), "12");
    w.selected_thread = Some("t1".to_string());
    assert_eq!(sender_label(&w, "555-987-6543"), "Alice Smith");
}

#[test]
fn thread_view_finds_its_conversation() {
    let w = window();
    assert_eq!(find_conversation(&w, "t2"), Some(1));
    assert_eq!(find_conversation(&w, "t1"), Some(0));
    assert_eq!(find_conversation(&w, "nope"), None);
}

fn attachment(mime: &str, uid: Option<&str>, thumb: Option<Vec<u8>>, path: Option<&str>) -> MessageAttachment {
    MessageAttachment {
        part_id: 7,
        mime_type: mime.to_string(),
        unique_identifier: uid.map(|u| u.to_string()),
        thumbnail: thumb,
        full_path: path.map(|p| p.to_string()),
    }
}

#[test]
fn attachments_are_shown_by_state() {
    assert!(matches!(attachment_view(&attachment("video/mp4", None, None, Some("/a.mp4"))),
        AttachmentView::Video(ref p) if p == "/a.mp4"));
    assert!(matches!(attachment_view(&attachment("image/png", None, None, Some("/a.png"))),
        AttachmentView::Image(ref p) if p == "/a.png"));
    assert!(matches!(attachment_view(&attachment("image/png", Some("u1"), Some(vec![1, 2]), None)),
        AttachmentView::Thumbnail(ref t, Some((7, ref u))) if t == &vec![1u8, 2] && u == "u1"));
    assert!(matches!(attachment_view(&attachment("image/png", None, Some(vec![]), None)),
        AttachmentView::Placeholder(PlaceholderKind::Photo, None)));
    assert!(matches!(attachment_view(&attachment("video/3gpp", Some("v"), None, None)),
        AttachmentView::Placeholder(PlaceholderKind::Video, Some((7, _)))));
    assert!(matches!(attachment_view(&attachment("text/vcard", None, None, None)),
        AttachmentView::Placeholder(PlaceholderKind::Other, None)));
}

fn text(sent: bool, address: &str) -> TextMessage {
    TextMessage {
        id: 1,
        address: address.to_string(),
        body: "Hi there".to_string(),
        date: 1_000_000,
        sent,
        attachments: vec![attachment("image/jpeg", None, None, Some("/x.jpg"))],
    }
}

#[test]
fn bubble_of_received_and_sent_messages() {
    let mut w = window();
    let b = bubble_at(&w, &text(false, "555-987-6543"), 3, 1_000 + 120);
    assert!(!b.sent);
    assert_eq!(b.sender.as_deref(), Some("Bob Jones"));
    assert_eq!(b.attachments.len(), 1);
    assert_eq!(b.body, "Hi there");
    assert_eq!(b.time, "2 min ago");
    assert_eq!(b.jump_to, None);
    w.search_field_active = true;
    let b = bubble_at(&w, &text(true, "555-987-6543"), 3, 1_000);
    assert!(b.sent);
    assert_eq!(b.sender, None);
    assert_eq!(b.time, "Just now");
    assert_eq!(b.jump_to, Some(3));
    let b = bubble(&w, &text(false, "12"), 0);
    assert_eq!(b.sender.as_deref(), Some("12"));
    assert_eq!(b.time, "More than a week ago");
}

#[test]
fn empty_query_keeps_every_contact() {
    let w = window();
    assert_eq!(filtered_contacts(&w), w.contacts);
    assert!(contact_match_query(&("".to_string(), "".to_string()), ""));
}
