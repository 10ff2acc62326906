use kdeconnect::sms_utils::{
    decode_quoted_printable, format_relative_time, normalize_phone_number, parse_vcard,
    phone_numbers_match, truncate_message, unfold_vcard_lines,
};

#[test]
fn test_phone_number_normalization() {
    assert_eq!(normalize_phone_number("+1 (555) 123-4567"), "15551234567");
    assert_eq!(normalize_phone_number("555.123.4567"), "5551234567");
}

#[test]
fn test_phone_numbers_match() {
    assert!(phone_numbers_match("5551234567", "5551234567"));
    assert!(phone_numbers_match("5551234567", "15551234567"));
    assert!(phone_numbers_match("+1-555-123-4567", "5551234567"));
}

#[test]
fn phone_numbers_last_seven_digits() {
    assert!(phone_numbers_match("+44 20 7123 4567", "0207 123 4567"));
    assert!(!phone_numbers_match("123456", "123456 7"));
    assert!(!phone_numbers_match("5551234567", "15551234568"));
}

#[test]
fn phone_numbers_us_prefix_decides_alone() {
    // A ten-digit and an eleven-digit number with a leading 1 are compared
    // only without that 1, even when their last seven digits agree.
    assert!(!phone_numbers_match("0001234567", "19991234567"));
    assert!(!phone_numbers_match("19991234567", "0001234567"));
}

#[test]
fn phone_numbers_match_is_symmetric_on_examples() {
    let pairs = [("+1 555 123 4567", "5551234567"), ("12", "12"), ("987654321", "1987654321")];
    for (a, b) in pairs {
        assert_eq!(phone_numbers_match(a, b), phone_numbers_match(b, a));
    }
}

#[test]
fn truncate_message_boundaries() {
    assert_eq!(truncate_message("hello", 10), "hello");
    assert_eq!(truncate_message("hello", 5), "hello...");
    assert_eq!(truncate_message("hello world", 5), "hello...");
    assert_eq!(truncate_message("", 0), "...");
    assert_eq!(truncate_message("héllo wörld", 4), "héll...");
}

#[test]
fn relative_times() {
    let now = 1_000_000;
    assert_eq!(format_relative_time(now, now * 1000), "Just now");
    assert_eq!(format_relative_time(now, (now - 59) * 1000), "Just now");
    assert_eq!(format_relative_time(now, (now - 60) * 1000), "1 min ago");
    assert_eq!(format_relative_time(now, (now - 3599) * 1000), "59 min ago");
    assert_eq!(format_relative_time(now, (now - 7200) * 1000), "2 hours ago");
    assert_eq!(format_relative_time(now, (now - 3 * 86400) * 1000), "3 days ago");
    assert_eq!(format_relative_time(now, (now - 604800) * 1000), "More than a week ago");
    assert_eq!(format_relative_time(now, (now + 5000) * 1000), "Just now");
}

#[test]
fn relative_time_rounds_milliseconds_toward_zero() {
    assert_eq!(format_relative_time(100, -1999), "1 min ago");
    assert_eq!(format_relative_time(0, -60_999), "1 min ago");
}

#[test]
fn quoted_printable_decoding() {
    assert_eq!(decode_quoted_printable("Caf=C3=A9"), "Café");
    assert_eq!(decode_quoted_printable("a=3Db"), "a=b");
    assert_eq!(decode_quoted_printable("=4"), "=4");
    assert_eq!(decode_quoted_printable("=ZZ"), "=ZZ");
    assert_eq!(decode_quoted_printable("=FF"), "\u{FFFD}");
    assert_eq!(decode_quoted_printable("plain text"), "plain text");
}

#[test]
fn quoted_printable_without_escapes_is_unchanged() {
    for s in ["", "no escapes here", "ünïcödé ✓", "line\nbreak"] {
        assert_eq!(decode_quoted_printable(s), s);
    }
}

#[test]
fn vcard_lines_unfold() {
    let card = "BEGIN:VCARD\r\nFN:John\r\n  Smith\r\nNOTE;ENCODING=QUOTED-PRINTABLE:a=\r\nb\r\n\r\nEND:VCARD";
    assert_eq!(
        unfold_vcard_lines(card),
        vec!["BEGIN:VCARD", "FN:JohnSmith", "NOTE;ENCODING=QUOTED-PRINTABLE:ab", "END:VCARD"]
    );
}

#[test]
fn vcard_with_full_name_and_phones() {
    let card = "BEGIN:VCARD\nVERSION:3.0\nFN:Jane Doe\nN:Doe;Jane;;;\nTEL;TYPE=CELL:+1 555 123 4567\nTEL:\nTEL;TYPE=HOME:555-0000\nEND:VCARD\n";
    let (name, phones) = parse_vcard(card);
    assert_eq!(name.as_deref(), Some("Jane Doe"));
    assert_eq!(phones, vec!["+1 555 123 4567", "555-0000"]);
}

#[test]
fn vcard_name_from_structured_name() {
    let (name, phones) = parse_vcard("BEGIN:VCARD\nN:Doe;John;;;\nEND:VCARD");
    assert_eq!(name.as_deref(), Some("John Doe"));
    assert!(phones.is_empty());
    let (name, _) = parse_vcard("N:Doe\n");
    assert_eq!(name, None);
    let (name, _) = parse_vcard("N:;\n");
    assert_eq!(name, None);
}

#[test]
fn vcard_full_name_wins_over_structured_name() {
    let (name, _) = parse_vcard("N:Doe;John\nFN:Johnny\n");
    assert_eq!(name.as_deref(), Some("Johnny"));
    let (name, _) = parse_vcard("FN:Johnny\nN:Doe;John\n");
    assert_eq!(name.as_deref(), Some("Johnny"));
}

#[test]
fn vcard_quoted_printable_name() {
    let card = "BEGIN:VCARD\nVERSION:2.1\nFN;CHARSET=UTF-8;ENCODING=QUOTED-PRINTABLE:Jos=C3=\n=A9\ntel;type=cell:123\nEND:VCARD";
    let (name, phones) = parse_vcard(card);
    assert_eq!(name.as_deref(), Some("José"));
    assert_eq!(phones, vec!["123"]);
}

#[test]
fn vcard_property_names_in_any_case() {
    let (name, phones) = parse_vcard("BEGIN:VCARD\nfn:Alice\nTel;type=cell:555 1234\nEND:VCARD");
    assert_eq!(name.as_deref(), Some("Alice"));
    assert_eq!(phones, vec!["555 1234".to_string()]);
}

#[test]
fn quoted_printable_utf8_examples() {
    assert_eq!(decode_quoted_printable("Jos=C3=A9 =c3=a9"), "José é");
    assert_eq!(decode_quoted_printable("=ZZ a=4"), "=ZZ a=4");
    assert_eq!(decode_quoted_printable("=FF"), "\u{FFFD}");
    let (name, phones) =
        parse_vcard("FN;CHARSET=UTF-8;ENCODING=QUOTED-PRINTABLE:Jos=C3=A9 Garc=C3=ADa");
    assert_eq!(name.as_deref(), Some("José García"));
    assert!(phones.is_empty());
}
