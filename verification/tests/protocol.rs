use kdeconnect::json::JsonValue;
use kdeconnect::protocol::{
    frame_packet, DeviceType, Pair, PacketPayloadTransferInfo, PacketType, ProtocolPacket,
    PROTOCOL_VERSION,
};

const NAMES: [&str; 42] = [
    "kdeconnect.battery",
    "kdeconnect.battery.request",
    "kdeconnect.clipboard",
    "kdeconnect.clipboard.connect",
    "kdeconnect.connectivity_report",
    "kdeconnect.connectivity_report.request",
    "kdeconnect.contacts.request_all_uids_timestamps",
    "kdeconnect.contacts.request_vcards_by_uid",
    "kdeconnect.contacts.response_uids_timestamps",
    "kdeconnect.contacts.response_vcards",
    "kdeconnect.findmyphone.request",
    "kdeconnect.lock",
    "kdeconnect.lock.request",
    "kdeconnect.mousepad.echo",
    "kdeconnect.mousepad.keyboardstate",
    "kdeconnect.mousepad.request",
    "kdeconnect.mpris",
    "kdeconnect.mpris.request",
    "kdeconnect.notification",
    "kdeconnect.notification.action",
    "kdeconnect.notification.reply",
    "kdeconnect.notification.request",
    "kdeconnect.identity",
    "kdeconnect.pair",
    "kdeconnect.ping",
    "kdeconnect.presenter",
    "kdeconnect.runcommand",
    "kdeconnect.runcommand.request",
    "kdeconnect.sftp",
    "kdeconnect.sftp.request",
    "kdeconnect.share.request",
    "kdeconnect.share.request.update",
    "kdeconnect.sms.attachment_file",
    "kdeconnect.sms.messages",
    "kdeconnect.sms.request",
    "kdeconnect.sms.request_attachment",
    "kdeconnect.sms.request_conversation",
    "kdeconnect.sms.request_conversations",
    "kdeconnect.systemvolume",
    "kdeconnect.systemvolume.request",
    "kdeconnect.telephony",
    "kdeconnect.telephony.request_mute",
];

#[test]
fn known_names_parse_and_write_back() {
    for name in NAMES {
        let t = PacketType::from(name.to_string());
        assert!(!matches!(t, PacketType::Unknown(_)), "{name} should be known");
        assert_eq!(t.to_string(), name);
    }
}

#[test]
fn parsed_types_are_the_expected_variants() {
    assert!(matches!(PacketType::from("kdeconnect.ping".to_string()), PacketType::Ping));
    assert!(matches!(PacketType::from("kdeconnect.pair".to_string()), PacketType::Pair));
    assert!(matches!(
        PacketType::from("kdeconnect.sms.request_conversations".to_string()),
        PacketType::SmsRequestConversations
    ));
    assert!(matches!(PacketType::from("kdeconnect.identity".to_string()), PacketType::Identity));
}

#[test]
fn legacy_alias_parses_to_canonical_type() {
    let t = PacketType::from("kdeconnect.contacts.response_all_uids_timestamps".to_string());
    assert!(matches!(t, PacketType::ContactsResponseUidsTimestamps));
    assert_eq!(t.to_string(), "kdeconnect.contacts.response_uids_timestamps");
}

#[test]
fn unknown_type_keeps_its_name() {
    let t = PacketType::from("kdeconnect.something.new".to_string());
    match &t {
        PacketType::Unknown(s) => assert_eq!(s, "kdeconnect.something.new"),
        _ => panic!("expected an unknown packet type"),
    }
    assert_eq!(t.to_string(), "kdeconnect.something.new");
    assert!(matches!(PacketType::from(String::new()), PacketType::Unknown(_)));
}

#[test]
fn device_type_names() {
    assert_eq!(DeviceType::Desktop.to_string(), "desktop");
    assert_eq!(DeviceType::Laptop.to_string(), "laptop");
    assert_eq!(DeviceType::Phone.to_string(), "phone");
    assert_eq!(DeviceType::Tablet.to_string(), "tablet");
    assert_eq!(DeviceType::Tv.to_string(), "tv");
}

#[test]
fn pair_requests_carry_a_timestamp() {
    let p = Pair::new(true);
    assert!(p.pair);
    assert!(p.timestamp.is_some());
    let u = Pair::new(false);
    assert!(!u.pair);
    assert_eq!(u.timestamp, None);
}

#[test]
fn packets_without_and_with_payload() {
    let p = ProtocolPacket::new(PacketType::Ping, JsonValue::Null);
    assert!(p.id.is_some());
    assert!(matches!(p.packet_type, PacketType::Ping));
    assert!(matches!(p.body, JsonValue::Null));
    assert_eq!(p.payload_size, None);
    assert!(p.payload_transfer_info.is_none());

    let q = ProtocolPacket::new_with_payload(
        PacketType::ShareRequest,
        JsonValue::Bool(true),
        1234,
        Some(PacketPayloadTransferInfo { port: 1739 }),
    );
    assert!(q.id.is_some());
    assert_eq!(q.payload_size, Some(1234));
    assert_eq!(q.payload_transfer_info, Some(PacketPayloadTransferInfo { port: 1739 }));
    assert!(matches!(q.body, JsonValue::Bool(true)));
}

#[test]
fn framing_appends_a_newline() {
    assert_eq!(frame_packet("{}"), b"{}\n".to_vec());
    assert_eq!(frame_packet(""), b"\n".to_vec());
    assert_eq!(frame_packet("é"), "é\n".as_bytes().to_vec());
    assert_eq!(PROTOCOL_VERSION, 8);
}
