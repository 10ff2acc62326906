use kdeconnect::applet::{
    message_for_event, pairing_notice_text, run_commands_from_json, sort_by_name, AppletTask,
    KdeConnectApplet, Message,
};
use kdeconnect::device::Device;
use kdeconnect::json::JsonValue;
use kdeconnect::popup::{device_card, media_card, media_players_by_identity, CardAction, NowPlaying};
use kdeconnect::settings::ServiceEvent;

fn device(id: &str, name: &str, paired: bool) -> Device {
    Device {
        id: id.to_string(),
        name: name.to_string(),
        is_paired: paired,
        is_reachable: true,
        battery_level: None,
        is_charging: None,
        signal_strength: None,
        share_progress: None,
        run_commands: Vec::new(),
        has_findmyphone: false,
        has_clipboard: false,
        has_share: false,
        has_sftp: false,
        is_mounted: false,
    }
}

fn names(tasks: &[AppletTask]) -> Vec<String> {
    tasks
        .iter()
        .map(|t| match t {
            AppletTask::OpenPopup(p) => format!("open {p}"),
            AppletTask::DestroyPopup(p) => format!("destroy {p}"),
            AppletTask::FetchDevices => "fetch".to_string(),
            AppletTask::QuitService => "quit".to_string(),
            AppletTask::Exit => "exit".to_string(),
            AppletTask::RequestRunCommands(d) => format!("commands {d}"),
            AppletTask::LaunchSms(d, n) => format!("sms {d} {n}"),
            AppletTask::PingDevice(d) => format!("ping {d}"),
            AppletTask::RingDevice(d) => format!("ring {d}"),
            AppletTask::BrowseDevice(d) => format!("browse {d}"),
            AppletTask::PairDevice(d) => format!("pair {d}"),
            AppletTask::UnpairDevice(d) => format!("unpair {d}"),
            AppletTask::SendFiles(d) => format!("files {d}"),
            AppletTask::ShareClipboard(d) => format!("clip {d}"),
            AppletTask::StoreDevice(d) => format!("store {d}"),
            AppletTask::AcceptPairing(d) => format!("accept {d}"),
            AppletTask::RejectPairing(d) => format!("reject {d}"),
            AppletTask::NotifyPairingRequest(b) => format!("notify {b}"),
            AppletTask::OpenSettings => "settings".to_string(),
            AppletTask::ExecuteRunCommand(d, k) => format!("run {d} {k}"),
        })
        .collect()
}

fn obj(fields: Vec<(&str, JsonValue)>) -> JsonValue {
    JsonValue::Object(fields.into_iter().map(|(k, v)| (k.to_string(), v)).collect())
}

fn s(v: &str) -> JsonValue {
    JsonValue::Str(v.to_string())
}

#[test]
fn popup_toggle_twice_closes_again() {
    let mut app = KdeConnectApplet::new();
    let t1 = app.update(Message::TogglePopup, 7);
    assert_eq!(names(&t1), vec!["open 7", "fetch"]);
    assert_eq!(app.popup, Some(7));
    let t2 = app.update(Message::TogglePopup, 9);
    assert_eq!(names(&t2), vec!["destroy 7"]);
    assert_eq!(app.popup, None);
}

#[test]
fn popup_closed_only_forgets_its_own_surface() {
    let mut app = KdeConnectApplet::new();
    app.update(Message::TogglePopup, 3);
    let t = app.update(Message::PopupClosed(4), 0);
    assert!(t.is_empty());
    assert_eq!(app.popup, Some(3));
    app.update(Message::PopupClosed(3), 0);
    assert_eq!(app.popup, None);
}

#[test]
fn quit_then_exit() {
    let mut app = KdeConnectApplet::new();
    assert_eq!(names(&app.update(Message::Quit, 0)), vec!["quit"]);
    assert_eq!(
        names(&app.update(Message::QuitFinished(Some("no service".to_string())), 0)),
        vec!["exit"]
    );
}

#[test]
fn sms_uses_the_device_name_or_unknown() {
    let mut app = KdeConnectApplet::new();
    app.update(
        Message::DevicesUpdated(vec![device("a", "Pixel", true), device("b", "Tablet", false)]),
        0,
    );
    assert_eq!(app.devices.len(), 2);
    assert_eq!(
        names(&app.update(Message::SendSMS("a".to_string()), 0)),
        vec!["sms a Pixel"]
    );
    assert_eq!(
        names(&app.update(Message::SendSMS("zz".to_string()), 0)),
        vec!["sms zz Unknown Device"]
    );
}

#[test]
fn later_device_with_same_id_wins() {
    let mut app = KdeConnectApplet::new();
    app.update(
        Message::DevicesUpdated(vec![device("a", "Old", true), device("a", "New", true)]),
        0,
    );
    assert_eq!(app.devices.len(), 1);
    assert_eq!(app.devices.get("a").unwrap().name, "New");
}

#[test]
fn device_menu_toggle_twice() {
    let mut app = KdeConnectApplet::new();
    let t1 = app.update(Message::ToggleDeviceMenu("a".to_string()), 0);
    assert_eq!(names(&t1), vec!["commands a"]);
    assert_eq!(app.expanded_device.as_deref(), Some("a"));
    let t2 = app.update(Message::ToggleDeviceMenu("a".to_string()), 0);
    assert!(t2.is_empty());
    assert_eq!(app.expanded_device, None);
}

#[test]
fn transfer_progress_on_expanded_device() {
    let mut app = KdeConnectApplet::new();
    app.update(Message::DevicesUpdated(vec![device("a", "Pixel", true)]), 0);
    app.update(Message::ToggleDeviceMenu("a".to_string()), 0);
    app.update(Message::UpdateTransferProgress(40), 0);
    assert_eq!(app.devices.get("a").unwrap().share_progress, Some(40));
    app.update(Message::UpdateTransferProgress(100), 0);
    assert_eq!(app.devices.get("a").unwrap().share_progress, None);
}

#[test]
fn battery_update_of_known_and_unknown_device() {
    let mut app = KdeConnectApplet::new();
    app.update(Message::DevicesUpdated(vec![device("a", "Pixel", true)]), 0);
    let t = app.update(Message::BatteryUpdated("a".to_string(), 55, true), 0);
    assert_eq!(names(&t), vec!["store a"]);
    let d = app.devices.get("a").unwrap();
    assert_eq!(d.battery_level, Some(55));
    assert_eq!(d.is_charging, Some(true));
    let t = app.update(Message::BatteryUpdated("x".to_string(), 10, false), 0);
    assert!(t.is_empty());
    assert!(!app.devices.contains_key("x"));
    let t = app.update(Message::ConnectivityUpdated("a".to_string(), 3), 0);
    assert_eq!(names(&t), vec!["store a"]);
    assert_eq!(app.devices.get("a").unwrap().signal_strength, Some(3));
}

#[test]
fn pairing_request_opens_popup_and_is_answered() {
    let mut app = KdeConnectApplet::new();
    let t = app.update(
        Message::PairingRequestReceived("p".to_string(), "Phone".to_string(), "phone".to_string()),
        5,
    );
    assert_eq!(
        names(&t),
        vec![
            "notify 'Phone' wants to pair with this device. Click the KDE Connect applet to accept or decline.",
            "open 5"
        ]
    );
    assert_eq!(app.popup, Some(5));
    assert_eq!(app.pairing_requests.get("p").map(|s| s.as_str()), Some("Phone"));
    let t = app.update(Message::AcceptPairing("p".to_string()), 0);
    assert_eq!(names(&t), vec!["accept p"]);
    assert!(!app.pairing_requests.contains_key("p"));
}

#[test]
fn second_pairing_request_keeps_popup() {
    let mut app = KdeConnectApplet::new();
    app.update(Message::TogglePopup, 1);
    let t = app.update(
        Message::PairingRequestReceived("q".to_string(), "Tab".to_string(), "tablet".to_string()),
        2,
    );
    assert_eq!(t.len(), 1);
    assert_eq!(app.popup, Some(1));
    let t = app.update(Message::RejectPairing("q".to_string()), 0);
    assert_eq!(names(&t), vec!["reject q"]);
    assert_eq!(app.pairing_requests.len(), 0);
}

#[test]
fn pairing_notice_text_exact() {
    assert_eq!(
        pairing_notice_text("My Phone"),
        "'My Phone' wants to pair with this device. Click the KDE Connect applet to accept or decline."
    );
}

#[test]
fn run_commands_from_json_keeps_complete_items() {
    let json = JsonValue::Array(vec![
        obj(vec![("key", s("k1")), ("name", s("Lock"))]),
        obj(vec![("key", s("k2"))]),
        obj(vec![("key", JsonValue::Number("3".to_string())), ("name", s("Bad"))]),
        obj(vec![("name", s("Sleep")), ("key", s("k4")), ("command", s("systemctl suspend"))]),
    ]);
    let r = run_commands_from_json(&json);
    assert_eq!(
        r,
        vec![
            ("k1".to_string(), "Lock".to_string()),
            ("k4".to_string(), "Sleep".to_string())
        ]
    );
    assert!(run_commands_from_json(&JsonValue::Null).is_empty());
    assert!(run_commands_from_json(&obj(vec![("key", s("k"))])).is_empty());
}

#[test]
fn run_commands_received_stored_on_device() {
    let mut app = KdeConnectApplet::new();
    app.update(Message::DevicesUpdated(vec![device("a", "Pixel", true)]), 0);
    let json = JsonValue::Array(vec![obj(vec![("key", s("x")), ("name", s("Reboot"))])]);
    let t = app.update(Message::RunCommandsReceived("a".to_string(), json), 0);
    assert_eq!(names(&t), vec!["store a"]);
    assert_eq!(
        app.devices.get("a").unwrap().run_commands,
        vec![("x".to_string(), "Reboot".to_string())]
    );
    let t = app.update(
        Message::ExecuteRunCommand("a".to_string(), "x".to_string()),
        0,
    );
    assert_eq!(names(&t), vec!["run a x"]);
}

#[test]
fn simple_forwarding_messages() {
    let mut app = KdeConnectApplet::new();
    assert_eq!(names(&app.update(Message::PingDevice("a".to_string()), 0)), vec!["ping a"]);
    assert_eq!(names(&app.update(Message::RingDevice("a".to_string()), 0)), vec!["ring a"]);
    assert_eq!(names(&app.update(Message::BrowseDevice("a".to_string()), 0)), vec!["browse a"]);
    assert_eq!(names(&app.update(Message::PairDevice("a".to_string()), 0)), vec!["pair a"]);
    assert_eq!(names(&app.update(Message::UnpairDevice("a".to_string()), 0)), vec!["unpair a"]);
    assert_eq!(names(&app.update(Message::SendFiles("a".to_string()), 0)), vec!["files a"]);
    assert_eq!(names(&app.update(Message::ShareClipboard("a".to_string()), 0)), vec!["clip a"]);
    assert_eq!(names(&app.update(Message::OpenSettings, 0)), vec!["settings"]);
    assert_eq!(names(&app.update(Message::RefreshDevices, 0)), vec!["fetch"]);
    assert_eq!(names(&app.update(Message::DelayedRefresh, 0)), vec!["fetch"]);
    assert!(app.update(Message::LockDevice("a".to_string()), 0).is_empty());
    assert!(app
        .update(Message::ClipboardSendFinished("a".to_string(), None), 0)
        .is_empty());
}

#[test]
fn sort_by_name_orders_and_keeps_ties() {
    let v = vec![
        ("1".to_string(), "b".to_string()),
        ("2".to_string(), "a".to_string()),
        ("3".to_string(), "b".to_string()),
        ("4".to_string(), "B".to_string()),
    ];
    let r = sort_by_name(v);
    let ids: Vec<&str> = r.iter().map(|p| p.0.as_str()).collect();
    assert_eq!(ids, vec!["4", "2", "1", "3"]);
}

#[test]
fn requests_and_paired_devices_by_name() {
    let mut app = KdeConnectApplet::new();
    app.update(
        Message::PairingRequestReceived("z".to_string(), "Zed".to_string(), "phone".to_string()),
        1,
    );
    app.update(
        Message::PairingRequestReceived("y".to_string(), "Amy".to_string(), "phone".to_string()),
        1,
    );
    let r = app.pending_requests_by_name();
    assert_eq!(
        r,
        vec![
            ("y".to_string(), "Amy".to_string()),
            ("z".to_string(), "Zed".to_string())
        ]
    );
    app.update(
        Message::DevicesUpdated(vec![
            device("a", "Pixel", true),
            device("b", "Laptop", false),
            device("c", "Galaxy", true),
        ]),
        0,
    );
    let p = app.paired_devices_by_name();
    assert_eq!(
        p,
        vec![
            ("c".to_string(), "Galaxy".to_string()),
            ("a".to_string(), "Pixel".to_string())
        ]
    );
}

fn card_names(actions: &[CardAction]) -> Vec<String> {
    actions
        .iter()
        .map(|a| match a {
            CardAction::Ping => "ping".to_string(),
            CardAction::FindPhone => "find".to_string(),
            CardAction::ShareClipboard => "clip".to_string(),
            CardAction::Sms => "sms".to_string(),
            CardAction::SendFiles => "files".to_string(),
            CardAction::Progress(p) => format!("progress {p}"),
            CardAction::Browse(m) => format!("browse {m}"),
            CardAction::RunCommand(k, n) => format!("run {k} {n}"),
        })
        .collect()
}

#[test]
fn collapsed_or_offline_card_has_no_actions() {
    let mut d = device("a", "Pixel", true);
    d.battery_level = Some(80);
    let c = device_card(&d, &None);
    assert!(!c.expanded && c.online);
    assert_eq!(c.battery_level, Some(80));
    assert!(c.actions.is_empty());
    let c = device_card(&d, &Some("b".to_string()));
    assert!(!c.expanded);
    assert!(c.actions.is_empty());
    d.is_reachable = false;
    let c = device_card(&d, &Some("a".to_string()));
    assert!(c.expanded && !c.online);
    assert_eq!(c.battery_level, None);
    assert!(c.actions.is_empty());
}

#[test]
fn expanded_card_lists_actions_in_order() {
    let mut d = device("a", "Pixel", true);
    let c = device_card(&d, &Some("a".to_string()));
    assert_eq!(card_names(&c.actions), vec!["ping", "sms"]);
    d.has_findmyphone = true;
    d.has_clipboard = true;
    d.has_share = true;
    d.has_sftp = true;
    d.is_mounted = true;
    d.share_progress = Some(0);
    d.run_commands = vec![("k1".to_string(), "Lock".to_string())];
    let c = device_card(&d, &Some("a".to_string()));
    assert_eq!(
        card_names(&c.actions),
        vec!["ping", "find", "clip", "sms", "files", "browse true", "run k1 Lock"]
    );
    d.share_progress = Some(30);
    d.has_share = true;
    d.has_sftp = false;
    let c = device_card(&d, &Some("a".to_string()));
    assert_eq!(
        card_names(&c.actions),
        vec!["ping", "find", "clip", "sms", "files", "progress 30", "run k1 Lock"]
    );
    d.has_share = false;
    let c = device_card(&d, &Some("a".to_string()));
    assert_eq!(
        card_names(&c.actions),
        vec!["ping", "find", "clip", "sms", "run k1 Lock"]
    );
}

#[test]
fn service_events_become_applet_messages() {
    let m = message_for_event(ServiceEvent::PairingRequested("p".into(), "Phone".into()));
    assert!(matches!(m, Some(Message::PairingRequestReceived(ref i, ref n, ref t))
        if i == "p" && n == "Phone" && t == "phone"));
    let m = message_for_event(ServiceEvent::BatteryReceived("p".into(), 42, true));
    assert!(matches!(m, Some(Message::BatteryUpdated(ref i, 42, true)) if i == "p"));
    let m = message_for_event(ServiceEvent::ConnectivityReceived("p".into(), 4));
    assert!(matches!(m, Some(Message::ConnectivityUpdated(ref i, 4)) if i == "p"));
    let m = message_for_event(ServiceEvent::RunCommandListReceived("p".into(), JsonValue::Null));
    assert!(matches!(m, Some(Message::RunCommandsReceived(ref i, JsonValue::Null)) if i == "p"));
    for e in [
        ServiceEvent::DeviceConnected("p".into()),
        ServiceEvent::DeviceDisconnected("p".into()),
        ServiceEvent::DevicePaired("p".into()),
    ] {
        assert!(matches!(message_for_event(e), Some(Message::RefreshDevices)));
    }
    assert!(message_for_event(ServiceEvent::ClipboardReceived("x".into())).is_none());
    assert!(message_for_event(ServiceEvent::Other).is_none());
}

#[test]
fn requests_and_devices_kept_by_unrelated_messages() {
    let mut app = KdeConnectApplet::new();
    app.update(Message::DevicesUpdated(vec![device("a", "Pixel", true)]), 0);
    app.update(
        Message::PairingRequestReceived("p".into(), "Phone".into(), "phone".into()),
        1,
    );
    for m in [
        Message::RefreshDevices,
        Message::PingDevice("a".into()),
        Message::ToggleDeviceMenu("a".into()),
        Message::BatteryUpdated("zz".into(), 5, false),
        Message::OpenSettings,
    ] {
        app.update(m, 9);
        assert_eq!(app.pairing_requests.len(), 1);
        assert_eq!(app.devices.len(), 1);
        assert_eq!(app.devices.get("a").unwrap().battery_level, None);
    }
    assert_eq!(app.popup, Some(1));
}

fn player(identity: &str, controls: bool) -> NowPlaying {
    NowPlaying {
        identity: identity.to_string(),
        title: None,
        artist: None,
        art_path: None,
        is_playing: false,
        can_play: controls,
        can_pause: false,
        can_go_next: false,
        can_go_previous: false,
    }
}

#[test]
fn media_players_controllable_by_identity() {
    let players = vec![
        ("bus.a".to_string(), player("VLC", true)),
        ("bus.b".to_string(), player("Chrome tab", false)),
        ("bus.c".to_string(), player("Spotify", true)),
        ("bus.d".to_string(), player("Podcasts", true)),
    ];
    assert_eq!(media_players_by_identity(&players), vec![3, 2, 0]);
    assert!(media_players_by_identity(&vec![]).is_empty());
}

#[test]
fn media_card_controls_and_lines() {
    let mut p = player("Spotify", false);
    p.can_pause = true;
    p.can_go_next = true;
    p.is_playing = true;
    let c = media_card(&p);
    assert!(!c.previous && c.play_pause && c.next && c.pause_icon);
    assert_eq!(c.caption, None);
    assert_eq!(c.heading, "Spotify");
    assert_eq!(c.artist, None);
    p.title = Some("Song".to_string());
    p.artist = Some(String::new());
    p.art_path = Some("/art.png".to_string());
    let c = media_card(&p);
    assert_eq!(c.caption.as_deref(), Some("Spotify"));
    assert_eq!(c.heading, "Song");
    assert_eq!(c.artist, None);
    assert_eq!(c.art_path.as_deref(), Some("/art.png"));
    p.artist = Some("Band".to_string());
    assert_eq!(media_card(&p).artist.as_deref(), Some("Band"));
}

#[test]
fn card_shows_signal_only_online() {
    let mut d = device("a", "Pixel", true);
    d.signal_strength = Some(3);
    assert_eq!(device_card(&d, &None).signal_strength, Some(3));
    d.is_reachable = false;
    assert_eq!(device_card(&d, &None).signal_strength, None);
}
