use kdeconnect::device::Device;
use kdeconnect::json::JsonValue;
use kdeconnect::settings::{
    default_plugin_map, implemented_plugins, Message, QuickMessages, ServiceEvent, SettingsApp,
    SettingsTask, Tab,
};

fn device(id: &str, name: &str, paired: bool, reachable: bool) -> Device {
    Device {
        id: id.to_string(),
        name: name.to_string(),
        is_paired: paired,
        is_reachable: reachable,
        battery_level: None,
        is_charging: None,
        signal_strength: None,
        share_progress: None,
        run_commands: Vec::new(),
        has_findmyphone: false,
        has_clipboard: false,
        has_share: false,
        has_sftp: false,
        is_mounted: false,
    }
}

fn task_names(tasks: &[SettingsTask]) -> Vec<String> {
    tasks
        .iter()
        .map(|t| match t {
            SettingsTask::FetchDevices => "fetch".to_string(),
            SettingsTask::LoadPluginStates(d) => format!("load {d}"),
            SettingsTask::SetPluginEnabled(d, p, e) => format!("set {d} {p} {e}"),
            SettingsTask::PairDevice(d) => format!("pair {d}"),
            SettingsTask::UnpairDevice(d) => format!("unpair {d}"),
            SettingsTask::PingDevice(d) => format!("ping {d}"),
            SettingsTask::RingDevice(d) => format!("ring {d}"),
            SettingsTask::ShareClipboard(d) => format!("clip {d}"),
            SettingsTask::LaunchSms(d, n) => format!("sms {d} {n}"),
            SettingsTask::SendFiles(d) => format!("files {d}"),
            SettingsTask::BrowseDevice(d) => format!("browse {d}"),
            SettingsTask::SaveRunCommands => "save".to_string(),
            SettingsTask::PushLocalCommands(d) => format!("push {d}"),
        })
        .collect()
}

#[test]
fn plugin_catalogue() {
    let plugins = implemented_plugins();
    let ids: Vec<&str> = plugins.iter().map(|p| p.id).collect();
    assert_eq!(
        ids,
        vec![
            "battery",
            "clipboard",
            "connectivity_report",
            "contacts",
            "findmyphone",
            "mpris",
            "notification",
            "ping",
            "runcommand",
            "share",
            "sms",
            "systemvolume",
            "telephony"
        ]
    );
    assert_eq!(plugins[6].name_key, "plugin-notifications-name");
    assert_eq!(plugins[12].icon, "phone-symbolic");
    let defaults = default_plugin_map();
    assert_eq!(defaults.len(), 13);
    assert_eq!(defaults.get("sms"), Some(&true));
}

#[test]
fn devices_loaded_selects_first_paired() {
    let mut app = SettingsApp::new();
    let tasks = app.update(Message::DevicesLoaded(vec![
        device("a", "A", false, true),
        device("b", "B", true, true),
        device("c", "C", true, false),
    ]));
    assert!(tasks.is_empty());
    assert_eq!(app.selected_device.as_deref(), Some("b"));
    assert_eq!(app.profile_entries(), vec![("B".to_string(), "b".to_string())]);
    assert_eq!(app.available_devices(), vec![0]);
}

#[test]
fn selection_dropped_when_device_unpaired_elsewhere() {
    let mut app = SettingsApp::new();
    app.update(Message::DevicesLoaded(vec![device("b", "B", true, true)]));
    app.update(Message::TogglePlugin("sms".to_string(), false));
    assert!(app.plugin_states.contains_key("b"));
    app.update(Message::DevicesLoaded(vec![device("b", "B", false, true), device("d", "D", true, true)]));
    assert_eq!(app.selected_device.as_deref(), Some("d"));
    assert!(!app.plugin_states.contains_key("b"));
    app.update(Message::DevicesLoaded(vec![]));
    assert_eq!(app.selected_device, None);
}

#[test]
fn pairing_progress_cleared_once_paired() {
    let mut app = SettingsApp::new();
    let tasks = app.update(Message::PairDevice("x".to_string()));
    assert_eq!(task_names(&tasks), vec!["pair x"]);
    assert_eq!(app.pairing_in_progress.get("x"), Some(&true));
    app.update(Message::DevicesLoaded(vec![device("x", "X", true, true)]));
    assert_eq!(app.pairing_in_progress.get("x"), None);
}

#[test]
fn plugin_toggles_read_back() {
    let mut app = SettingsApp::new();
    assert!(app.plugin_enabled("sms"));
    let tasks = app.update(Message::TogglePlugin("sms".to_string(), false));
    assert!(tasks.is_empty());
    app.update(Message::DevicesLoaded(vec![device("p", "Phone", true, true)]));
    let tasks = app.update(Message::TogglePlugin("sms".to_string(), false));
    assert_eq!(task_names(&tasks), vec!["set p sms false"]);
    assert!(!app.plugin_enabled("sms"));
    assert!(app.plugin_enabled("ping"));
    app.update(Message::TogglePlugin("sms".to_string(), true));
    assert!(app.plugin_enabled("sms"));
}

#[test]
fn stored_plugin_states_read_back() {
    let mut app = SettingsApp::new();
    app.update(Message::DevicesLoaded(vec![device("p", "Phone", true, true)]));
    app.update(Message::PluginStatesLoaded(
        "p".to_string(),
        vec!["battery".to_string(), "mpris".to_string()],
    ));
    assert!(!app.plugin_enabled("battery"));
    assert!(!app.plugin_enabled("mpris"));
    assert!(app.plugin_enabled("clipboard"));
    assert!(app.plugin_enabled("not-a-plugin"));
}

#[test]
fn navigation_selects_and_loads() {
    let mut app = SettingsApp::new();
    let tasks = app.on_nav_select(Some(Tab::DeviceProfile("p".to_string())));
    assert_eq!(task_names(&tasks), vec!["load p"]);
    assert_eq!(app.selected_device.as_deref(), Some("p"));
    assert!(matches!(&app.active_tab, Tab::DeviceProfile(id) if id == "p"));
    assert_eq!(app.plugin_states.get("p").map(|m| m.len()), Some(13));
    let tasks = app.on_nav_select(Some(Tab::Commands));
    assert!(tasks.is_empty());
    assert!(matches!(app.active_tab, Tab::Commands));
    let tasks = app.on_nav_select(None);
    assert_eq!(task_names(&tasks), vec!["fetch"]);
    assert_eq!(app.selected_device, None);
    assert!(matches!(app.active_tab, Tab::AvailableDevices));
}

#[test]
fn quick_actions() {
    let mut app = SettingsApp::new();
    app.update(Message::DevicesLoaded(vec![device("p", "Pixel", true, true)]));
    let t = |app: &mut SettingsApp, q| task_names(&app.update(Message::RunQuickAction(q)));
    assert_eq!(t(&mut app, QuickMessages::Ping("p".into())), vec!["ping p"]);
    assert_eq!(t(&mut app, QuickMessages::FindMyPhone("p".into())), vec!["ring p"]);
    assert_eq!(t(&mut app, QuickMessages::ShareCliphboard("p".into())), vec!["clip p"]);
    assert_eq!(t(&mut app, QuickMessages::SMS("p".into())), vec!["sms p Pixel"]);
    assert!(t(&mut app, QuickMessages::SMS("q".into())).is_empty());
    assert_eq!(t(&mut app, QuickMessages::SendFiles("p".into())), vec!["files p"]);
    assert_eq!(t(&mut app, QuickMessages::BrowseDevice("p".into())), vec!["browse p"]);
    assert_eq!(t(&mut app, QuickMessages::UmountDevice("p".into())), vec!["browse p"]);
}

#[test]
fn service_events_refresh_only_on_device_changes() {
    let mut app = SettingsApp::new();
    let t = app.update(Message::ServiceEvent(ServiceEvent::DeviceConnected("p".into())));
    assert_eq!(task_names(&t), vec!["fetch"]);
    let t = app.update(Message::ServiceEvent(ServiceEvent::DevicePaired("p".into())));
    assert_eq!(task_names(&t), vec!["fetch"]);
    let t = app.update(Message::ServiceEvent(ServiceEvent::DeviceDisconnected("p".into())));
    assert_eq!(task_names(&t), vec!["fetch"]);
    assert!(app.update(Message::ServiceEvent(ServiceEvent::Other)).is_empty());
    assert_eq!(task_names(&app.update(Message::Refresh)), vec!["fetch"]);
}

#[test]
fn unpair_forgets_device() {
    let mut app = SettingsApp::new();
    app.update(Message::DevicesLoaded(vec![device("p", "P", true, true)]));
    app.update(Message::TogglePlugin("ping".into(), false));
    let t = app.update(Message::UnpairDevice("p".into()));
    assert_eq!(task_names(&t), vec!["unpair p"]);
    assert_eq!(app.selected_device, None);
    assert!(!app.plugin_states.contains_key("p"));
}

#[test]
fn banner_and_tabs() {
    let mut app = SettingsApp::new();
    app.update(Message::BrowseDeviceFailed("sshfs missing".into()));
    assert_eq!(app.message_banner.as_deref(), Some("sshfs missing"));
    app.update(Message::DismissError);
    assert_eq!(app.message_banner, None);
    app.update(Message::OpenDeviceProfile);
    assert!(matches!(app.active_tab, Tab::AvailableDevices));
    app.update(Message::DevicesLoaded(vec![device("p", "P", true, true)]));
    app.update(Message::OpenDeviceProfile);
    assert!(matches!(&app.active_tab, Tab::DeviceProfile(id) if id == "p"));
    app.update(Message::OpenCommandAddTab);
    assert!(matches!(app.active_tab, Tab::AddCommand));
    app.update(Message::OpenCommandsTab);
    assert!(matches!(app.active_tab, Tab::Commands));
}

fn command_id(c: &JsonValue) -> Option<&str> {
    c.get("id").and_then(|v| v.as_str())
}

#[test]
fn run_commands_are_added_and_deleted() {
    let mut app = SettingsApp::new();
    app.update(Message::NewRunCommandName("  Lock  ".into()));
    app.update(Message::NewRunCommandCommand("   ".into()));
    assert!(app.update(Message::AddRunCommand).is_empty());
    assert!(app.run_commands.is_empty());

    app.update(Message::NewRunCommandCommand(" loginctl lock-session ".into()));
    let t = app.update(Message::AddRunCommand);
    assert_eq!(task_names(&t), vec!["save"]);
    assert_eq!(app.run_commands.len(), 1);
    let c = &app.run_commands[0];
    assert_eq!(c.get("name").and_then(|v| v.as_str()), Some("Lock"));
    assert_eq!(c.get("command").and_then(|v| v.as_str()), Some("loginctl lock-session"));
    let id = command_id(c).expect("an id").to_string();
    assert_eq!(id.len(), 36);
    assert_eq!(app.new_cmd_name, "");
    assert_eq!(app.new_cmd_command, "");
    assert!(matches!(app.active_tab, Tab::Commands));

    app.update(Message::DevicesLoaded(vec![device("p", "P", true, true)]));
    let t = app.add_run_command("fixed-id".to_string());
    assert!(t.is_empty());
    app.update(Message::NewRunCommandName("Hi".into()));
    app.update(Message::NewRunCommandCommand("echo hi".into()));
    let t = app.add_run_command("fixed-id".to_string());
    assert_eq!(task_names(&t), vec!["save", "push p"]);
    assert_eq!(command_id(&app.run_commands[1]), Some("fixed-id"));

    let t = app.update(Message::DeleteRunCommand(id.clone()));
    assert_eq!(task_names(&t), vec!["save", "push p"]);
    assert_eq!(app.run_commands.len(), 1);
    assert_eq!(command_id(&app.run_commands[0]), Some("fixed-id"));
}

#[test]
fn loaded_commands_replace_the_list() {
    let mut app = SettingsApp::new();
    app.update(Message::RunCommandsLoaded(vec![JsonValue::Null, JsonValue::Null]));
    assert_eq!(app.run_commands.len(), 2);
    app.update(Message::DeleteRunCommand("x".into()));
    assert_eq!(app.run_commands.len(), 2);
}

fn quick_names(v: &[QuickMessages]) -> Vec<String> {
    v.iter()
        .map(|q| match q {
            QuickMessages::Ping(d) => format!("ping {d}"),
            QuickMessages::FindMyPhone(d) => format!("ring {d}"),
            QuickMessages::ShareCliphboard(d) => format!("clip {d}"),
            QuickMessages::SMS(d) => format!("sms {d}"),
            QuickMessages::SendFiles(d) => format!("files {d}"),
            QuickMessages::BrowseDevice(d) => format!("browse {d}"),
            QuickMessages::UmountDevice(d) => format!("umount {d}"),
        })
        .collect()
}

#[test]
fn quick_action_buttons_follow_plugins() {
    let mut app = SettingsApp::new();
    let mut d = device("p", "Pixel", true, true);
    assert_eq!(
        quick_names(&app.quick_action_buttons(&d)),
        vec!["ping p", "ring p", "clip p", "sms p", "files p", "browse p"]
    );
    app.update(Message::DevicesLoaded(vec![device("p", "Pixel", true, true)]));
    app.update(Message::TogglePlugin("findmyphone".into(), false));
    app.update(Message::TogglePlugin("share".into(), false));
    assert_eq!(
        quick_names(&app.quick_action_buttons(&d)),
        vec!["ping p", "clip p", "sms p"]
    );
    app.update(Message::TogglePlugin("share".into(), true));
    d.is_mounted = true;
    assert_eq!(
        quick_names(&app.quick_action_buttons(&d)),
        vec!["ping p", "clip p", "sms p", "files p", "umount p"]
    );
}

#[test]
fn plugin_panel_of_selected_device() {
    let mut app = SettingsApp::new();
    assert!(app.plugin_panel().is_none());
    app.update(Message::DevicesLoaded(vec![
        device("a", "A", false, true),
        device("p", "Pixel", true, true),
    ]));
    app.update(Message::TogglePlugin("runcommand".into(), false));
    let panel = app.plugin_panel().expect("a panel");
    assert_eq!(panel.device, 1);
    assert!(panel.show_unpair);
    assert!(!panel.show_commands_entry);
    assert_eq!(panel.quick_actions.len(), 6);
    assert_eq!(panel.toggles.len(), 13);
    assert_eq!(panel.toggles[8], ("runcommand".to_string(), false));
    assert_eq!(panel.toggles[0], ("battery".to_string(), true));
    app.update(Message::TogglePlugin("runcommand".into(), true));
    assert!(app.plugin_panel().unwrap().show_commands_entry);
    app.on_nav_select(Some(Tab::DeviceProfile("a".to_string())));
    let panel = app.plugin_panel().expect("a panel");
    assert_eq!(panel.device, 0);
    assert!(!panel.show_unpair);
    assert!(!panel.show_commands_entry);
    assert!(panel.toggles.is_empty());
    app.on_nav_select(Some(Tab::DeviceProfile("gone".to_string())));
    assert!(app.plugin_panel().is_none());
}

#[test]
fn command_rows_default_to_empty_text() {
    let mut app = SettingsApp::new();
    let cmd = JsonValue::Object(vec![
        ("id".to_string(), JsonValue::Str("1".to_string())),
        ("name".to_string(), JsonValue::Str("Lock".to_string())),
        ("command".to_string(), JsonValue::Str("loginctl lock-session".to_string())),
    ]);
    let partial = JsonValue::Object(vec![("name".to_string(), JsonValue::Number("3".to_string()))]);
    app.update(Message::RunCommandsLoaded(vec![cmd, partial, JsonValue::Null]));
    let rows = app.command_rows();
    let s = |a: &str, b: &str, c: &str| (a.to_string(), b.to_string(), c.to_string());
    assert_eq!(
        rows,
        vec![s("Lock", "loginctl lock-session", "1"), s("", "", ""), s("", "", "")]
    );
}

#[test]
fn commands_saved_whenever_edited() {
    let mut app = SettingsApp::new();
    app.update(Message::NewRunCommandName("Hi".into()));
    app.update(Message::NewRunCommandCommand("echo hi".into()));
    assert!(app.run_commands.is_empty());
    let t = app.add_run_command("x".into());
    assert_eq!(task_names(&t)[0], "save");
    let before = app.run_commands.len();
    app.update(Message::Refresh);
    app.update(Message::OpenCommandsTab);
    assert_eq!(app.run_commands.len(), before);
    let t = app.update(Message::DeleteRunCommand("x".into()));
    assert_eq!(task_names(&t)[0], "save");
    assert!(app.run_commands.is_empty());
}

#[test]
fn pair_button_offered_unless_pairing() {
    let mut app = SettingsApp::new();
    app.update(Message::DevicesLoaded(vec![device("x", "X", false, true), device("y", "Y", false, true)]));
    assert!(app.pair_offered(0));
    app.update(Message::PairDevice("x".to_string()));
    assert!(!app.pair_offered(0));
    assert!(app.pair_offered(1));
}

#[test]
fn new_command_ids_have_uuid_form() {
    let mut app = SettingsApp::new();
    app.update(Message::NewRunCommandName("A".into()));
    app.update(Message::NewRunCommandCommand("true".into()));
    app.update(Message::AddRunCommand);
    let id = command_id(&app.run_commands[0]).unwrap().to_string();
    let c: Vec<char> = id.chars().collect();
    assert_eq!(c.len(), 36);
    for (i, ch) in c.iter().enumerate() {
        if [8, 13, 18, 23].contains(&i) {
            assert_eq!(*ch, '-');
        } else {
            assert!(ch.is_ascii_digit() || ('a'..='f').contains(ch));
        }
    }
    assert_eq!(c[14], '4');
    assert!("89ab".contains(c[19]));
}
