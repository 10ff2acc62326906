//! The settings window: which devices are listed and selected, which
//! plugins are enabled per device, and the desktop commands offered to the
//! phone. `update` decides, for each message, the next state and the work
//! to be done outside (D-Bus calls, launching programs, saving settings).

use crate::device::{
    any_paired_with_id, find_device, find_first_paired, first_paired, first_with_id, has_paired,
    paired_ids, Device,
};
use crate::json::{json_get, JsonValue};
use crate::strmap::StrMap;
use crate::text::{chars_of, string_of, trim, trim_chars};
use vstd::prelude::*;

verus! {

broadcast use vstd::string::group_string_axioms;

// ---------------------------------------------------------------------------
// Plugins
// ---------------------------------------------------------------------------

/// A plugin the settings window lists. Its name and description are
/// message keys of the translation catalogue.
pub struct PluginInfo {
    pub id: &'static str,
    pub name_key: &'static str,
    pub description_key: &'static str,
    pub icon: &'static str,
}

pub struct PluginSpec {
    pub id: Seq<char>,
    pub name_key: Seq<char>,
    pub description_key: Seq<char>,
    pub icon: Seq<char>,
}

/// The implemented plugins, in the order the window lists them.
pub open spec fn plugin_catalog() -> Seq<PluginSpec> {
    seq![
        PluginSpec { id: "battery"@, name_key: "plugin-battery-name"@, description_key: "plugin-battery-desc"@, icon: "battery-symbolic"@ },
        PluginSpec { id: "clipboard"@, name_key: "plugin-clipboard-name"@, description_key: "plugin-clipboard-desc"@, icon: "edit-paste-symbolic"@ },
        PluginSpec { id: "connectivity_report"@, name_key: "plugin-connectivity-name"@, description_key: "plugin-connectivity-desc"@, icon: "network-cellular-symbolic"@ },
        PluginSpec { id: "contacts"@, name_key: "plugin-contacts-name"@, description_key: "plugin-contacts-desc"@, icon: "x-office-address-book-symbolic"@ },
        PluginSpec { id: "findmyphone"@, name_key: "plugin-findmyphone-name"@, description_key: "plugin-findmyphone-desc"@, icon: "audio-speakers-symbolic"@ },
        PluginSpec { id: "mpris"@, name_key: "plugin-mpris-name"@, description_key: "plugin-mpris-desc"@, icon: "media-playback-start-symbolic"@ },
        PluginSpec { id: "notification"@, name_key: "plugin-notifications-name"@, description_key: "plugin-notifications-desc"@, icon: "preferences-system-notifications-symbolic"@ },
        PluginSpec { id: "ping"@, name_key: "plugin-ping-name"@, description_key: "plugin-ping-desc"@, icon: "network-transmit-receive-symbolic"@ },
        PluginSpec { id: "runcommand"@, name_key: "plugin-runcommand-name"@, description_key: "plugin-runcommand-desc"@, icon: "utilities-terminal-symbolic"@ },
        PluginSpec { id: "share"@, name_key: "plugin-share-name"@, description_key: "plugin-share-desc"@, icon: "document-send-symbolic"@ },
        PluginSpec { id: "sms"@, name_key: "plugin-sms-name"@, description_key: "plugin-sms-desc"@, icon: "mail-message-new-symbolic"@ },
        PluginSpec { id: "systemvolume"@, name_key: "plugin-systemvolume-name"@, description_key: "plugin-systemvolume-desc"@, icon: "audio-volume-high-symbolic"@ },
        PluginSpec { id: "telephony"@, name_key: "plugin-telephony-name"@, description_key: "plugin-telephony-desc"@, icon: "phone-symbolic"@ }
    ]
}

pub open spec fn plugin_ids() -> Seq<Seq<char>> {
    plugin_catalog().map_values(|p: PluginSpec| p.id)
}

/// The implemented plugins.
pub fn implemented_plugins() -> (v: Vec<PluginInfo>)
    ensures
        v@.len() == plugin_catalog().len(),
        forall|i: int|
            0 <= i < v@.len() ==> {
                &&& (#[trigger] v@[i]).id@ == plugin_catalog()[i].id
                &&& v@[i].name_key@ == plugin_catalog()[i].name_key
                &&& v@[i].description_key@ == plugin_catalog()[i].description_key
                &&& v@[i].icon@ == plugin_catalog()[i].icon
            },
{
    let mut v: Vec<PluginInfo> = Vec::new();
    v.push(PluginInfo { id: "battery", name_key: "plugin-battery-name", description_key: "plugin-battery-desc", icon: "battery-symbolic" });
    v.push(PluginInfo { id: "clipboard", name_key: "plugin-clipboard-name", description_key: "plugin-clipboard-desc", icon: "edit-paste-symbolic" });
    v.push(PluginInfo { id: "connectivity_report", name_key: "plugin-connectivity-name", description_key: "plugin-connectivity-desc", icon: "network-cellular-symbolic" });
    v.push(PluginInfo { id: "contacts", name_key: "plugin-contacts-name", description_key: "plugin-contacts-desc", icon: "x-office-address-book-symbolic" });
    v.push(PluginInfo { id: "findmyphone", name_key: "plugin-findmyphone-name", description_key: "plugin-findmyphone-desc", icon: "audio-speakers-symbolic" });
    v.push(PluginInfo { id: "mpris", name_key: "plugin-mpris-name", description_key: "plugin-mpris-desc", icon: "media-playback-start-symbolic" });
    v.push(PluginInfo { id: "notification", name_key: "plugin-notifications-name", description_key: "plugin-notifications-desc", icon: "preferences-system-notifications-symbolic" });
    v.push(PluginInfo { id: "ping", name_key: "plugin-ping-name", description_key: "plugin-ping-desc", icon: "network-transmit-receive-symbolic" });
    v.push(PluginInfo { id: "runcommand", name_key: "plugin-runcommand-name", description_key: "plugin-runcommand-desc", icon: "utilities-terminal-symbolic" });
    v.push(PluginInfo { id: "share", name_key: "plugin-share-name", description_key: "plugin-share-desc", icon: "document-send-symbolic" });
    v.push(PluginInfo { id: "sms", name_key: "plugin-sms-name", description_key: "plugin-sms-desc", icon: "mail-message-new-symbolic" });
    v.push(PluginInfo { id: "systemvolume", name_key: "plugin-systemvolume-name", description_key: "plugin-systemvolume-desc", icon: "audio-volume-high-symbolic" });
    v.push(PluginInfo { id: "telephony", name_key: "plugin-telephony-name", description_key: "plugin-telephony-desc", icon: "phone-symbolic" });
    v
}

/// Each of `ids` mapped to `value`, later ids over earlier ones.
pub open spec fn all_set(m: Map<Seq<char>, bool>, ids: Seq<Seq<char>>, value: bool) -> Map<Seq<char>, bool>
    decreases ids.len(),
{
    if ids.len() == 0 {
        m
    } else {
        all_set(m, ids.drop_last(), value).insert(ids.last(), value)
    }
}

/// Every implemented plugin enabled.
pub open spec fn default_plugins() -> Map<Seq<char>, bool> {
    all_set(Map::empty(), plugin_ids(), true)
}

pub open spec fn plugins_view(ps: StrMap<StrMap<bool>>) -> Map<Seq<char>, Map<Seq<char>, bool>> {
    ps@.map_values(|m: StrMap<bool>| m@)
}

pub open spec fn strings_view(v: Seq<String>) -> Seq<Seq<char>> {
    v.map_values(|s: String| s@)
}

/// A map with every implemented plugin enabled.
pub fn default_plugin_map() -> (r: StrMap<bool>)
    ensures
        r@ == default_plugins(),
{
    let plugins = implemented_plugins();
    let mut r: StrMap<bool> = StrMap::new();
    let mut i: usize = 0;
    while i < plugins.len()
        invariant
            i <= plugins@.len(),
            plugins@.len() == plugin_catalog().len(),
            forall|k: int| 0 <= k < plugins@.len() ==> (#[trigger] plugins@[k]).id@ == plugin_ids()[k],
            r@ == all_set(Map::empty(), plugin_ids().take(i as int), true),
        decreases plugins.len() - i,
    {
        proof {
            assert(plugin_ids().take(i + 1).drop_last() =~= plugin_ids().take(i as int));
        }
        r.insert(plugins[i].id.to_string(), true);
        i += 1;
    }
    assert(plugin_ids().take(i as int) =~= plugin_ids());
    r
}

// ---------------------------------------------------------------------------
// Tabs, messages and tasks
// ---------------------------------------------------------------------------

pub enum Tab {
    AvailableDevices,
    DeviceProfile(String),
    Commands,
    AddCommand,
}

pub enum TabView {
    AvailableDevices,
    DeviceProfile(Seq<char>),
    Commands,
    AddCommand,
}

impl View for Tab {
    type V = TabView;

    open spec fn view(&self) -> TabView {
        match self {
            Tab::AvailableDevices => TabView::AvailableDevices,
            Tab::DeviceProfile(id) => TabView::DeviceProfile(id@),
            Tab::Commands => TabView::Commands,
            Tab::AddCommand => TabView::AddCommand,
        }
    }
}

pub enum QuickMessages {
    Ping(String),
    FindMyPhone(String),
    ShareCliphboard(String),
    SMS(String),
    SendFiles(String),
    BrowseDevice(String),
    UmountDevice(String),
}

/// The events of the background service that the applet and the settings
/// window hear of.
pub enum ServiceEvent {
    DeviceConnected(String),
    DeviceDisconnected(String),
    DevicePaired(String),
    /// A device asks to pair: (device id, device name).
    PairingRequested(String, String),
    ClipboardReceived(String),
    /// (device id, battery level, charging)
    BatteryReceived(String, i32, bool),
    /// (device id, signal strength)
    ConnectivityReceived(String, i32),
    /// The commands a device offers, as the JSON it sent (`Null` when the
    /// text was not JSON).
    RunCommandListReceived(String, JsonValue),
    /// Any other event (SMS, notifications, ...).
    Other,
}

/// Whether an event changes the device list: a device connected,
/// disconnected or paired.
pub open spec fn is_device_change(e: ServiceEvent) -> bool {
    e is DeviceConnected || e is DeviceDisconnected || e is DevicePaired
}

pub enum Message {
    DevicesLoaded(Vec<Device>),
    /// Persisted plugin states of a device: (device id, disabled plugin ids).
    PluginStatesLoaded(String, Vec<String>),
    TogglePlugin(String, bool),
    Refresh,
    PairDevice(String),
    UnpairDevice(String),
    ServiceEvent(ServiceEvent),
    RunQuickAction(QuickMessages),
    BrowseDeviceFailed(String),
    OpenDeviceProfile,
    OpenCommandsTab,
    OpenCommandAddTab,
    RunCommandsLoaded(Vec<JsonValue>),
    NewRunCommandName(String),
    NewRunCommandCommand(String),
    AddRunCommand,
    DeleteRunCommand(String),
    DismissError,
}

/// Work for the outside world that a message leads to.
pub enum SettingsTask {
    /// Fetch the device list; answered by `DevicesLoaded`.
    FetchDevices,
    /// Read the persisted plugin states; answered by `PluginStatesLoaded`.
    LoadPluginStates(String),
    /// Persist a plugin toggle, then `Refresh`.
    SetPluginEnabled(String, String, bool),
    /// Pair, then fetch the device list.
    PairDevice(String),
    /// Unpair, then fetch the device list.
    UnpairDevice(String),
    PingDevice(String),
    RingDevice(String),
    ShareClipboard(String),
    /// Start the SMS window for a device: (device id, device name).
    LaunchSms(String, String),
    SendFiles(String),
    /// Mount or unmount the device's file system; a failure is answered by
    /// `BrowseDeviceFailed`.
    BrowseDevice(String),
    /// Save the desktop commands.
    SaveRunCommands,
    /// Offer the desktop commands to a device.
    PushLocalCommands(String),
}

pub enum TaskView {
    FetchDevices,
    LoadPluginStates(Seq<char>),
    SetPluginEnabled(Seq<char>, Seq<char>, bool),
    PairDevice(Seq<char>),
    UnpairDevice(Seq<char>),
    PingDevice(Seq<char>),
    RingDevice(Seq<char>),
    ShareClipboard(Seq<char>),
    LaunchSms(Seq<char>, Seq<char>),
    SendFiles(Seq<char>),
    BrowseDevice(Seq<char>),
    SaveRunCommands,
    PushLocalCommands(Seq<char>),
}

impl View for SettingsTask {
    type V = TaskView;

    open spec fn view(&self) -> TaskView {
        match self {
            SettingsTask::FetchDevices => TaskView::FetchDevices,
            SettingsTask::LoadPluginStates(d) => TaskView::LoadPluginStates(d@),
            SettingsTask::SetPluginEnabled(d, p, e) => TaskView::SetPluginEnabled(d@, p@, *e),
            SettingsTask::PairDevice(d) => TaskView::PairDevice(d@),
            SettingsTask::UnpairDevice(d) => TaskView::UnpairDevice(d@),
            SettingsTask::PingDevice(d) => TaskView::PingDevice(d@),
            SettingsTask::RingDevice(d) => TaskView::RingDevice(d@),
            SettingsTask::ShareClipboard(d) => TaskView::ShareClipboard(d@),
            SettingsTask::LaunchSms(d, n) => TaskView::LaunchSms(d@, n@),
            SettingsTask::SendFiles(d) => TaskView::SendFiles(d@),
            SettingsTask::BrowseDevice(d) => TaskView::BrowseDevice(d@),
            SettingsTask::SaveRunCommands => TaskView::SaveRunCommands,
            SettingsTask::PushLocalCommands(d) => TaskView::PushLocalCommands(d@),
        }
    }
}

pub open spec fn tasks_view(v: Seq<SettingsTask>) -> Seq<TaskView> {
    v.map_values(|t: SettingsTask| t@)
}

// ---------------------------------------------------------------------------
// State
// ---------------------------------------------------------------------------

pub struct SettingsApp {
    pub active_tab: Tab,
    pub devices: Vec<Device>,
    pub selected_device: Option<String>,
    /// device id -> (plugin id -> enabled)
    pub plugin_states: StrMap<StrMap<bool>>,
    pub pairing_in_progress: StrMap<bool>,
    /// Desktop commands offered to the phone, as JSON objects with `id`,
    /// `name` and `command`.
    pub run_commands: Vec<JsonValue>,
    pub new_cmd_name: String,
    pub new_cmd_command: String,
    pub message_banner: Option<String>,
}

pub struct SettingsView {
    pub tab: TabView,
    pub devices: Seq<Device>,
    pub selected: Option<Seq<char>>,
    pub plugins: Map<Seq<char>, Map<Seq<char>, bool>>,
    pub pairing: Map<Seq<char>, bool>,
    pub run_commands: Seq<JsonValue>,
    pub new_cmd_name: Seq<char>,
    pub new_cmd_command: Seq<char>,
    pub banner: Option<Seq<char>>,
}

pub open spec fn opt_view(o: Option<String>) -> Option<Seq<char>> {
    match o {
        Some(s) => Some(s@),
        None => None,
    }
}

impl View for SettingsApp {
    type V = SettingsView;

    open spec fn view(&self) -> SettingsView {
        SettingsView {
            tab: self.active_tab@,
            devices: self.devices@,
            selected: opt_view(self.selected_device),
            plugins: plugins_view(self.plugin_states),
            pairing: self.pairing_in_progress@,
            run_commands: self.run_commands@,
            new_cmd_name: self.new_cmd_name@,
            new_cmd_command: self.new_cmd_command@,
            banner: opt_view(self.message_banner),
        }
    }
}

// ---------------------------------------------------------------------------
// The transition relation
// ---------------------------------------------------------------------------

/// Whether a plugin is enabled on the selected device: as its state says,
/// and enabled when no state is known.
pub open spec fn plugin_enabled_in(v: SettingsView, plugin_id: Seq<char>) -> bool {
    match v.selected {
        Some(d) => if v.plugins.contains_key(d) && v.plugins[d].contains_key(plugin_id) {
            v.plugins[d][plugin_id]
        } else {
            true
        },
        None => true,
    }
}

/// The plugin states of a device as persisted: every plugin enabled but
/// the ones listed.
pub open spec fn with_disabled(disabled: Seq<Seq<char>>) -> Map<Seq<char>, bool> {
    all_set(default_plugins(), disabled, false)
}

/// A desktop command as stored: a JSON object with `id`, `name` and
/// `command`.
pub open spec fn is_command_json(v: JsonValue, id: Seq<char>, name: Seq<char>, command: Seq<char>) -> bool {
    match v {
        JsonValue::Object(members) => {
            &&& members@.len() == 3
            &&& members@[0].0@ == "id"@
            &&& (members@[0].1 matches JsonValue::Str(s) && s@ == id)
            &&& members@[1].0@ == "name"@
            &&& (members@[1].1 matches JsonValue::Str(s) && s@ == name)
            &&& members@[2].0@ == "command"@
            &&& (members@[2].1 matches JsonValue::Str(s) && s@ == command)
        },
        _ => false,
    }
}

/// Whether a stored command has the id `id` (a string member `id`).
pub open spec fn command_has_id(v: JsonValue, id: Seq<char>) -> bool {
    json_get(v, "id"@) matches Some(JsonValue::Str(s)) && s@ == id
}

/// The commands without those with the id `id`.
pub open spec fn commands_without(cmds: Seq<JsonValue>, id: Seq<char>) -> Seq<JsonValue>
    decreases cmds.len(),
{
    if cmds.len() == 0 {
        Seq::empty()
    } else {
        let rest = commands_without(cmds.drop_last(), id);
        if command_has_id(cmds.last(), id) {
            rest
        } else {
            rest.push(cmds.last())
        }
    }
}

/// The task of pushing the commands to the selected device, if any.
pub open spec fn push_to_selected(s: SettingsView) -> Seq<TaskView> {
    match s.selected {
        Some(d) => seq![TaskView::PushLocalCommands(d)],
        None => Seq::empty(),
    }
}

/// What `AddRunCommand` does when the new command gets the id `id`.
pub open spec fn add_command_step(s: SettingsView, n: SettingsView, tasks: Seq<TaskView>, id: Seq<char>) -> bool {
    let name = trim(s.new_cmd_name);
    let command = trim(s.new_cmd_command);
    if name.len() > 0 && command.len() > 0 {
        &&& n.run_commands.len() == s.run_commands.len() + 1
        &&& n.run_commands.take(s.run_commands.len() as int) == s.run_commands
        &&& is_command_json(n.run_commands.last(), id, name, command)
        &&& n == SettingsView {
            run_commands: n.run_commands,
            new_cmd_name: Seq::empty(),
            new_cmd_command: Seq::empty(),
            tab: TabView::Commands,
            ..s
        }
        &&& tasks == seq![TaskView::SaveRunCommands] + push_to_selected(s)
    } else {
        n == s && tasks == Seq::<TaskView>::empty()
    }
}

/// The tasks of a quick action.
pub open spec fn quick_action_tasks(s: SettingsView, q: QuickMessages) -> Seq<TaskView> {
    match q {
        QuickMessages::Ping(id) => seq![TaskView::PingDevice(id@)],
        QuickMessages::FindMyPhone(id) => seq![TaskView::RingDevice(id@)],
        QuickMessages::ShareCliphboard(id) => seq![TaskView::ShareClipboard(id@)],
        QuickMessages::SMS(id) => match first_with_id(s.devices, id@) {
            Some(i) => seq![TaskView::LaunchSms(id@, s.devices[i].name@)],
            None => Seq::empty(),
        },
        QuickMessages::SendFiles(id) => seq![TaskView::SendFiles(id@)],
        QuickMessages::BrowseDevice(id) => seq![TaskView::BrowseDevice(id@)],
        QuickMessages::UmountDevice(id) => seq![TaskView::BrowseDevice(id@)],
    }
}

/// What a message does: `n` is the state after it, `tasks` the work it
/// asks for, `id` the id a new desktop command gets.
pub open spec fn settings_step(
    s: SettingsView,
    msg: Message,
    n: SettingsView,
    tasks: Seq<TaskView>,
    id: Seq<char>,
) -> bool {
    match msg {
        Message::DevicesLoaded(devs) => {
            let d = devs@;
            let kept = s.selected matches Some(sel) && has_paired(d, sel);
            let plugins = match s.selected {
                Some(sel) => if kept {
                    s.plugins
                } else {
                    s.plugins.remove(sel)
                },
                None => s.plugins,
            };
            let selected = if kept {
                s.selected
            } else {
                match first_paired(d) {
                    Some(i) => Some(d[i].id@),
                    None => None,
                }
            };
            &&& n == SettingsView {
                devices: d,
                selected,
                plugins,
                pairing: s.pairing.remove_keys(paired_ids(d)),
                ..s
            }
            &&& tasks == Seq::<TaskView>::empty()
        },
        Message::PluginStatesLoaded(did, disabled) => {
            &&& n == SettingsView {
                plugins: s.plugins.insert(did@, with_disabled(strings_view(disabled@))),
                ..s
            }
            &&& tasks == Seq::<TaskView>::empty()
        },
        Message::TogglePlugin(pid, enabled) => match s.selected {
            Some(d) => {
                let current = if s.plugins.contains_key(d) {
                    s.plugins[d]
                } else {
                    default_plugins()
                };
                &&& n == SettingsView { plugins: s.plugins.insert(d, current.insert(pid@, enabled)), ..s }
                &&& tasks == seq![TaskView::SetPluginEnabled(d, pid@, enabled)]
            },
            None => n == s && tasks == Seq::<TaskView>::empty(),
        },
        Message::Refresh => n == s && tasks == seq![TaskView::FetchDevices],
        Message::PairDevice(did) => {
            &&& n == SettingsView { pairing: s.pairing.insert(did@, true), ..s }
            &&& tasks == seq![TaskView::PairDevice(did@)]
        },
        Message::UnpairDevice(did) => {
            &&& n == SettingsView {
                selected: if s.selected == Some(did@) {
                    None
                } else {
                    s.selected
                },
                plugins: s.plugins.remove(did@),
                ..s
            }
            &&& tasks == seq![TaskView::UnpairDevice(did@)]
        },
        Message::ServiceEvent(e) => {
            &&& n == s
            &&& tasks == if is_device_change(e) {
                seq![TaskView::FetchDevices]
            } else {
                Seq::<TaskView>::empty()
            }
        },
        Message::RunQuickAction(q) => n == s && tasks == quick_action_tasks(s, q),
        Message::BrowseDeviceFailed(f) => {
            &&& n == SettingsView { banner: Some(f@), ..s }
            &&& tasks == Seq::<TaskView>::empty()
        },
        Message::OpenDeviceProfile => {
            &&& n == match s.selected {
                Some(d) => SettingsView { tab: TabView::DeviceProfile(d), ..s },
                None => s,
            }
            &&& tasks == Seq::<TaskView>::empty()
        },
        Message::OpenCommandsTab => n == SettingsView { tab: TabView::Commands, ..s } && tasks
            == Seq::<TaskView>::empty(),
        Message::OpenCommandAddTab => n == SettingsView { tab: TabView::AddCommand, ..s } && tasks
            == Seq::<TaskView>::empty(),
        Message::RunCommandsLoaded(cmds) => n == SettingsView { run_commands: cmds@, ..s } && tasks
            == Seq::<TaskView>::empty(),
        Message::NewRunCommandName(x) => n == SettingsView { new_cmd_name: x@, ..s } && tasks
            == Seq::<TaskView>::empty(),
        Message::NewRunCommandCommand(x) => n == SettingsView { new_cmd_command: x@, ..s } && tasks
            == Seq::<TaskView>::empty(),
        Message::AddRunCommand => add_command_step(s, n, tasks, id),
        Message::DeleteRunCommand(cid) => {
            &&& n == SettingsView { run_commands: commands_without(s.run_commands, cid@), ..s }
            &&& tasks == seq![TaskView::SaveRunCommands] + push_to_selected(s)
        },
        Message::DismissError => n == SettingsView { banner: None, ..s } && tasks == Seq::<
            TaskView,
        >::empty(),
    }
}

// ---------------------------------------------------------------------------
// Transitions
// ---------------------------------------------------------------------------

/// A lower-case hexadecimal digit.
pub open spec fn is_lower_hex(c: char) -> bool {
    (48 <= (c as u32) <= 57) || (97 <= (c as u32) <= 102)
}

/// The text of a random (version 4) UUID in its hyphenated lower-case form:
/// 36 characters, hyphens at 8, 13, 18 and 23, lower-case hex digits
/// elsewhere, the version digit `4` at 14 and a variant digit `8`, `9`,
/// `a` or `b` at 19.
pub open spec fn is_uuid_v4_text(s: Seq<char>) -> bool {
    &&& s.len() == 36
    &&& forall|i: int|
        0 <= i < 36 ==> if i == 8 || i == 13 || i == 18 || i == 23 {
            #[trigger] s[i] == '-'
        } else {
            is_lower_hex(s[i])
        }
    &&& s[14] == '4'
    &&& (s[19] == '8' || s[19] == '9' || s[19] == 'a' || s[19] == 'b')
}

/// Calls `uuid::Uuid::new_v4` and writes it out with `to_string`. Trusted:
/// the text has the hyphenated lower-case form of a version 4 UUID (uuid's
/// `Display` writes the hyphenated lower-case form, and `new_v4` sets the
/// version and variant bits); the random digits are not stated.
#[verifier::external_body]
fn new_command_id() -> (r: String)
    ensures
        is_uuid_v4_text(r@),
{
    uuid::Uuid::new_v4().to_string()
}

proof fn lemma_plugins_remove(ps: Map<Seq<char>, StrMap<bool>>, k: Seq<char>)
    ensures
        ps.remove(k).map_values(|m: StrMap<bool>| m@) == ps.map_values(|m: StrMap<bool>| m@).remove(
            k,
        ),
{
    assert(ps.remove(k).map_values(|m: StrMap<bool>| m@) =~= ps.map_values(
        |m: StrMap<bool>| m@,
    ).remove(k));
}

proof fn lemma_plugins_insert(ps: Map<Seq<char>, StrMap<bool>>, k: Seq<char>, v: StrMap<bool>)
    ensures
        ps.insert(k, v).map_values(|m: StrMap<bool>| m@) == ps.map_values(
            |m: StrMap<bool>| m@,
        ).insert(k, v@),
{
    assert(ps.insert(k, v).map_values(|m: StrMap<bool>| m@) =~= ps.map_values(
        |m: StrMap<bool>| m@,
    ).insert(k, v@));
}

proof fn lemma_paired_ids_step(d: Seq<Device>, i: int)
    requires
        0 <= i < d.len(),
    ensures
        paired_ids(d.take(i + 1)) == if d[i].is_paired {
            paired_ids(d.take(i)).insert(d[i].id@)
        } else {
            paired_ids(d.take(i))
        },
{
    let a = d.take(i + 1);
    let b = d.take(i);
    assert forall|k: Seq<char>| has_paired(a, k) == (has_paired(b, k) || (d[i].is_paired && d[i].id@
        == k)) by {
        if has_paired(a, k) {
            let j = choose|j: int| 0 <= j < a.len() && a[j].id@ == k && a[j].is_paired;
            if j < i {
                assert(b[j] == a[j]);
            }
        }
        if has_paired(b, k) {
            let j = choose|j: int| 0 <= j < b.len() && b[j].id@ == k && b[j].is_paired;
            assert(a[j] == b[j]);
        }
        if d[i].is_paired && d[i].id@ == k {
            assert(a[i] == d[i]);
        }
    }
    if d[i].is_paired {
        assert(paired_ids(a) =~= paired_ids(b).insert(d[i].id@));
    } else {
        assert(paired_ids(a) =~= paired_ids(b));
    }
}

fn clone_opt(o: &Option<String>) -> (r: Option<String>)
    ensures
        opt_view(r) == opt_view(*o),
{
    match o {
        Some(s) => Some(s.clone()),
        None => None,
    }
}

impl SettingsApp {
    /// The state the window opens with: the device list tab, nothing known yet.
    pub fn new() -> (r: Self)
        ensures
            r@ == (SettingsView {
                tab: TabView::AvailableDevices,
                devices: Seq::empty(),
                selected: None,
                plugins: Map::empty(),
                pairing: Map::empty(),
                run_commands: Seq::empty(),
                new_cmd_name: Seq::empty(),
                new_cmd_command: Seq::empty(),
                banner: None,
            }),
    {
        let r = SettingsApp {
            active_tab: Tab::AvailableDevices,
            devices: Vec::new(),
            selected_device: None,
            plugin_states: StrMap::new(),
            pairing_in_progress: StrMap::new(),
            run_commands: Vec::new(),
            new_cmd_name: String::new(),
            new_cmd_command: String::new(),
            message_banner: None,
        };
        assert(plugins_view(r.plugin_states) =~= Map::empty());
        r
    }

    /// Whether a plugin is enabled on the selected device; a plugin counts
    /// as enabled unless its state says otherwise.
    pub fn plugin_enabled(&self, plugin_id: &str) -> (r: bool)
        ensures
            r == plugin_enabled_in(self@, plugin_id@),
    {
        match &self.selected_device {
            Some(did) => match self.plugin_states.get(did.as_str()) {
                Some(map) => match map.get(plugin_id) {
                    Some(b) => *b,
                    None => true,
                },
                None => true,
            },
            None => true,
        }
    }

    fn devices_loaded(&mut self, devices: Vec<Device>) -> (r: Vec<SettingsTask>)
        ensures
            settings_step(
                old(self)@,
                Message::DevicesLoaded(devices),
                final(self)@,
                tasks_view(r@),
                Seq::empty(),
            ),
    {
        let ghost s = self@;
        let ghost d = devices@;
        match clone_opt(&self.selected_device) {
            Some(sel) => {
                if !any_paired_with_id(&devices, sel.as_str()) {
                    let ghost before = self.plugin_states@;
                    self.plugin_states.remove(sel.as_str());
                    proof {
                        lemma_plugins_remove(before, sel@);
                    }
                    self.selected_device = None;
                }
            },
            None => {},
        }
        if self.selected_device.is_none() {
            match find_first_paired(&devices) {
                Some(i) => {
                    let id = devices[i].id.clone();
                    assert(id@ == d[i as int].id@);
                    self.selected_device = Some(id);
                },
                None => {},
            }
        }
        let mut pairing: StrMap<bool> = StrMap::new();
        std::mem::swap(&mut pairing, &mut self.pairing_in_progress);
        let ghost base = pairing@;
        assert(base == s.pairing);
        assert(d.take(0) =~= Seq::<Device>::empty());
        assert(base.remove_keys(paired_ids(d.take(0))) =~= base);
        let mut i: usize = 0;
        while i < devices.len()
            invariant
                i <= devices@.len(),
                d == devices@,
                pairing@ == base.remove_keys(paired_ids(d.take(i as int))),
            decreases devices.len() - i,
        {
            proof {
                lemma_paired_ids_step(d, i as int);
            }
            if devices[i].is_paired {
                pairing.remove(devices[i].id.as_str());
                assert(pairing@ =~= base.remove_keys(paired_ids(d.take(i + 1))));
            }
            i += 1;
        }
        self.pairing_in_progress = pairing;
        assert(d.take(i as int) =~= d);
        self.devices = devices;
        let r: Vec<SettingsTask> = Vec::new();
        assert(tasks_view(r@) =~= Seq::<TaskView>::empty());
        r
    }

    fn plugin_states_loaded(&mut self, device_id: String, disabled: Vec<String>) -> (r: Vec<
        SettingsTask,
    >)
        ensures
            settings_step(
                old(self)@,
                Message::PluginStatesLoaded(device_id, disabled),
                final(self)@,
                tasks_view(r@),
                Seq::empty(),
            ),
    {
        let ghost dv = strings_view(disabled@);
        let mut map = default_plugin_map();
        let mut i: usize = 0;
        assert(dv.take(0) =~= Seq::<Seq<char>>::empty());
        while i < disabled.len()
            invariant
                i <= disabled@.len(),
                dv == strings_view(disabled@),
                map@ == all_set(default_plugins(), dv.take(i as int), false),
            decreases disabled.len() - i,
        {
            proof {
                assert(dv.take(i + 1).drop_last() =~= dv.take(i as int));
            }
            map.insert(disabled[i].clone(), false);
            i += 1;
        }
        assert(dv.take(i as int) =~= dv);
        let ghost before = self.plugin_states@;
        self.plugin_states.insert(device_id, map);
        proof {
            lemma_plugins_insert(before, device_id@, map);
        }
        let r: Vec<SettingsTask> = Vec::new();
        assert(tasks_view(r@) =~= Seq::<TaskView>::empty());
        r
    }

    fn toggle_plugin(&mut self, plugin_id: String, enabled: bool) -> (r: Vec<SettingsTask>)
        ensures
            settings_step(
                old(self)@,
                Message::TogglePlugin(plugin_id, enabled),
                final(self)@,
                tasks_view(r@),
                Seq::empty(),
            ),
    {
        let mut r: Vec<SettingsTask> = Vec::new();
        match clone_opt(&self.selected_device) {
            Some(did) => {
                let ghost before = self.plugin_states@;
                let removed = self.plugin_states.remove(did.as_str());
                let mut inner = match removed {
                    Some(m) => m,
                    None => default_plugin_map(),
                };
                inner.insert(plugin_id.clone(), enabled);
                let ghost mid = self.plugin_states@;
                self.plugin_states.insert(did.clone(), inner);
                proof {
                    assert(self.plugin_states@ =~= before.insert(did@, inner));
                    lemma_plugins_insert(before, did@, inner);
                }
                r.push(SettingsTask::SetPluginEnabled(did, plugin_id, enabled));
                assert(tasks_view(r@) =~= seq![TaskView::SetPluginEnabled(did@, plugin_id@, enabled)]);
            },
            None => {
                assert(tasks_view(r@) =~= Seq::<TaskView>::empty());
            },
        }
        r
    }

    fn quick_action(&mut self, q: QuickMessages) -> (r: Vec<SettingsTask>)
        ensures
            settings_step(
                old(self)@,
                Message::RunQuickAction(q),
                final(self)@,
                tasks_view(r@),
                Seq::empty(),
            ),
    {
        let ghost s = self@;
        let ghost gq = q;
        let mut r: Vec<SettingsTask> = Vec::new();
        match q {
            QuickMessages::Ping(id) => r.push(SettingsTask::PingDevice(id)),
            QuickMessages::FindMyPhone(id) => r.push(SettingsTask::RingDevice(id)),
            QuickMessages::ShareCliphboard(id) => r.push(SettingsTask::ShareClipboard(id)),
            QuickMessages::SMS(id) => match find_device(&self.devices, id.as_str()) {
                Some(i) => {
                    let name = self.devices[i].name.clone();
                    assert(name@ == s.devices[i as int].name@);
                    r.push(SettingsTask::LaunchSms(id, name));
                },
                None => {},
            },
            QuickMessages::SendFiles(id) => r.push(SettingsTask::SendFiles(id)),
            QuickMessages::BrowseDevice(id) => r.push(SettingsTask::BrowseDevice(id)),
            QuickMessages::UmountDevice(id) => r.push(SettingsTask::BrowseDevice(id)),
        }
        assert(tasks_view(r@) =~= quick_action_tasks(s, gq));
        r
    }

    /// Adds the desktop command being composed, under the id `id`, when both
    /// its name and its command are non-empty after trimming; the input
    /// fields are then cleared and the command list shown.
    pub fn add_run_command(&mut self, id: String) -> (r: Vec<SettingsTask>)
        ensures
            add_command_step(old(self)@, final(self)@, tasks_view(r@), id@),
    {
        let ghost s = self@;
        let name = trim_chars(&chars_of(self.new_cmd_name.as_str()));
        let cmd = trim_chars(&chars_of(self.new_cmd_command.as_str()));
        let mut r: Vec<SettingsTask> = Vec::new();
        if name.len() > 0 && cmd.len() > 0 {
            let mut members: Vec<(String, JsonValue)> = Vec::new();
            members.push(("id".to_string(), JsonValue::Str(id)));
            members.push(("name".to_string(), JsonValue::Str(string_of(&name))));
            members.push(("command".to_string(), JsonValue::Str(string_of(&cmd))));
            let ghost old_cmds = self.run_commands@;
            self.run_commands.push(JsonValue::Object(members));
            assert(self.run_commands@.take(old_cmds.len() as int) =~= old_cmds);
            self.new_cmd_name = String::new();
            self.new_cmd_command = String::new();
            self.active_tab = Tab::Commands;
            r.push(SettingsTask::SaveRunCommands);
            match &self.selected_device {
                Some(d) => {
                    r.push(SettingsTask::PushLocalCommands(d.clone()));
                },
                None => {},
            }
            assert(tasks_view(r@) =~= seq![TaskView::SaveRunCommands] + push_to_selected(s));
        } else {
            assert(tasks_view(r@) =~= Seq::<TaskView>::empty());
        }
        r
    }

    fn delete_run_command(&mut self, id: String) -> (r: Vec<SettingsTask>)
        ensures
            settings_step(
                old(self)@,
                Message::DeleteRunCommand(id),
                final(self)@,
                tasks_view(r@),
                Seq::empty(),
            ),
    {
        let ghost s = self@;
        let mut old_cmds: Vec<JsonValue> = Vec::new();
        std::mem::swap(&mut old_cmds, &mut self.run_commands);
        let total = old_cmds.len();
        let ghost oc = old_cmds@;
        let mut kept: Vec<JsonValue> = Vec::new();
        let mut i: usize = 0;
        assert(oc.take(0) =~= Seq::<JsonValue>::empty());
        while old_cmds.len() > 0
            invariant
                oc.len() == total,
                i + old_cmds@.len() == oc.len(),
                old_cmds@ == oc.skip(i as int),
                kept@ == commands_without(oc.take(i as int), id@),
            decreases old_cmds.len(),
        {
            proof {
                assert(oc.take(i + 1).drop_last() =~= oc.take(i as int));
                assert(oc.take(i + 1).last() == old_cmds@[0]);
            }
            let c = old_cmds.remove(0);
            let drop = match c.get("id") {
                Some(v) => match v.as_str() {
                    Some(t) => t.to_string() == id,
                    None => false,
                },
                None => false,
            };
            if !drop {
                kept.push(c);
            }
            assert(old_cmds@ =~= oc.skip(i + 1));
            i += 1;
        }
        assert(oc.take(i as int) =~= oc);
        self.run_commands = kept;
        let mut r: Vec<SettingsTask> = Vec::new();
        r.push(SettingsTask::SaveRunCommands);
        match &self.selected_device {
            Some(d) => {
                r.push(SettingsTask::PushLocalCommands(d.clone()));
            },
            None => {},
        }
        assert(tasks_view(r@) =~= seq![TaskView::SaveRunCommands] + push_to_selected(s));
        r
    }

    /// Handles one message: the state changes as `settings_step` says, and
    /// the tasks returned are the outside work it asks for, in order. A new
    /// desktop command gets a fresh random id.
    pub fn update(&mut self, message: Message) -> (r: Vec<SettingsTask>)
        ensures
            message is AddRunCommand ==> exists|id: Seq<char>|
                is_uuid_v4_text(id) && settings_step(old(self)@, message, final(self)@, tasks_view(r@), id),
            !(message is AddRunCommand) ==> settings_step(
                old(self)@,
                message,
                final(self)@,
                tasks_view(r@),
                Seq::empty(),
            ),
    {
        let ghost s = self@;
        let ghost m = message;
        let mut r: Vec<SettingsTask> = Vec::new();
        match message {
            Message::DevicesLoaded(devices) => {
                let t = self.devices_loaded(devices);
                assert(settings_step(s, m, self@, tasks_view(t@), Seq::empty()));
                return t;
            },
            Message::PluginStatesLoaded(did, disabled) => {
                let t = self.plugin_states_loaded(did, disabled);
                assert(settings_step(s, m, self@, tasks_view(t@), Seq::empty()));
                return t;
            },
            Message::TogglePlugin(pid, enabled) => {
                let t = self.toggle_plugin(pid, enabled);
                assert(settings_step(s, m, self@, tasks_view(t@), Seq::empty()));
                return t;
            },
            Message::Refresh => {
                r.push(SettingsTask::FetchDevices);
            },
            Message::PairDevice(did) => {
                self.pairing_in_progress.insert(did.clone(), true);
                r.push(SettingsTask::PairDevice(did));
            },
            Message::UnpairDevice(did) => {
                let same = match &self.selected_device {
                    Some(sel) => *sel == did,
                    None => false,
                };
                if same {
                    self.selected_device = None;
                }
                let ghost before = self.plugin_states@;
                self.plugin_states.remove(did.as_str());
                proof {
                    lemma_plugins_remove(before, did@);
                }
                r.push(SettingsTask::UnpairDevice(did));
            },
            Message::ServiceEvent(e) => match e {
                ServiceEvent::DeviceConnected(_) | ServiceEvent::DeviceDisconnected(_)
                | ServiceEvent::DevicePaired(_) => {
                    r.push(SettingsTask::FetchDevices);
                },
                _ => {},
            },
            Message::RunQuickAction(q) => {
                let t = self.quick_action(q);
                assert(settings_step(s, m, self@, tasks_view(t@), Seq::empty()));
                return t;
            },
            Message::BrowseDeviceFailed(f) => {
                self.message_banner = Some(f);
            },
            Message::OpenDeviceProfile => {
                match &self.selected_device {
                    Some(id) => {
                        self.active_tab = Tab::DeviceProfile(id.clone());
                    },
                    None => {},
                }
            },
            Message::OpenCommandsTab => {
                self.active_tab = Tab::Commands;
            },
            Message::OpenCommandAddTab => {
                self.active_tab = Tab::AddCommand;
            },
            Message::RunCommandsLoaded(cmds) => {
                self.run_commands = cmds;
            },
            Message::NewRunCommandName(x) => {
                self.new_cmd_name = x;
            },
            Message::NewRunCommandCommand(x) => {
                self.new_cmd_command = x;
            },
            Message::AddRunCommand => {
                let id = new_command_id();
                let t = self.add_run_command(id);
                assert(settings_step(s, m, self@, tasks_view(t@), id@));
                return t;
            },
            Message::DeleteRunCommand(cid) => {
                let t = self.delete_run_command(cid);
                assert(settings_step(s, m, self@, tasks_view(t@), Seq::empty()));
                return t;
            },
            Message::DismissError => {
                self.message_banner = None;
            },
        }
        assert(tasks_view(r@) =~= match m {
            Message::Refresh => seq![TaskView::FetchDevices],
            Message::PairDevice(did) => seq![TaskView::PairDevice(did@)],
            Message::UnpairDevice(did) => seq![TaskView::UnpairDevice(did@)],
            Message::ServiceEvent(e) => if is_device_change(e) {
                seq![TaskView::FetchDevices]
            } else {
                Seq::<TaskView>::empty()
            },
            _ => Seq::<TaskView>::empty(),
        });
        assert(settings_step(s, m, self@, tasks_view(r@), Seq::empty()));
        r
    }

    /// A navigation entry was chosen; `tab` is the tab it carries, if any.
    /// The device list refreshes the devices; a device profile selects the
    /// device, shows all plugins enabled until its stored states arrive,
    /// and loads them; an entry without a tab falls back to the device list.
    pub fn on_nav_select(&mut self, tab: Option<Tab>) -> (r: Vec<SettingsTask>)
        ensures
            match tab {
                Some(Tab::AvailableDevices) | None => final(self)@ == (SettingsView {
                    tab: TabView::AvailableDevices,
                    selected: None,
                    ..old(self)@
                }) && tasks_view(r@) == seq![TaskView::FetchDevices],
                Some(Tab::DeviceProfile(id)) => final(self)@ == (SettingsView {
                    tab: TabView::DeviceProfile(id@),
                    selected: Some(id@),
                    plugins: if old(self)@.plugins.contains_key(id@) {
                        old(self)@.plugins
                    } else {
                        old(self)@.plugins.insert(id@, default_plugins())
                    },
                    ..old(self)@
                }) && tasks_view(r@) == seq![TaskView::LoadPluginStates(id@)],
                Some(t) => final(self)@ == (SettingsView { tab: t@, ..old(self)@ }) && tasks_view(
                    r@,
                ) == Seq::<TaskView>::empty(),
            },
    {
        let mut r: Vec<SettingsTask> = Vec::new();
        match tab {
            Some(Tab::AvailableDevices) | None => {
                self.active_tab = Tab::AvailableDevices;
                self.selected_device = None;
                r.push(SettingsTask::FetchDevices);
                assert(tasks_view(r@) =~= seq![TaskView::FetchDevices]);
            },
            Some(Tab::DeviceProfile(id)) => {
                self.active_tab = Tab::DeviceProfile(id.clone());
                self.selected_device = Some(id.clone());
                if !self.plugin_states.contains_key(id.as_str()) {
                    let ghost before = self.plugin_states@;
                    let defaults = default_plugin_map();
                    self.plugin_states.insert(id.clone(), defaults);
                    proof {
                        lemma_plugins_insert(before, id@, defaults);
                    }
                }
                r.push(SettingsTask::LoadPluginStates(id));
                assert(tasks_view(r@) =~= seq![TaskView::LoadPluginStates(id@)]);
            },
            Some(t) => {
                self.active_tab = t;
                assert(tasks_view(r@) =~= Seq::<TaskView>::empty());
            },
        }
        r
    }

    /// The devices the navigation lists under their own entry, paired and
    /// reachable ones, in order: (name, id).
    pub fn profile_entries(&self) -> (r: Vec<(String, String)>)
        ensures
            r@.map_values(|e: (String, String)| (e.0@, e.1@)) == profile_entries_of(self@.devices),
    {
        let mut r: Vec<(String, String)> = Vec::new();
        let mut i: usize = 0;
        assert(self.devices@.take(0) =~= Seq::<Device>::empty());
        while i < self.devices.len()
            invariant
                i <= self.devices@.len(),
                r@.map_values(|e: (String, String)| (e.0@, e.1@)) == profile_entries_of(
                    self.devices@.take(i as int),
                ),
            decreases self.devices.len() - i,
        {
            proof {
                assert(self.devices@.take(i + 1).drop_last() =~= self.devices@.take(i as int));
            }
            let d = &self.devices[i];
            if d.is_paired && d.is_reachable {
                let ghost before = r@;
                r.push((d.name.clone(), d.id.clone()));
                assert(r@.map_values(|e: (String, String)| (e.0@, e.1@)) =~= before.map_values(
                    |e: (String, String)| (e.0@, e.1@),
                ).push((d.name@, d.id@)));
            }
            i += 1;
        }
        assert(self.devices@.take(i as int) =~= self.devices@);
        r
    }

    /// The devices offered for pairing: reachable and not paired, in order.
    pub fn available_devices(&self) -> (r: Vec<usize>)
        ensures
            r@.map_values(|i: usize| i as int) == available_indices(self@.devices, self@.devices.len() as int),
    {
        let mut r: Vec<usize> = Vec::new();
        let mut i: usize = 0;
        while i < self.devices.len()
            invariant
                i <= self.devices@.len(),
                r@.map_values(|k: usize| k as int) == available_indices(self@.devices, i as int),
            decreases self.devices.len() - i,
        {
            let ghost before = r@;
            if !self.devices[i].is_paired && self.devices[i].is_reachable {
                r.push(i);
                assert(r@.map_values(|k: usize| k as int) =~= before.map_values(|k: usize| k as int).push(i as int));
            }
            i += 1;
        }
        r
    }
}

/// (name, id) of each paired and reachable device, in order.
pub open spec fn profile_entries_of(d: Seq<Device>) -> Seq<(Seq<char>, Seq<char>)>
    decreases d.len(),
{
    if d.len() == 0 {
        Seq::empty()
    } else {
        let rest = profile_entries_of(d.drop_last());
        if d.last().is_paired && d.last().is_reachable {
            rest.push((d.last().name@, d.last().id@))
        } else {
            rest
        }
    }
}

/// Indices below `n` of the devices that are reachable and not paired.
pub open spec fn available_indices(d: Seq<Device>, n: int) -> Seq<int>
    decreases n,
{
    if n <= 0 {
        Seq::empty()
    } else {
        let rest = available_indices(d, n - 1);
        if !d[n - 1].is_paired && d[n - 1].is_reachable {
            rest.push(n - 1)
        } else {
            rest
        }
    }
}

// ---------------------------------------------------------------------------
// Laws
// ---------------------------------------------------------------------------

proof fn lemma_all_set(m: Map<Seq<char>, bool>, ids: Seq<Seq<char>>, value: bool, k: Seq<char>)
    ensures
        ids.contains(k) ==> all_set(m, ids, value).contains_key(k) && all_set(m, ids, value)[k]
            == value,
        !ids.contains(k) ==> (all_set(m, ids, value).contains_key(k) == m.contains_key(k)) && (
        m.contains_key(k) ==> all_set(m, ids, value)[k] == m[k]),
    decreases ids.len(),
{
    if ids.len() > 0 {
        let rest = ids.drop_last();
        lemma_all_set(m, rest, value, k);
        if ids.contains(k) && k != ids.last() {
            let i = choose|i: int| 0 <= i < ids.len() && ids[i] == k;
            assert(rest[i] == k);
        }
        if rest.contains(k) {
            let i = choose|i: int| 0 <= i < rest.len() && rest[i] == k;
            assert(ids[i] == k);
        }
    }
}

/// After a device list arrives, the selected device, if any, is a paired
/// device of that list, and none is selected only when the list holds no
/// paired device.
pub proof fn law_selected_device_is_paired(
    s: SettingsView,
    devices: Vec<Device>,
    n: SettingsView,
    tasks: Seq<TaskView>,
    id: Seq<char>,
)
    requires
        settings_step(s, Message::DevicesLoaded(devices), n, tasks, id),
    ensures
        n.selected matches Some(sel) ==> has_paired(devices@, sel),
        n.selected is None ==> forall|i: int|
            0 <= i < devices@.len() ==> !(#[trigger] devices@[i]).is_paired,
{
    crate::device::lemma_first_paired(devices@);
    match first_paired(devices@) {
        Some(i) => {
            assert(devices@[i].id@ == devices@[i].id@ && devices@[i].is_paired);
        },
        None => {},
    }
}

/// A new device list keeps the selected device while it is still listed
/// as paired.
pub proof fn law_selection_kept_while_paired(
    s: SettingsView,
    devices: Vec<Device>,
    n: SettingsView,
    tasks: Seq<TaskView>,
    id: Seq<char>,
    sel: Seq<char>,
    i: int,
)
    requires
        settings_step(s, Message::DevicesLoaded(devices), n, tasks, id),
        s.selected == Some(sel),
        0 <= i < devices@.len(),
        devices@[i].id@ == sel,
        devices@[i].is_paired,
    ensures
        n.selected == Some(sel),
        n.plugins == s.plugins,
{
}

/// Toggling a plugin while a device is selected is read back: the plugin
/// is then enabled exactly when the toggle said so.
pub proof fn law_toggle_reads_back(
    s: SettingsView,
    plugin_id: String,
    enabled: bool,
    n: SettingsView,
    tasks: Seq<TaskView>,
    id: Seq<char>,
)
    requires
        s.selected is Some,
        settings_step(s, Message::TogglePlugin(plugin_id, enabled), n, tasks, id),
    ensures
        plugin_enabled_in(n, plugin_id@) == enabled,
{
}

/// Stored plugin states of the selected device are read back: a plugin
/// listed as disabled reads as disabled, any other implemented plugin as
/// enabled.
pub proof fn law_loaded_states_read_back(
    s: SettingsView,
    device_id: String,
    disabled: Vec<String>,
    n: SettingsView,
    tasks: Seq<TaskView>,
    id: Seq<char>,
    plugin: Seq<char>,
)
    requires
        s.selected == Some(device_id@),
        settings_step(s, Message::PluginStatesLoaded(device_id, disabled), n, tasks, id),
    ensures
        strings_view(disabled@).contains(plugin) ==> !plugin_enabled_in(n, plugin),
        plugin_ids().contains(plugin) && !strings_view(disabled@).contains(plugin)
            ==> plugin_enabled_in(n, plugin),
{
    lemma_all_set(default_plugins(), strings_view(disabled@), false, plugin);
    lemma_all_set(Map::empty(), plugin_ids(), true, plugin);
}

proof fn lemma_commands_without(cmds: Seq<JsonValue>, id: Seq<char>)
    ensures
        forall|i: int|
            0 <= i < commands_without(cmds, id).len() ==> !command_has_id(
                #[trigger] commands_without(cmds, id)[i],
                id,
            ),
        forall|i: int|
            0 <= i < cmds.len() && !command_has_id(cmds[i], id) ==> commands_without(
                cmds,
                id,
            ).contains(#[trigger] cmds[i]),
    decreases cmds.len(),
{
    if cmds.len() > 0 {
        let rest = cmds.drop_last();
        lemma_commands_without(rest, id);
        let w = commands_without(rest, id);
        assert forall|i: int|
            0 <= i < cmds.len() && !command_has_id(cmds[i], id) implies commands_without(
            cmds,
            id,
        ).contains(#[trigger] cmds[i]) by {
            if i < cmds.len() - 1 {
                assert(rest[i] == cmds[i]);
                let j = choose|j: int| 0 <= j < w.len() && w[j] == cmds[i];
                assert(commands_without(cmds, id)[j] == cmds[i]);
            } else {
                assert(commands_without(cmds, id).last() == cmds[i]);
            }
        }
    }
}

/// Deleting a desktop command leaves no command with its id and keeps
/// every other command.
pub proof fn law_delete_removes_command(
    s: SettingsView,
    command_id: String,
    n: SettingsView,
    tasks: Seq<TaskView>,
    id: Seq<char>,
)
    requires
        settings_step(s, Message::DeleteRunCommand(command_id), n, tasks, id),
    ensures
        forall|i: int|
            0 <= i < n.run_commands.len() ==> !command_has_id(
                #[trigger] n.run_commands[i],
                command_id@,
            ),
        forall|i: int|
            0 <= i < s.run_commands.len() && !command_has_id(s.run_commands[i], command_id@)
                ==> n.run_commands.contains(#[trigger] s.run_commands[i]),
{
    lemma_commands_without(s.run_commands, command_id@);
}

/// Unpairing a device deselects it and forgets its plugin states.
pub proof fn law_unpair_forgets_device(
    s: SettingsView,
    device_id: String,
    n: SettingsView,
    tasks: Seq<TaskView>,
    id: Seq<char>,
)
    requires
        settings_step(s, Message::UnpairDevice(device_id), n, tasks, id),
    ensures
        n.selected != Some(device_id@),
        !n.plugins.contains_key(device_id@),
{
}

/// The desktop commands change only when they are loaded, added or
/// deleted.
pub proof fn law_commands_change_only_by_command_messages(
    s: SettingsView,
    msg: Message,
    n: SettingsView,
    tasks: Seq<TaskView>,
    id: Seq<char>,
)
    requires
        settings_step(s, msg, n, tasks, id),
        !(msg is RunCommandsLoaded || msg is AddRunCommand || msg is DeleteRunCommand),
    ensures
        n.run_commands == s.run_commands,
{
}

/// A command the user adds or deletes is saved: whenever adding or
/// deleting changes the commands, the first task saves them.
pub proof fn law_edited_commands_are_saved(
    s: SettingsView,
    msg: Message,
    n: SettingsView,
    tasks: Seq<TaskView>,
    id: Seq<char>,
)
    requires
        settings_step(s, msg, n, tasks, id),
        msg is AddRunCommand || msg is DeleteRunCommand,
        n.run_commands != s.run_commands,
    ensures
        tasks.len() > 0,
        tasks[0] == TaskView::SaveRunCommands,
{
}

} // verus!
