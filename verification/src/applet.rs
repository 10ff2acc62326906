//! The panel applet: the popup, the known devices, the expanded device card
//! and the pending pairing requests. `update` decides, for each message,
//! the next state and the work to be done outside.

use crate::device::Device;
use crate::json::{json_get, JsonValue};
use crate::settings::{opt_view, ServiceEvent};
use crate::strmap::StrMap;
use crate::text::{chars_lt, chars_of, lemma_seq_lt_total, lemma_seq_lt_transitive, seq_lt};
use crate::strmap::keys_distinct;
use vstd::prelude::*;
use vstd::string::StringExecFns;

verus! {

broadcast use vstd::string::group_string_axioms;

pub enum Message {
    TogglePopup,
    PopupClosed(u64),
    Quit,
    /// The service was asked to stop; an error text when that failed.
    QuitFinished(Option<String>),
    RefreshDevices,
    DevicesUpdated(Vec<Device>),
    DelayedRefresh,
    ToggleDeviceMenu(String),
    SendSMS(String),
    PingDevice(String),
    RingDevice(String),
    BrowseDevice(String),
    PairDevice(String),
    UnpairDevice(String),
    SendFiles(String),
    UpdateTransferProgress(u8),
    ShareClipboard(String),
    /// A clipboard send finished: (device id, error text when it failed).
    ClipboardSendFinished(String, Option<String>),
    BatteryUpdated(String, i32, bool),
    ConnectivityUpdated(String, i32),
    AcceptPairing(String),
    RejectPairing(String),
    /// A device asks to pair: (device id, device name, device type).
    PairingRequestReceived(String, String, String),
    MprisReceived(String),
    OpenSettings,
    RemoteInput(String),
    LockDevice(String),
    PresenterMode(String),
    UseAsMonitor(String),
    ShareText(String),
    ShareUrl(String),
    RequestRunCommands(String),
    /// The commands a device offers, as the JSON it sent (`Null` when the
    /// text was not JSON).
    RunCommandsReceived(String, JsonValue),
    ExecuteRunCommand(String, String),
}

/// Work for the outside world that a message leads to.
pub enum AppletTask {
    /// Open the popup on the given surface.
    OpenPopup(u64),
    DestroyPopup(u64),
    /// Fetch the device list; answered by `DevicesUpdated`.
    FetchDevices,
    /// Ask the service to stop; answered by `QuitFinished`.
    QuitService,
    /// End the process.
    Exit,
    /// Ask a device for its commands, then fetch the device list.
    RequestRunCommands(String),
    /// Start the SMS window: (device id, device name).
    LaunchSms(String, String),
    PingDevice(String),
    RingDevice(String),
    BrowseDevice(String),
    PairDevice(String),
    UnpairDevice(String),
    SendFiles(String),
    ShareClipboard(String),
    /// Hand the service the device as now stored, so the next fetch keeps it.
    StoreDevice(String),
    AcceptPairing(String),
    RejectPairing(String),
    /// Show a desktop notification with this body about a pairing request.
    NotifyPairingRequest(String),
    OpenSettings,
    ExecuteRunCommand(String, String),
}

pub enum AppletTaskView {
    OpenPopup(u64),
    DestroyPopup(u64),
    FetchDevices,
    QuitService,
    Exit,
    RequestRunCommands(Seq<char>),
    LaunchSms(Seq<char>, Seq<char>),
    PingDevice(Seq<char>),
    RingDevice(Seq<char>),
    BrowseDevice(Seq<char>),
    PairDevice(Seq<char>),
    UnpairDevice(Seq<char>),
    SendFiles(Seq<char>),
    ShareClipboard(Seq<char>),
    StoreDevice(Seq<char>),
    AcceptPairing(Seq<char>),
    RejectPairing(Seq<char>),
    NotifyPairingRequest(Seq<char>),
    OpenSettings,
    ExecuteRunCommand(Seq<char>, Seq<char>),
}

impl View for AppletTask {
    type V = AppletTaskView;

    open spec fn view(&self) -> AppletTaskView {
        match self {
            AppletTask::OpenPopup(p) => AppletTaskView::OpenPopup(*p),
            AppletTask::DestroyPopup(p) => AppletTaskView::DestroyPopup(*p),
            AppletTask::FetchDevices => AppletTaskView::FetchDevices,
            AppletTask::QuitService => AppletTaskView::QuitService,
            AppletTask::Exit => AppletTaskView::Exit,
            AppletTask::RequestRunCommands(d) => AppletTaskView::RequestRunCommands(d@),
            AppletTask::LaunchSms(d, n) => AppletTaskView::LaunchSms(d@, n@),
            AppletTask::PingDevice(d) => AppletTaskView::PingDevice(d@),
            AppletTask::RingDevice(d) => AppletTaskView::RingDevice(d@),
            AppletTask::BrowseDevice(d) => AppletTaskView::BrowseDevice(d@),
            AppletTask::PairDevice(d) => AppletTaskView::PairDevice(d@),
            AppletTask::UnpairDevice(d) => AppletTaskView::UnpairDevice(d@),
            AppletTask::SendFiles(d) => AppletTaskView::SendFiles(d@),
            AppletTask::ShareClipboard(d) => AppletTaskView::ShareClipboard(d@),
            AppletTask::StoreDevice(d) => AppletTaskView::StoreDevice(d@),
            AppletTask::AcceptPairing(d) => AppletTaskView::AcceptPairing(d@),
            AppletTask::RejectPairing(d) => AppletTaskView::RejectPairing(d@),
            AppletTask::NotifyPairingRequest(b) => AppletTaskView::NotifyPairingRequest(b@),
            AppletTask::OpenSettings => AppletTaskView::OpenSettings,
            AppletTask::ExecuteRunCommand(d, k) => AppletTaskView::ExecuteRunCommand(d@, k@),
        }
    }
}

pub open spec fn tasks_view(v: Seq<AppletTask>) -> Seq<AppletTaskView> {
    v.map_values(|t: AppletTask| t@)
}

pub struct KdeConnectApplet {
    /// The surface of the open popup.
    pub popup: Option<u64>,
    /// Known devices by id.
    pub devices: StrMap<Device>,
    pub expanded_device: Option<String>,
    /// Pending pairing requests: device id -> device name.
    pub pairing_requests: StrMap<String>,
}

pub struct AppletView {
    pub popup: Option<u64>,
    pub devices: Map<Seq<char>, Device>,
    pub expanded: Option<Seq<char>>,
    pub requests: Map<Seq<char>, Seq<char>>,
}

impl View for KdeConnectApplet {
    type V = AppletView;

    open spec fn view(&self) -> AppletView {
        AppletView {
            popup: self.popup,
            devices: self.devices@,
            expanded: opt_view(self.expanded_device),
            requests: self.pairing_requests@.map_values(|s: String| s@),
        }
    }
}

// ---------------------------------------------------------------------------
// Specification
// ---------------------------------------------------------------------------

/// The device map a device list makes: each device under its id, a later
/// device over an earlier one with the same id.
pub open spec fn devices_by_id(devs: Seq<Device>) -> Map<Seq<char>, Device>
    decreases devs.len(),
{
    if devs.len() == 0 {
        Map::empty()
    } else {
        devices_by_id(devs.drop_last()).insert(devs.last().id@, devs.last())
    }
}

/// (key, name) of each item of a command list that has both as strings.
pub open spec fn command_pairs(items: Seq<JsonValue>) -> Seq<(Seq<char>, Seq<char>)>
    decreases items.len(),
{
    if items.len() == 0 {
        Seq::empty()
    } else {
        let rest = command_pairs(items.drop_last());
        match (json_get(items.last(), "key"@), json_get(items.last(), "name"@)) {
            (Some(JsonValue::Str(k)), Some(JsonValue::Str(n))) => rest.push((k@, n@)),
            _ => rest,
        }
    }
}

/// The commands a device's answer lists; none unless it is an array.
pub open spec fn run_commands_of(v: JsonValue) -> Seq<(Seq<char>, Seq<char>)> {
    match v {
        JsonValue::Array(items) => command_pairs(items@),
        _ => Seq::empty(),
    }
}

pub open spec fn pairs_view(v: Seq<(String, String)>) -> Seq<(Seq<char>, Seq<char>)> {
    v.map_values(|p: (String, String)| (p.0@, p.1@))
}

/// The body of the desktop notification about a pairing request.
pub open spec fn pairing_notice(name: Seq<char>) -> Seq<char> {
    "'"@ + name + "' wants to pair with this device. Click the KDE Connect applet to accept or decline."@
}

/// `s` with the device `id` replaced by `d`, if `id` is known, and the
/// task of storing it.
pub open spec fn device_changed(s: AppletView, n: AppletView, tasks: Seq<AppletTaskView>, id: Seq<char>, d: spec_fn(Device) -> bool) -> bool {
    if s.devices.contains_key(id) {
        &&& n.popup == s.popup && n.expanded == s.expanded && n.requests == s.requests
        &&& n.devices.dom() == s.devices.dom()
        &&& forall|k: Seq<char>| #[trigger] n.devices.contains_key(k) && k != id ==> n.devices[k] == s.devices[k]
        &&& d(n.devices[id])
        &&& tasks == seq![AppletTaskView::StoreDevice(id)]
    } else {
        n == s && tasks == Seq::<AppletTaskView>::empty()
    }
}

/// What a message does: `n` is the state after it and `tasks` the work it
/// asks for; `fresh` is the surface a newly opened popup gets.
pub open spec fn applet_step(s: AppletView, msg: Message, fresh: u64, n: AppletView, tasks: Seq<AppletTaskView>) -> bool {
    let none = Seq::<AppletTaskView>::empty();
    match msg {
        Message::TogglePopup => match s.popup {
            Some(p) => n == AppletView { popup: None, ..s } && tasks == seq![AppletTaskView::DestroyPopup(p)],
            None => n == AppletView { popup: Some(fresh), ..s } && tasks == seq![AppletTaskView::OpenPopup(fresh), AppletTaskView::FetchDevices],
        },
        Message::PopupClosed(p) => tasks == none && n == if s.popup == Some(p) {
            AppletView { popup: None, ..s }
        } else {
            s
        },
        Message::Quit => n == s && tasks == seq![AppletTaskView::QuitService],
        Message::QuitFinished(_) => n == s && tasks == seq![AppletTaskView::Exit],
        Message::RefreshDevices | Message::DelayedRefresh => n == s && tasks == seq![AppletTaskView::FetchDevices],
        Message::DevicesUpdated(devs) => n == AppletView { devices: devices_by_id(devs@), ..s } && tasks == none,
        Message::ToggleDeviceMenu(id) => if s.expanded == Some(id@) {
            n == AppletView { expanded: None, ..s } && tasks == none
        } else {
            n == AppletView { expanded: Some(id@), ..s } && tasks == seq![AppletTaskView::RequestRunCommands(id@)]
        },
        Message::SendSMS(id) => n == s && tasks == seq![AppletTaskView::LaunchSms(
            id@,
            if s.devices.contains_key(id@) { s.devices[id@].name@ } else { "Unknown Device"@ },
        )],
        Message::PingDevice(id) => n == s && tasks == seq![AppletTaskView::PingDevice(id@)],
        Message::RingDevice(id) => n == s && tasks == seq![AppletTaskView::RingDevice(id@)],
        Message::BrowseDevice(id) => n == s && tasks == seq![AppletTaskView::BrowseDevice(id@)],
        Message::PairDevice(id) => n == s && tasks == seq![AppletTaskView::PairDevice(id@)],
        Message::UnpairDevice(id) => n == s && tasks == seq![AppletTaskView::UnpairDevice(id@)],
        Message::SendFiles(id) => n == s && tasks == seq![AppletTaskView::SendFiles(id@)],
        Message::UpdateTransferProgress(p) => tasks == none && match s.expanded {
            Some(id) => if s.devices.contains_key(id) {
                n == AppletView {
                    devices: s.devices.insert(id, Device {
                        share_progress: if p < 100 { Some(p) } else { None },
                        ..s.devices[id]
                    }),
                    ..s
                }
            } else {
                n == s
            },
            None => n == s,
        },
        Message::ShareClipboard(id) => n == s && tasks == seq![AppletTaskView::ShareClipboard(id@)],
        Message::ClipboardSendFinished(_, _) => n == s && tasks == none,
        Message::BatteryUpdated(id, level, charging) => device_changed(s, n, tasks, id@, |d: Device|
            d == Device { battery_level: Some(level), is_charging: Some(charging), ..s.devices[id@] }),
        Message::ConnectivityUpdated(id, strength) => device_changed(s, n, tasks, id@, |d: Device|
            d == Device { signal_strength: Some(strength), ..s.devices[id@] }),
        Message::AcceptPairing(id) => n == AppletView { requests: s.requests.remove(id@), ..s }
            && tasks == seq![AppletTaskView::AcceptPairing(id@)],
        Message::RejectPairing(id) => n == AppletView { requests: s.requests.remove(id@), ..s }
            && tasks == seq![AppletTaskView::RejectPairing(id@)],
        Message::PairingRequestReceived(id, name, _) => {
            let requests = s.requests.insert(id@, name@);
            let notice = AppletTaskView::NotifyPairingRequest(pairing_notice(name@));
            match s.popup {
                Some(_) => n == AppletView { requests, ..s } && tasks == seq![notice],
                None => n == AppletView { requests, popup: Some(fresh), ..s } && tasks == seq![notice, AppletTaskView::OpenPopup(fresh)],
            }
        },
        Message::OpenSettings => n == s && tasks == seq![AppletTaskView::OpenSettings],
        Message::RequestRunCommands(id) => n == s && tasks == seq![AppletTaskView::RequestRunCommands(id@)],
        Message::RunCommandsReceived(id, json) => device_changed(s, n, tasks, id@, |d: Device|
            d == Device { run_commands: d.run_commands, ..s.devices[id@] } && pairs_view(d.run_commands@) == run_commands_of(json)),
        Message::ExecuteRunCommand(id, key) => n == s && tasks == seq![AppletTaskView::ExecuteRunCommand(id@, key@)],
        Message::MprisReceived(_) | Message::RemoteInput(_) | Message::LockDevice(_) | Message::PresenterMode(_)
        | Message::UseAsMonitor(_) | Message::ShareText(_) | Message::ShareUrl(_) => n == s && tasks == none,
    }
}

// ---------------------------------------------------------------------------
// Transitions
// ---------------------------------------------------------------------------

/// The commands listed in a device's answer.
pub fn run_commands_from_json(json: &JsonValue) -> (r: Vec<(String, String)>)
    ensures
        pairs_view(r@) == run_commands_of(*json),
{
    let mut r: Vec<(String, String)> = Vec::new();
    match json.as_array() {
        Some(items) => {
            let mut i: usize = 0;
            assert(items@.take(0) =~= Seq::<JsonValue>::empty());
            assert(pairs_view(r@) =~= Seq::<(Seq<char>, Seq<char>)>::empty());
            while i < items.len()
                invariant
                    i <= items@.len(),
                    pairs_view(r@) == command_pairs(items@.take(i as int)),
                decreases items.len() - i,
            {
                proof {
                    assert(items@.take(i + 1).drop_last() =~= items@.take(i as int));
                }
                let item = &items[i];
                let key = match item.get("key") {
                    Some(k) => k.as_str(),
                    None => None,
                };
                let name = match item.get("name") {
                    Some(n) => n.as_str(),
                    None => None,
                };
                match (key, name) {
                    (Some(k), Some(n)) => {
                        let ghost before = r@;
                        r.push((k.to_string(), n.to_string()));
                        assert(pairs_view(r@) =~= pairs_view(before).push((k@, n@)));
                    },
                    _ => {},
                }
                i += 1;
            }
            assert(items@.take(i as int) =~= items@);
        },
        None => {
            assert(pairs_view(r@) =~= Seq::<(Seq<char>, Seq<char>)>::empty());
        },
    }
    r
}

/// The applet's message for an event of the background service: pairing
/// requests, battery and signal reports and command lists go to their own
/// message, a change of the device list asks for a refresh, and clipboard
/// and other events lead to none.
pub fn message_for_event(event: ServiceEvent) -> (r: Option<Message>)
    ensures
        match event {
            ServiceEvent::PairingRequested(id, name) => r matches Some(
                Message::PairingRequestReceived(i, n, t),
            ) && i@ == id@ && n@ == name@ && t@ == "phone"@,
            ServiceEvent::BatteryReceived(id, level, charging) => r matches Some(
                Message::BatteryUpdated(i, l, c),
            ) && i@ == id@ && l == level && c == charging,
            ServiceEvent::ConnectivityReceived(id, strength) => r matches Some(
                Message::ConnectivityUpdated(i, t),
            ) && i@ == id@ && t == strength,
            ServiceEvent::RunCommandListReceived(id, json) => r matches Some(
                Message::RunCommandsReceived(i, j),
            ) && i@ == id@ && j == json,
            ServiceEvent::DeviceConnected(_) | ServiceEvent::DeviceDisconnected(_)
            | ServiceEvent::DevicePaired(_) => r matches Some(Message::RefreshDevices),
            ServiceEvent::ClipboardReceived(_) | ServiceEvent::Other => r is None,
        },
{
    match event {
        ServiceEvent::PairingRequested(id, name) => Some(
            Message::PairingRequestReceived(id, name, "phone".to_string()),
        ),
        ServiceEvent::BatteryReceived(id, level, charging) => Some(
            Message::BatteryUpdated(id, level, charging),
        ),
        ServiceEvent::ConnectivityReceived(id, strength) => Some(
            Message::ConnectivityUpdated(id, strength),
        ),
        ServiceEvent::RunCommandListReceived(id, json) => Some(
            Message::RunCommandsReceived(id, json),
        ),
        ServiceEvent::DeviceConnected(_) | ServiceEvent::DeviceDisconnected(_)
        | ServiceEvent::DevicePaired(_) => Some(Message::RefreshDevices),
        ServiceEvent::ClipboardReceived(_) | ServiceEvent::Other => None,
    }
}

/// The body of the desktop notification about a pairing request.
pub fn pairing_notice_text(name: &str) -> (r: String)
    ensures
        r@ == pairing_notice(name@),
{
    let mut b: String = "'".to_string();
    b.append(name);
    b.append("' wants to pair with this device. Click the KDE Connect applet to accept or decline.");
    b
}

proof fn lemma_requests_insert(m: Map<Seq<char>, String>, k: Seq<char>, v: String)
    ensures
        m.insert(k, v).map_values(|s: String| s@) == m.map_values(|s: String| s@).insert(k, v@),
{
    assert(m.insert(k, v).map_values(|s: String| s@) =~= m.map_values(|s: String| s@).insert(k, v@));
}

proof fn lemma_requests_remove(m: Map<Seq<char>, String>, k: Seq<char>)
    ensures
        m.remove(k).map_values(|s: String| s@) == m.map_values(|s: String| s@).remove(k),
{
    assert(m.remove(k).map_values(|s: String| s@) =~= m.map_values(|s: String| s@).remove(k));
}

impl KdeConnectApplet {
    /// The state the applet starts in: no popup, nothing known.
    pub fn new() -> (r: Self)
        ensures
            r@ == (AppletView {
                popup: None,
                devices: Map::empty(),
                expanded: None,
                requests: Map::empty(),
            }),
    {
        let r = KdeConnectApplet {
            popup: None,
            devices: StrMap::new(),
            expanded_device: None,
            pairing_requests: StrMap::new(),
        };
        assert(r@.requests =~= Map::empty());
        r
    }

    fn replace_devices(&mut self, devices: Vec<Device>)
        ensures
            final(self)@ == (AppletView { devices: devices_by_id(devices@), ..old(self)@ }),
    {
        let ghost d = devices@;
        let mut rest = devices;
        let mut map: StrMap<Device> = StrMap::new();
        let mut i: usize = 0;
        let total = rest.len();
        assert(d.take(0) =~= Seq::<Device>::empty());
        while rest.len() > 0
            invariant
                d.len() == total,
                i + rest@.len() == d.len(),
                rest@ == d.skip(i as int),
                map@ == devices_by_id(d.take(i as int)),
            decreases rest.len(),
        {
            proof {
                assert(d.take(i + 1).drop_last() =~= d.take(i as int));
                assert(d.take(i + 1).last() == rest@[0]);
            }
            let dev = rest.remove(0);
            let id = dev.id.clone();
            map.insert(id, dev);
            assert(rest@ =~= d.skip(i + 1));
            i += 1;
        }
        assert(d.take(i as int) =~= d);
        self.devices = map;
    }

    /// Replaces the stored device `id` by what `change` makes of it, if the
    /// device is known; the task list then asks to store it.
    fn take_device(&mut self, id: &str) -> (r: Option<Device>)
        ensures
            match r {
                Some(d) => old(self)@.devices.contains_key(id@) && d == old(self)@.devices[id@]
                    && final(self)@ == (AppletView { devices: old(self)@.devices.remove(id@), ..old(self)@ }),
                None => !old(self)@.devices.contains_key(id@) && final(self)@ == old(self)@,
            },
    {
        let r = self.devices.remove(id);
        proof {
            if r is None {
                assert(self@.devices =~= old(self)@.devices);
            }
        }
        r
    }

    /// Handles one message: the state changes as `applet_step` says, and
    /// the tasks returned are the outside work it asks for, in order. A
    /// popup opened by this message gets the surface `fresh`.
    pub fn update(&mut self, message: Message, fresh: u64) -> (r: Vec<AppletTask>)
        ensures
            applet_step(old(self)@, message, fresh, final(self)@, tasks_view(r@)),
    {
        let ghost s = self@;
        let ghost m = message;
        let mut r: Vec<AppletTask> = Vec::new();
        match message {
            Message::TogglePopup => {
                match self.popup {
                    Some(p) => {
                        self.popup = None;
                        r.push(AppletTask::DestroyPopup(p));
                    },
                    None => {
                        self.popup = Some(fresh);
                        r.push(AppletTask::OpenPopup(fresh));
                        r.push(AppletTask::FetchDevices);
                    },
                }
            },
            Message::PopupClosed(p) => {
                if self.popup == Some(p) {
                    self.popup = None;
                }
            },
            Message::Quit => {
                r.push(AppletTask::QuitService);
            },
            Message::QuitFinished(_) => {
                r.push(AppletTask::Exit);
            },
            Message::RefreshDevices | Message::DelayedRefresh => {
                r.push(AppletTask::FetchDevices);
            },
            Message::DevicesUpdated(devs) => {
                self.replace_devices(devs);
            },
            Message::ToggleDeviceMenu(id) => {
                let same = match &self.expanded_device {
                    Some(e) => *e == id,
                    None => false,
                };
                if same {
                    self.expanded_device = None;
                } else {
                    self.expanded_device = Some(id.clone());
                    r.push(AppletTask::RequestRunCommands(id));
                }
            },
            Message::SendSMS(id) => {
                let name = match self.devices.get(id.as_str()) {
                    Some(d) => d.name.clone(),
                    None => "Unknown Device".to_string(),
                };
                r.push(AppletTask::LaunchSms(id, name));
            },
            Message::PingDevice(id) => {
                r.push(AppletTask::PingDevice(id));
            },
            Message::RingDevice(id) => {
                r.push(AppletTask::RingDevice(id));
            },
            Message::BrowseDevice(id) => {
                r.push(AppletTask::BrowseDevice(id));
            },
            Message::PairDevice(id) => {
                r.push(AppletTask::PairDevice(id));
            },
            Message::UnpairDevice(id) => {
                r.push(AppletTask::UnpairDevice(id));
            },
            Message::SendFiles(id) => {
                r.push(AppletTask::SendFiles(id));
            },
            Message::UpdateTransferProgress(progress) => {
                let current = match &self.expanded_device {
                    Some(e) => Some(e.clone()),
                    None => None,
                };
                match current {
                    Some(id) => match self.take_device(id.as_str()) {
                        Some(d) => {
                            let nd = Device {
                                share_progress: if progress < 100 {
                                    Some(progress)
                                } else {
                                    None
                                },
                                ..d
                            };
                            self.devices.insert(id, nd);
                            assert(self@.devices =~= s.devices.insert(
                                s.expanded->0,
                                Device {
                                    share_progress: if progress < 100 {
                                        Some(progress)
                                    } else {
                                        None
                                    },
                                    ..s.devices[s.expanded->0]
                                },
                            ));
                        },
                        None => {},
                    },
                    None => {},
                }
            },
            Message::ShareClipboard(id) => {
                r.push(AppletTask::ShareClipboard(id));
            },
            Message::ClipboardSendFinished(_, _) => {},
            Message::BatteryUpdated(id, level, charging) => {
                match self.take_device(id.as_str()) {
                    Some(d) => {
                        let nd = Device {
                            battery_level: Some(level),
                            is_charging: Some(charging),
                            ..d
                        };
                        self.devices.insert(id.clone(), nd);
                        assert(self@.devices =~= s.devices.insert(id@, nd));
                        r.push(AppletTask::StoreDevice(id));
                    },
                    None => {},
                }
            },
            Message::ConnectivityUpdated(id, strength) => {
                match self.take_device(id.as_str()) {
                    Some(d) => {
                        let nd = Device { signal_strength: Some(strength), ..d };
                        self.devices.insert(id.clone(), nd);
                        assert(self@.devices =~= s.devices.insert(id@, nd));
                        r.push(AppletTask::StoreDevice(id));
                    },
                    None => {},
                }
            },
            Message::AcceptPairing(id) => {
                let ghost before = self.pairing_requests@;
                self.pairing_requests.remove(id.as_str());
                proof {
                    lemma_requests_remove(before, id@);
                }
                r.push(AppletTask::AcceptPairing(id));
            },
            Message::RejectPairing(id) => {
                let ghost before = self.pairing_requests@;
                self.pairing_requests.remove(id.as_str());
                proof {
                    lemma_requests_remove(before, id@);
                }
                r.push(AppletTask::RejectPairing(id));
            },
            Message::PairingRequestReceived(id, name, _) => {
                let notice = pairing_notice_text(name.as_str());
                let ghost before = self.pairing_requests@;
                self.pairing_requests.insert(id, name);
                proof {
                    lemma_requests_insert(before, id@, name);
                }
                r.push(AppletTask::NotifyPairingRequest(notice));
                if self.popup.is_none() {
                    self.popup = Some(fresh);
                    r.push(AppletTask::OpenPopup(fresh));
                }
            },
            Message::OpenSettings => {
                r.push(AppletTask::OpenSettings);
            },
            Message::RequestRunCommands(id) => {
                r.push(AppletTask::RequestRunCommands(id));
            },
            Message::RunCommandsReceived(id, json) => {
                let commands = run_commands_from_json(&json);
                match self.take_device(id.as_str()) {
                    Some(d) => {
                        let nd = Device { run_commands: commands, ..d };
                        self.devices.insert(id.clone(), nd);
                        assert(self@.devices =~= s.devices.insert(id@, nd));
                        r.push(AppletTask::StoreDevice(id));
                    },
                    None => {},
                }
            },
            Message::ExecuteRunCommand(id, key) => {
                r.push(AppletTask::ExecuteRunCommand(id, key));
            },
            Message::MprisReceived(_) | Message::RemoteInput(_) | Message::LockDevice(_)
            | Message::PresenterMode(_) | Message::UseAsMonitor(_) | Message::ShareText(_)
            | Message::ShareUrl(_) => {},
        }
        assert(tasks_view(r@) =~= r@.map_values(|t: AppletTask| t@));
        proof {
            lemma_tasks_literal(r@);
        }
        r
    }
}

proof fn lemma_tasks_literal(r: Seq<AppletTask>)
    ensures
        r.len() == 0 ==> tasks_view(r) == Seq::<AppletTaskView>::empty(),
        r.len() == 1 ==> tasks_view(r) == seq![r[0]@],
        r.len() == 2 ==> tasks_view(r) == seq![r[0]@, r[1]@],
{
    if r.len() == 0 {
        assert(tasks_view(r) =~= Seq::<AppletTaskView>::empty());
    }
    if r.len() == 1 {
        assert(tasks_view(r) =~= seq![r[0]@]);
    }
    if r.len() == 2 {
        assert(tasks_view(r) =~= seq![r[0]@, r[1]@]);
    }
}

// ---------------------------------------------------------------------------
// Laws
// ---------------------------------------------------------------------------

/// Toggling a collapsed device card twice expands it and collapses it
/// again, back to the state before.
pub proof fn law_menu_toggle_twice(
    s: AppletView,
    a: String,
    b: String,
    f1: u64,
    f2: u64,
    n1: AppletView,
    t1: Seq<AppletTaskView>,
    n2: AppletView,
    t2: Seq<AppletTaskView>,
)
    requires
        s.expanded is None,
        a@ == b@,
        applet_step(s, Message::ToggleDeviceMenu(a), f1, n1, t1),
        applet_step(n1, Message::ToggleDeviceMenu(b), f2, n2, t2),
    ensures
        n1.expanded == Some(a@),
        t1 == seq![AppletTaskView::RequestRunCommands(a@)],
        n2 == s,
        t2 == Seq::<AppletTaskView>::empty(),
{
}

/// Clicking the card of a device while another device's card is expanded
/// expands the clicked card in its place and asks for its commands.
pub proof fn law_toggle_other_card_opens_it(
    s: AppletView,
    id: String,
    fresh: u64,
    n: AppletView,
    t: Seq<AppletTaskView>,
)
    requires
        applet_step(s, Message::ToggleDeviceMenu(id), fresh, n, t),
        s.expanded matches Some(e) && e != id@,
    ensures
        n.expanded == Some(id@),
        t == seq![AppletTaskView::RequestRunCommands(id@)],
        n.devices == s.devices && n.requests == s.requests && n.popup == s.popup,
{
}

/// Toggling a closed popup twice opens it on a fresh surface and then
/// destroys that same surface, leaving it closed.
pub proof fn law_popup_toggle_twice(
    s: AppletView,
    f1: u64,
    f2: u64,
    n1: AppletView,
    t1: Seq<AppletTaskView>,
    n2: AppletView,
    t2: Seq<AppletTaskView>,
)
    requires
        s.popup is None,
        applet_step(s, Message::TogglePopup, f1, n1, t1),
        applet_step(n1, Message::TogglePopup, f2, n2, t2),
    ensures
        t1 == seq![AppletTaskView::OpenPopup(f1), AppletTaskView::FetchDevices],
        t2 == seq![AppletTaskView::DestroyPopup(f1)],
        n2 == s,
{
}

/// A pairing request is pending from its arrival until it is answered,
/// either way; answering it asks the service to accept or reject it.
pub proof fn law_pairing_request_answered(
    s: AppletView,
    id: String,
    name: String,
    kind: String,
    answer: String,
    accept: bool,
    f1: u64,
    f2: u64,
    n1: AppletView,
    t1: Seq<AppletTaskView>,
    n2: AppletView,
    t2: Seq<AppletTaskView>,
)
    requires
        answer@ == id@,
        applet_step(s, Message::PairingRequestReceived(id, name, kind), f1, n1, t1),
        applet_step(
            n1,
            if accept {
                Message::AcceptPairing(answer)
            } else {
                Message::RejectPairing(answer)
            },
            f2,
            n2,
            t2,
        ),
    ensures
        n1.requests.contains_key(id@) && n1.requests[id@] == name@,
        n1.popup is Some,
        !n2.requests.contains_key(id@),
        n2.requests == s.requests.remove(id@),
        t2 == if accept {
            seq![AppletTaskView::AcceptPairing(id@)]
        } else {
            seq![AppletTaskView::RejectPairing(id@)]
        },
{
    assert(n2.requests =~= s.requests.remove(id@));
}

/// Every device of an updated list is known by its id afterwards, as the
/// last device of the list with that id.
pub proof fn law_devices_by_id(devs: Seq<Device>, i: int)
    requires
        0 <= i < devs.len(),
        forall|j: int| i < j < devs.len() ==> devs[j].id@ != devs[i].id@,
    ensures
        devices_by_id(devs).contains_key(devs[i].id@),
        devices_by_id(devs)[devs[i].id@] == devs[i],
    decreases devs.len(),
{
    if i < devs.len() - 1 {
        law_devices_by_id(devs.drop_last(), i);
    }
}

/// The pending pairing requests change only when a request arrives or is
/// answered.
pub proof fn law_requests_change_only_by_pairing(
    s: AppletView,
    msg: Message,
    fresh: u64,
    n: AppletView,
    t: Seq<AppletTaskView>,
)
    requires
        applet_step(s, msg, fresh, n, t),
        !(msg is PairingRequestReceived || msg is AcceptPairing || msg is RejectPairing),
    ensures
        n.requests == s.requests,
{
}

/// The popup opens or closes only when it is toggled or its window is
/// closed, or when a pairing request arrives while it is closed, which
/// opens it on the fresh surface.
pub proof fn law_popup_changes_only_by_popup_messages(
    s: AppletView,
    msg: Message,
    fresh: u64,
    n: AppletView,
    t: Seq<AppletTaskView>,
)
    requires
        applet_step(s, msg, fresh, n, t),
        n.popup != s.popup,
    ensures
        msg is TogglePopup || msg is PopupClosed || (msg is PairingRequestReceived && s.popup is None
            && n.popup == Some(fresh)),
{
}

/// The device list changes only with a new list, or for one known device:
/// its battery, signal, commands, or the transfer progress of the expanded
/// card. A device is never added or dropped but by a new list.
pub proof fn law_devices_change_only_by_reports(
    s: AppletView,
    msg: Message,
    fresh: u64,
    n: AppletView,
    t: Seq<AppletTaskView>,
)
    requires
        applet_step(s, msg, fresh, n, t),
        !(msg is DevicesUpdated),
    ensures
        n.devices.dom() == s.devices.dom(),
        forall|k: Seq<char>|
            #[trigger] n.devices.contains_key(k) && n.devices[k] != s.devices[k] ==> match msg {
                Message::BatteryUpdated(id, _, _) => k == id@,
                Message::ConnectivityUpdated(id, _) => k == id@,
                Message::RunCommandsReceived(id, _) => k == id@,
                Message::UpdateTransferProgress(_) => s.expanded == Some(k),
                _ => false,
            },
{
    if let (Message::UpdateTransferProgress(_), Some(_)) = (msg, s.expanded) {
        assert(n.devices.dom() =~= s.devices.dom());
    }
}

// ---------------------------------------------------------------------------
// Popup lists
// ---------------------------------------------------------------------------

/// Names (second components) in non-decreasing order.
pub open spec fn sorted_by_name(v: Seq<(String, String)>) -> bool {
    forall|i: int, j: int| 0 <= i < j < v.len() ==> !seq_lt(v[j].1@, v[i].1@)
}

/// The items of `v` (whose ids are distinct), ordered by name.
pub fn sort_by_name(v: Vec<(String, String)>) -> (r: Vec<(String, String)>)
    requires
        keys_distinct(v@),
    ensures
        r@.len() == v@.len(),
        forall|i: int| 0 <= i < r@.len() ==> v@.contains(#[trigger] r@[i]),
        keys_distinct(r@),
        sorted_by_name(r@),
{
    let ghost orig = v@;
    let mut src = v;
    let mut r: Vec<(String, String)> = Vec::new();
    let mut i: usize = 0;
    let total = src.len();
    while src.len() > 0
        invariant
            orig.len() == total,
            keys_distinct(orig),
            i + src@.len() == orig.len(),
            src@ == orig.skip(i as int),
            r@.len() == i,
            forall|x: int| 0 <= x < r@.len() ==> exists|j: int| 0 <= j < i && #[trigger] r@[x] == orig[j],
            keys_distinct(r@),
            sorted_by_name(r@),
        decreases src.len(),
    {
        let e = src.remove(0);
        assert(e == orig[i as int]);
        let name = chars_of(e.1.as_str());
        let mut p: usize = 0;
        while p < r.len() && !chars_lt(&name, &chars_of(r[p].1.as_str()))
            invariant
                p <= r@.len(),
                name@ == e.1@,
                forall|k: int| 0 <= k < p ==> !seq_lt(e.1@, r@[k].1@),
            decreases r.len() - p,
        {
            p += 1;
        }
        let ghost old_r = r@;
        proof {
            assert forall|x: int| 0 <= x < old_r.len() implies old_r[x].0@ != e.0@ by {
                let j = choose|j: int| 0 <= j < i && old_r[x] == orig[j];
                assert(orig[j].0@ != orig[i as int].0@);
            }
        }
        r.insert(p, e);
        proof {
            let nr = r@;
            assert(nr.len() == old_r.len() + 1);
            assert forall|x: int| 0 <= x < nr.len() implies exists|j: int|
                0 <= j < i + 1 && #[trigger] nr[x] == orig[j] by {
                if x < p {
                    assert(nr[x] == old_r[x]);
                    let j = choose|j: int| 0 <= j < i && old_r[x] == orig[j];
                } else if x == p {
                    assert(nr[x] == orig[i as int]);
                } else {
                    assert(nr[x] == old_r[x - 1]);
                    let j = choose|j: int| 0 <= j < i && old_r[x - 1] == orig[j];
                }
            }
            assert forall|a: int, b: int| 0 <= a < b < nr.len() implies nr[a].0@ != nr[b].0@ by {
                if a < p && b < p {
                    assert(nr[a] == old_r[a] && nr[b] == old_r[b]);
                } else if a < p && b == p {
                    assert(nr[a] == old_r[a]);
                } else if a < p {
                    assert(nr[a] == old_r[a] && nr[b] == old_r[b - 1]);
                } else if a == p {
                    assert(nr[b] == old_r[b - 1]);
                } else {
                    assert(nr[a] == old_r[a - 1] && nr[b] == old_r[b - 1]);
                }
            }
            assert forall|a: int, b: int| 0 <= a < b < nr.len() implies !seq_lt(nr[b].1@, nr[a].1@) by {
                if b < p {
                    assert(nr[a] == old_r[a] && nr[b] == old_r[b]);
                } else if b == p {
                    assert(nr[a] == old_r[a]);
                    lemma_seq_lt_total(e.1@, old_r[a].1@);
                } else {
                    assert(nr[b] == old_r[b - 1]);
                    if a == p {
                        let q = old_r[p as int].1@;
                        let z = old_r[b - 1].1@;
                        assert(seq_lt(e.1@, q));
                        lemma_seq_lt_total(q, z);
                        lemma_seq_lt_total(e.1@, z);
                        if q != z {
                            lemma_seq_lt_transitive(e.1@, q, z);
                        }
                    } else if a < p {
                        assert(nr[a] == old_r[a]);
                    } else {
                        assert(nr[a] == old_r[a - 1]);
                    }
                }
            }
            assert(src@ =~= orig.skip(i + 1));
        }
        i += 1;
    }
    proof {
        assert forall|x: int| 0 <= x < r@.len() implies orig.contains(#[trigger] r@[x]) by {
            let j = choose|j: int| 0 <= j < i && r@[x] == orig[j];
        }
    }
    r
}

impl KdeConnectApplet {
    /// The pending pairing requests, (device id, device name), by name.
    pub fn pending_requests_by_name(&self) -> (r: Vec<(String, String)>)
        ensures
            r@.len() == self@.requests.dom().len(),
            forall|i: int|
                0 <= i < r@.len() ==> self@.requests.contains_key(#[trigger] r@[i].0@)
                    && self@.requests[r@[i].0@] == r@[i].1@,
            forall|k: Seq<char>|
                #[trigger] self@.requests.contains_key(k) ==> exists|i: int|
                    0 <= i < r@.len() && r@[i].0@ == k,
            keys_distinct(r@),
            sorted_by_name(r@),
    {
        let entries = self.pairing_requests.entries();
        proof {
            crate::strmap::lemma_entries_map(entries@);
        }
        let mut v: Vec<(String, String)> = Vec::new();
        let mut i: usize = 0;
        while i < entries.len()
            invariant
                i <= entries@.len(),
                v@ == entries@.take(i as int),
            decreases entries.len() - i,
        {
            v.push((entries[i].0.clone(), entries[i].1.clone()));
            assert(v@ =~= entries@.take(i + 1));
            i += 1;
        }
        assert(v@ =~= entries@);
        let r = sort_by_name(v);
        proof {
            assert(self@.requests.dom() =~= self.pairing_requests@.dom());
            assert forall|i: int|
                0 <= i < r@.len() implies self@.requests.contains_key(#[trigger] r@[i].0@)
                && self@.requests[r@[i].0@] == r@[i].1@ by {
                let j = choose|j: int| 0 <= j < entries@.len() && entries@[j] == r@[i];
                assert(crate::strmap::key_of(entries@[j]) == r@[i].0@);
            }
            assert forall|k: Seq<char>| #[trigger] self@.requests.contains_key(k) implies exists|i: int|
                0 <= i < r@.len() && r@[i].0@ == k by {
                assert(self.pairing_requests@.contains_key(k));
                let y = choose|y: int| 0 <= y < entries@.len() && crate::strmap::key_of(entries@[y]) == k;
                lemma_sorted_covers(entries@, r@, y);
            }
        }
        r
    }

    /// The paired devices, (device id, device name), by name.
    pub fn paired_devices_by_name(&self) -> (r: Vec<(String, String)>)
        ensures
            forall|i: int|
                0 <= i < r@.len() ==> self@.devices.contains_key(#[trigger] r@[i].0@)
                    && self@.devices[r@[i].0@].is_paired && self@.devices[r@[i].0@].name@
                    == r@[i].1@,
            forall|k: Seq<char>|
                self@.devices.contains_key(k) && #[trigger] self@.devices[k].is_paired ==> exists|i: int|
                    0 <= i < r@.len() && r@[i].0@ == k,
            keys_distinct(r@),
            sorted_by_name(r@),
    {
        let entries = self.devices.entries();
        proof {
            crate::strmap::lemma_entries_map(entries@);
        }
        let mut v: Vec<(String, String)> = Vec::new();
        let mut i: usize = 0;
        assert(entries@.take(0) =~= Seq::<(String, Device)>::empty());
        assert(pairs_view(v@) =~= Seq::<(Seq<char>, Seq<char>)>::empty());
        while i < entries.len()
            invariant
                i <= entries@.len(),
                pairs_view(v@) == paired_list(entries@.take(i as int)),
            decreases entries.len() - i,
        {
            proof {
                assert(entries@.take(i + 1).drop_last() =~= entries@.take(i as int));
            }
            if entries[i].1.is_paired {
                let ghost old_v = v@;
                v.push((entries[i].0.clone(), entries[i].1.name.clone()));
                assert(pairs_view(v@) =~= pairs_view(old_v).push((entries@[i as int].0@, entries@[i as int].1.name@)));
            }
            i += 1;
        }
        assert(entries@.take(i as int) =~= entries@);
        proof {
            lemma_paired_list(entries@);
            assert forall|a: int, b: int| 0 <= a < b < v@.len() implies crate::strmap::key_of(v@[a])
                != crate::strmap::key_of(v@[b]) by {
                assert(pairs_view(v@)[a].0 == v@[a].0@);
                assert(pairs_view(v@)[b].0 == v@[b].0@);
            }
        }
        let ghost vv = v@;
        let r = sort_by_name(v);
        proof {
            assert forall|x: int|
                0 <= x < r@.len() implies self@.devices.contains_key(#[trigger] r@[x].0@)
                && self@.devices[r@[x].0@].is_paired && self@.devices[r@[x].0@].name@ == r@[x].1@ by {
                let y = choose|y: int| 0 <= y < vv.len() && vv[y] == r@[x];
                assert(pairs_view(vv)[y] == (vv[y].0@, vv[y].1@));
                let j = paired_source(entries@, y);
                assert(crate::strmap::key_of(entries@[j]) == r@[x].0@);
            }
            assert forall|k: Seq<char>|
                self@.devices.contains_key(k) && #[trigger] self@.devices[k].is_paired implies exists|i: int|
                0 <= i < r@.len() && r@[i].0@ == k by {
                let j = choose|j: int| 0 <= j < entries@.len() && crate::strmap::key_of(entries@[j]) == k;
                assert(self@.devices[crate::strmap::key_of(entries@[j])] == entries@[j].1);
                let y = choose|y: int| 0 <= y < vv.len() && #[trigger] paired_list(entries@)[y].0 == entries@[j].0@;
                assert(pairs_view(vv)[y].0 == vv[y].0@);
                lemma_sorted_covers(vv, r@, y);
            }
        }
        r
    }
}

/// (id, name) of each paired device among `es`, in order.
pub open spec fn paired_list(es: Seq<(String, Device)>) -> Seq<(Seq<char>, Seq<char>)>
    decreases es.len(),
{
    if es.len() == 0 {
        Seq::empty()
    } else {
        let rest = paired_list(es.drop_last());
        if es.last().1.is_paired {
            rest.push((es.last().0@, es.last().1.name@))
        } else {
            rest
        }
    }
}

/// Where in `es` the `x`-th item of `paired_list(es)` comes from.
pub open spec fn paired_source(es: Seq<(String, Device)>, x: int) -> int
    decreases es.len(),
{
    if es.len() == 0 {
        0
    } else if x < paired_list(es.drop_last()).len() {
        paired_source(es.drop_last(), x)
    } else {
        es.len() - 1
    }
}

proof fn lemma_paired_list_sound(es: Seq<(String, Device)>)
    ensures
        forall|x: int|
            0 <= x < paired_list(es).len() ==> {
                let j = #[trigger] paired_source(es, x);
                &&& 0 <= j < es.len()
                &&& es[j].1.is_paired
                &&& paired_list(es)[x].0 == es[j].0@
                &&& paired_list(es)[x].1 == es[j].1.name@
            },
    decreases es.len(),
{
    if es.len() > 0 {
        let t = es.drop_last();
        lemma_paired_list_sound(t);
        let pt = paired_list(t);
        let p = paired_list(es);
        assert forall|x: int| 0 <= x < p.len() implies {
            let j = #[trigger] paired_source(es, x);
            &&& 0 <= j < es.len()
            &&& es[j].1.is_paired
            &&& p[x].0 == es[j].0@
            &&& p[x].1 == es[j].1.name@
        } by {
            if x < pt.len() {
                assert(p[x] == pt[x]);
                let j = paired_source(t, x);
                assert(t[j] == es[j]);
            }
        }
    }
}

proof fn lemma_paired_list_complete(es: Seq<(String, Device)>)
    ensures
        forall|j: int| 0 <= j < es.len() && #[trigger] es[j].1.is_paired ==> exists|x: int|
            0 <= x < paired_list(es).len() && #[trigger] paired_list(es)[x].0 == es[j].0@,
    decreases es.len(),
{
    if es.len() > 0 {
        let t = es.drop_last();
        lemma_paired_list_complete(t);
        let pt = paired_list(t);
        let p = paired_list(es);
        let n = es.len() - 1;
        assert forall|j: int| 0 <= j < es.len() && #[trigger] es[j].1.is_paired implies exists|x: int|
            0 <= x < p.len() && #[trigger] p[x].0 == es[j].0@ by {
            if j < n {
                assert(t[j] == es[j]);
                assert(t[j].1.is_paired);
                let x = choose|x: int| 0 <= x < pt.len() && #[trigger] pt[x].0 == t[j].0@;
                assert(p[x] == pt[x]);
            } else {
                assert(p[p.len() - 1].0 == es[j].0@);
            }
        }
    }
}

proof fn lemma_paired_list_distinct(es: Seq<(String, Device)>)
    requires
        keys_distinct(es),
    ensures
        forall|a: int, b: int|
            0 <= a < b < paired_list(es).len() ==> paired_list(es)[a].0 != paired_list(es)[b].0,
    decreases es.len(),
{
    if es.len() > 0 {
        let t = es.drop_last();
        assert(keys_distinct(t));
        lemma_paired_list_distinct(t);
        lemma_paired_list_sound(t);
        let pt = paired_list(t);
        let p = paired_list(es);
        let n = es.len() - 1;
        assert forall|a: int, b: int| 0 <= a < b < p.len() implies p[a].0 != p[b].0 by {
            if b < pt.len() {
                assert(p[a] == pt[a] && p[b] == pt[b]);
            } else {
                assert(p[a] == pt[a]);
                let j = paired_source(t, a);
                assert(t[j] == es[j]);
                assert(crate::strmap::key_of(es[j]) != crate::strmap::key_of(es[n]));
            }
        }
    }
}

proof fn lemma_paired_list(es: Seq<(String, Device)>)
    requires
        keys_distinct(es),
    ensures
        forall|x: int|
            0 <= x < paired_list(es).len() ==> {
                let j = #[trigger] paired_source(es, x);
                &&& 0 <= j < es.len()
                &&& es[j].1.is_paired
                &&& paired_list(es)[x].0 == es[j].0@
                &&& paired_list(es)[x].1 == es[j].1.name@
            },
        forall|j: int| 0 <= j < es.len() && #[trigger] es[j].1.is_paired ==> exists|x: int|
            0 <= x < paired_list(es).len() && #[trigger] paired_list(es)[x].0 == es[j].0@,
        forall|a: int, b: int|
            0 <= a < b < paired_list(es).len() ==> paired_list(es)[a].0 != paired_list(es)[b].0,
{
    lemma_paired_list_sound(es);
    lemma_paired_list_complete(es);
    lemma_paired_list_distinct(es);
}

/// A list of distinct keys and an equally long list of its items with
/// distinct keys hold the same keys.
proof fn lemma_sorted_covers(v: Seq<(String, String)>, r: Seq<(String, String)>, y: int)
    requires
        0 <= y < v.len(),
        r.len() == v.len(),
        forall|i: int| 0 <= i < r.len() ==> v.contains(#[trigger] r[i]),
        keys_distinct(r),
        keys_distinct(v),
    ensures
        exists|i: int| 0 <= i < r.len() && r[i].0@ == v[y].0@,
{
    // map each position of r to the position of v holding its item
    let f = |i: int| choose|j: int| 0 <= j < v.len() && v[j] == r[i];
    assert forall|i: int| 0 <= i < r.len() implies 0 <= #[trigger] f(i) < v.len() && v[f(i)]
        == r[i] by {
        assert(v.contains(r[i]));
    }
    assert forall|a: int, b: int| 0 <= a < r.len() && 0 <= b < r.len() && a != b implies #[trigger] f(
        a,
    ) != #[trigger] f(b) by {
        if f(a) == f(b) {
            assert(r[a] == r[b]);
            if a < b {
                assert(crate::strmap::key_of(r[a]) != crate::strmap::key_of(r[b]));
            } else {
                assert(crate::strmap::key_of(r[b]) != crate::strmap::key_of(r[a]));
            }
        }
    }
    lemma_injection_onto(f, r.len() as int, y);
    let i = choose|i: int| 0 <= i < r.len() && #[trigger] f(i) == y;
    assert(r[i] == v[y]);
}

/// An injection from `0..n` into `0..n` reaches every value.
proof fn lemma_injection_onto(f: spec_fn(int) -> int, n: int, y: int)
    requires
        0 <= y < n,
        forall|i: int| 0 <= i < n ==> 0 <= #[trigger] f(i) < n,
        forall|a: int, b: int| 0 <= a < n && 0 <= b < n && a != b ==> #[trigger] f(a) != #[trigger] f(b),
    ensures
        exists|i: int| 0 <= i < n && #[trigger] f(i) == y,
{
    if !(exists|i: int| 0 <= i < n && #[trigger] f(i) == y) {
        let s = Set::new(|j: int| exists|i: int| 0 <= i < n && #[trigger] f(i) == j);
        let full = vstd::set_lib::set_int_range(0, n).remove(y);
        assert(s.subset_of(full));
        vstd::set_lib::lemma_int_range(0, n);
        lemma_image_len(f, n);
        vstd::set_lib::lemma_len_subset(s, full);
    }
}

proof fn lemma_image_len(f: spec_fn(int) -> int, n: int)
    requires
        n >= 0,
        forall|a: int, b: int| 0 <= a < n && 0 <= b < n && a != b ==> #[trigger] f(a) != #[trigger] f(b),
    ensures
        Set::new(|j: int| exists|i: int| 0 <= i < n && #[trigger] f(i) == j).finite(),
        Set::new(|j: int| exists|i: int| 0 <= i < n && #[trigger] f(i) == j).len() == n,
    decreases n,
{
    let s = Set::new(|j: int| exists|i: int| 0 <= i < n && #[trigger] f(i) == j);
    if n == 0 {
        assert(s =~= Set::empty());
    } else {
        lemma_image_len(f, n - 1);
        let t = Set::new(|j: int| exists|i: int| 0 <= i < n - 1 && #[trigger] f(i) == j);
        assert(s =~= t.insert(f(n - 1)));
        assert(!t.contains(f(n - 1)));
    }
}

} // verus!
