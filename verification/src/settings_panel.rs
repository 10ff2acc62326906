//! What the settings window's device profile shows for the selected
//! device: the quick-action buttons, whether it can be unpaired, the entry
//! to the desktop commands, and one toggle per implemented plugin.

use crate::json::{json_get, JsonValue};
use crate::device::{find_device, first_with_id, lemma_first_with_id, Device};
use crate::settings::{
    implemented_plugins, plugin_catalog, plugin_enabled_in, plugin_ids, QuickMessages,
    SettingsApp, SettingsView,
};
use vstd::prelude::*;

verus! {

broadcast use vstd::string::group_string_axioms;

pub enum QuickView {
    Ping(Seq<char>),
    FindMyPhone(Seq<char>),
    ShareClipboard(Seq<char>),
    Sms(Seq<char>),
    SendFiles(Seq<char>),
    BrowseDevice(Seq<char>),
    UmountDevice(Seq<char>),
}

impl View for QuickMessages {
    type V = QuickView;

    open spec fn view(&self) -> QuickView {
        match self {
            QuickMessages::Ping(d) => QuickView::Ping(d@),
            QuickMessages::FindMyPhone(d) => QuickView::FindMyPhone(d@),
            QuickMessages::ShareCliphboard(d) => QuickView::ShareClipboard(d@),
            QuickMessages::SMS(d) => QuickView::Sms(d@),
            QuickMessages::SendFiles(d) => QuickView::SendFiles(d@),
            QuickMessages::BrowseDevice(d) => QuickView::BrowseDevice(d@),
            QuickMessages::UmountDevice(d) => QuickView::UmountDevice(d@),
        }
    }
}

pub open spec fn quick_view(v: Seq<QuickMessages>) -> Seq<QuickView> {
    v.map_values(|q: QuickMessages| q@)
}

/// `s` when `c` holds, else nothing.
pub open spec fn when(c: bool, s: Seq<QuickView>) -> Seq<QuickView> {
    if c {
        s
    } else {
        Seq::empty()
    }
}

/// The quick-action buttons for device `d`, each shown when its plugin is
/// enabled: ping, find the phone, share the clipboard, SMS, send files,
/// and browse the files (unmount them, when they are mounted).
pub open spec fn quick_buttons(s: SettingsView, d: Device) -> Seq<QuickView> {
    when(plugin_enabled_in(s, "ping"@), seq![QuickView::Ping(d.id@)])
        + when(plugin_enabled_in(s, "findmyphone"@), seq![QuickView::FindMyPhone(d.id@)])
        + when(plugin_enabled_in(s, "clipboard"@), seq![QuickView::ShareClipboard(d.id@)])
        + when(plugin_enabled_in(s, "sms"@), seq![QuickView::Sms(d.id@)])
        + when(plugin_enabled_in(s, "share"@), seq![QuickView::SendFiles(d.id@)])
        + when(plugin_enabled_in(s, "share"@), seq![
            if d.is_mounted {
                QuickView::UmountDevice(d.id@)
            } else {
                QuickView::BrowseDevice(d.id@)
            },
        ])
}

/// Each implemented plugin with whether it is enabled on the selected device.
pub open spec fn plugin_toggles(s: SettingsView) -> Seq<(Seq<char>, bool)> {
    plugin_ids().map_values(|id: Seq<char>| (id, plugin_enabled_in(s, id)))
}

/// The profile page of the selected device.
pub struct PluginPanel {
    /// Index of the selected device in the device list.
    pub device: usize,
    /// A paired device offers to unpair.
    pub show_unpair: bool,
    /// A paired device with the run-command plugin enabled links to the
    /// desktop commands.
    pub show_commands_entry: bool,
    pub quick_actions: Vec<QuickMessages>,
    /// (plugin id, enabled) for each implemented plugin; only for a paired
    /// device.
    pub toggles: Vec<(String, bool)>,
}

fn push_when(v: &mut Vec<QuickMessages>, c: bool, q: QuickMessages)
    ensures
        quick_view(final(v)@) == quick_view(old(v)@) + when(c, seq![q@]),
{
    let ghost before = v@;
    if c {
        v.push(q);
        assert(quick_view(v@) =~= quick_view(before) + seq![q@]);
    } else {
        assert(quick_view(v@) =~= quick_view(before) + Seq::<QuickView>::empty());
    }
}

impl SettingsApp {
    /// The quick-action buttons for `device`, in the order they are shown.
    pub fn quick_action_buttons(&self, device: &Device) -> (r: Vec<QuickMessages>)
        ensures
            quick_view(r@) == quick_buttons(self@, *device),
    {
        let mut r: Vec<QuickMessages> = Vec::new();
        let id = &device.id;
        push_when(&mut r, self.plugin_enabled("ping"), QuickMessages::Ping(id.clone()));
        push_when(&mut r, self.plugin_enabled("findmyphone"), QuickMessages::FindMyPhone(id.clone()));
        push_when(&mut r, self.plugin_enabled("clipboard"), QuickMessages::ShareCliphboard(id.clone()));
        push_when(&mut r, self.plugin_enabled("sms"), QuickMessages::SMS(id.clone()));
        let share = self.plugin_enabled("share");
        push_when(&mut r, share, QuickMessages::SendFiles(id.clone()));
        let browse = if device.is_mounted {
            QuickMessages::UmountDevice(id.clone())
        } else {
            QuickMessages::BrowseDevice(id.clone())
        };
        push_when(&mut r, share, browse);
        r
    }

    /// Each implemented plugin with whether it is enabled, in catalogue order.
    pub fn plugin_toggle_states(&self) -> (r: Vec<(String, bool)>)
        ensures
            r@.map_values(|t: (String, bool)| (t.0@, t.1)) == plugin_toggles(self@),
    {
        let plugins = implemented_plugins();
        let mut r: Vec<(String, bool)> = Vec::new();
        let mut i: usize = 0;
        while i < plugins.len()
            invariant
                i <= plugins@.len(),
                plugins@.len() == plugin_catalog().len(),
                forall|k: int| 0 <= k < plugins@.len() ==> (#[trigger] plugins@[k]).id@ == plugin_ids()[k],
                r@.map_values(|t: (String, bool)| (t.0@, t.1)) == plugin_toggles(self@).take(i as int),
            decreases plugins.len() - i,
        {
            let ghost before = r@;
            let id = plugins[i].id;
            let enabled = self.plugin_enabled(id);
            r.push((id.to_string(), enabled));
            assert(r@.map_values(|t: (String, bool)| (t.0@, t.1)) =~= before.map_values(
                |t: (String, bool)| (t.0@, t.1),
            ).push((id@, enabled)));
            assert(plugin_toggles(self@).take(i + 1) =~= plugin_toggles(self@).take(i as int).push(
                plugin_toggles(self@)[i as int],
            ));
            i += 1;
        }
        assert(plugin_toggles(self@).take(i as int) =~= plugin_toggles(self@));
        r
    }

    /// The profile page of the selected device; none when no device is
    /// selected or the selected one is not in the list.
    pub fn plugin_panel(&self) -> (r: Option<PluginPanel>)
        ensures
            match self@.selected {
                Some(sel) => match first_with_id(self@.devices, sel) {
                    Some(i) => r matches Some(p) && {
                        let d = self@.devices[i];
                        &&& p.device == i
                        &&& p.show_unpair == d.is_paired
                        &&& p.show_commands_entry == (d.is_paired && plugin_enabled_in(self@, "runcommand"@))
                        &&& quick_view(p.quick_actions@) == quick_buttons(self@, d)
                        &&& p.toggles@.map_values(|t: (String, bool)| (t.0@, t.1)) == if d.is_paired {
                            plugin_toggles(self@)
                        } else {
                            Seq::empty()
                        }
                    },
                    None => r is None,
                },
                None => r is None,
            },
    {
        let sel = match &self.selected_device {
            Some(s) => s,
            None => {
                return None;
            },
        };
        let i = match find_device(&self.devices, sel.as_str()) {
            Some(i) => i,
            None => {
                return None;
            },
        };
        proof {
            lemma_first_with_id(self@.devices, sel@);
        }
        let d = &self.devices[i];
        let paired = d.is_paired;
        let show_commands_entry = paired && self.plugin_enabled("runcommand");
        let quick_actions = self.quick_action_buttons(d);
        let toggles = if paired {
            self.plugin_toggle_states()
        } else {
            let v: Vec<(String, bool)> = Vec::new();
            assert(v@.map_values(|t: (String, bool)| (t.0@, t.1)) =~= Seq::<(Seq<char>, bool)>::empty());
            v
        };
        Some(PluginPanel { device: i, show_unpair: paired, show_commands_entry, quick_actions, toggles })
    }
}

/// A string member of a command's JSON; empty when it is missing or not a
/// string.
pub open spec fn str_member(v: JsonValue, key: Seq<char>) -> Seq<char> {
    match json_get(v, key) {
        Some(JsonValue::Str(s)) => s@,
        _ => Seq::empty(),
    }
}

/// The row a desktop command gets in the commands list: (name, command, id).
pub open spec fn command_row(v: JsonValue) -> (Seq<char>, Seq<char>, Seq<char>) {
    (str_member(v, "name"@), str_member(v, "command"@), str_member(v, "id"@))
}

fn member_text(v: &JsonValue, key: &str) -> (r: String)
    ensures
        r@ == str_member(*v, key@),
{
    match v.get(key) {
        Some(m) => match m.as_str() {
            Some(t) => t.to_string(),
            None => String::new(),
        },
        None => String::new(),
    }
}

impl SettingsApp {
    /// The rows of the desktop commands list, in order: (name, command, id).
    pub fn command_rows(&self) -> (r: Vec<(String, String, String)>)
        ensures
            r@.map_values(|t: (String, String, String)| (t.0@, t.1@, t.2@))
                == self@.run_commands.map_values(|c: JsonValue| command_row(c)),
    {
        let mut r: Vec<(String, String, String)> = Vec::new();
        let mut i: usize = 0;
        while i < self.run_commands.len()
            invariant
                i <= self@.run_commands.len(),
                r@.map_values(|t: (String, String, String)| (t.0@, t.1@, t.2@))
                    == self@.run_commands.take(i as int).map_values(|c: JsonValue| command_row(c)),
            decreases self.run_commands.len() - i,
        {
            let ghost before = r@;
            let c = &self.run_commands[i];
            let row = (member_text(c, "name"), member_text(c, "command"), member_text(c, "id"));
            r.push(row);
            assert(self@.run_commands.take(i + 1) =~= self@.run_commands.take(i as int).push(*c));
            assert(r@.map_values(|t: (String, String, String)| (t.0@, t.1@, t.2@)) =~= before.map_values(
                |t: (String, String, String)| (t.0@, t.1@, t.2@),
            ).push(command_row(*c)));
            assert(r@.map_values(|t: (String, String, String)| (t.0@, t.1@, t.2@)) =~= self@.run_commands.take(
                i + 1,
            ).map_values(|c: JsonValue| command_row(c)));
            i += 1;
        }
        assert(self@.run_commands.take(i as int) =~= self@.run_commands);
        r
    }
}

impl SettingsApp {
    /// Whether the card of device `i` among the available devices offers to
    /// pair; while a pairing with it is in progress it shows a disabled
    /// "pairing" button instead.
    pub fn pair_offered(&self, i: usize) -> (r: bool)
        requires
            i < self@.devices.len(),
        ensures
            r == !(self@.pairing.contains_key(self@.devices[i as int].id@)
                && self@.pairing[self@.devices[i as int].id@]),
    {
        match self.pairing_in_progress.get(self.devices[i].id.as_str()) {
            Some(p) => !*p,
            None => true,
        }
    }
}

} // verus!
