//! Notifications forwarded from the phone.

use crate::sms_utils::opt_string;
use vstd::prelude::*;

verus! {

broadcast use vstd::string::group_string_axioms;

pub struct Notification {
    pub id: Option<String>,
    pub title: Option<String>,
    pub text: Option<String>,
    pub ticker: Option<String>,
    pub app_name: Option<String>,
    pub is_clearable: Option<bool>,
    pub silent: Option<bool>,
    pub request_reply_id: Option<String>,
    pub time: Option<String>,
    pub actions: Option<Vec<String>>,
    pub payload_hash: Option<String>,
}

impl Default for Notification {
    fn default() -> (r: Self)
        ensures
            r.id is None && r.title is None && r.text is None && r.ticker is None
                && r.app_name is None && r.is_clearable is None && r.silent is None
                && r.request_reply_id is None && r.time is None && r.actions is None
                && r.payload_hash is None,
    {
        Notification {
            id: None,
            title: None,
            text: None,
            ticker: None,
            app_name: None,
            is_clearable: None,
            silent: None,
            request_reply_id: None,
            time: None,
            actions: None,
            payload_hash: None,
        }
    }
}

/// What the desktop shows for a notification from the phone.
pub struct DesktopNotification {
    pub app_name: String,
    pub summary: String,
    pub body: String,
    pub actions: Vec<String>,
}

pub open spec fn strings_view(v: Seq<String>) -> Seq<Seq<char>> {
    v.map_values(|s: String| s@)
}

fn copy_strings(v: &Vec<String>) -> (r: Vec<String>)
    ensures
        strings_view(r@) == strings_view(v@),
{
    let mut r: Vec<String> = Vec::new();
    let mut i: usize = 0;
    while i < v.len()
        invariant
            i <= v@.len(),
            r@.len() == i,
            forall|k: int| 0 <= k < i ==> #[trigger] r@[k]@ == v@[k]@,
        decreases v.len() - i,
    {
        r.push(v[i].clone());
        i += 1;
    }
    assert(strings_view(r@) =~= strings_view(v@));
    r
}

impl Notification {
    /// The desktop notification for this one: shown only when it has both
    /// a title and a text; a missing app name reads as empty, missing
    /// actions as none.
    pub fn desktop_notification(&self) -> (r: Option<DesktopNotification>)
        ensures
            r is Some <==> (self.title is Some && self.text is Some),
            r matches Some(d) ==> {
                &&& Some(d.summary@) == opt_string(self.title)
                &&& Some(d.body@) == opt_string(self.text)
                &&& d.app_name@ == match self.app_name {
                    Some(a) => a@,
                    None => Seq::empty(),
                }
                &&& strings_view(d.actions@) == match self.actions {
                    Some(a) => strings_view(a@),
                    None => Seq::empty(),
                }
            },
    {
        let app_name = match &self.app_name {
            Some(a) => a.clone(),
            None => String::new(),
        };
        let title = match &self.title {
            Some(t) => t.clone(),
            None => {
                return None;
            },
        };
        let text = match &self.text {
            Some(t) => t.clone(),
            None => {
                return None;
            },
        };
        let actions = match &self.actions {
            Some(a) => copy_strings(a),
            None => {
                let v: Vec<String> = Vec::new();
                assert(strings_view(v@) =~= Seq::<Seq<char>>::empty());
                v
            },
        };
        Some(DesktopNotification { app_name, summary: title, body: text, actions })
    }
}

} // verus!
