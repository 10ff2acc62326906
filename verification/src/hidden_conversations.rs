//! Which SMS conversations the user has hidden on a device. The protocol
//! has no way to delete a conversation on the phone, so hiding is kept
//! locally, as a JSON array of thread ids per device.

use std::collections::HashSet;
use vstd::prelude::*;
use vstd::string::StringExecFns;

verus! {

broadcast use vstd::string::group_string_axioms;

/// The file, in the configuration directory, that holds the hidden
/// conversations of a device.
pub fn hidden_conversations_file_name(device_id: &str) -> (r: String)
    ensures
        r@ == device_id@ + "_hidden_conversations.json"@,
{
    let mut r: String = device_id.to_string();
    r.append("_hidden_conversations.json");
    r
}

/// The set of strings that `serde_json` reads from `text` as a
/// `HashSet<String>`; `None` when it reports an error.
pub uninterp spec fn json_string_set(text: Seq<char>) -> Option<Set<String>>;

/// Calls `serde_json::from_str::<HashSet<String>>`. Trusted: the outcome is
/// the name `json_string_set` of the text; JSON itself is not stated.
#[verifier::external_body]
fn parse_string_set(text: &str) -> (r: Option<HashSet<String>>)
    ensures
        match r {
            Some(s) => json_string_set(text@) == Some(s@),
            None => json_string_set(text@) is None,
        },
{
    serde_json::from_str::<HashSet<String>>(text).ok()
}

/// Calls `serde_json::to_string` on a set of strings. Trusted: it gives a
/// text (its documentation names as the only errors a `Serialize` impl that
/// fails, which `String`'s and `HashSet`'s do not, and a map with non-string
/// keys, which a set is not), and `serde_json` reads that text back as the
/// same set. The text itself is not stated: its order follows the hash
/// set's walk.
#[verifier::external_body]
fn string_set_json(set: &HashSet<String>) -> (r: Option<String>)
    ensures
        r is Some,
        r matches Some(t) ==> json_string_set(t@) == Some(set@),
{
    serde_json::to_string(set).ok()
}

/// The hidden thread ids that the file's contents hold; none when there is
/// no file or it does not hold a JSON array of strings.
pub open spec fn hidden_read(contents: Option<Seq<char>>) -> Set<String> {
    match contents {
        Some(t) => match json_string_set(t) {
            Some(s) => s,
            None => Set::empty(),
        },
        None => Set::empty(),
    }
}

/// The hidden thread ids read from the file's contents.
pub fn hidden_from_file(contents: Option<&str>) -> (r: HashSet<String>)
    ensures
        r@ == hidden_read(match contents {
            Some(t) => Some(t@),
            None => None,
        }),
{
    match contents {
        Some(t) => match parse_string_set(t) {
            Some(s) => s,
            None => HashSet::new(),
        },
        None => HashSet::new(),
    }
}

/// The file's contents for the hidden thread ids: always written, and what
/// is written reads back as the same set.
pub fn hidden_file_contents(hidden: &HashSet<String>) -> (r: Option<String>)
    ensures
        r is Some,
        r matches Some(t) ==> hidden_read(Some(t@)) == hidden@,
{
    string_set_json(hidden)
}

} // verus!
