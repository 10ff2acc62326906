//! The contacts plugin: reading the phone's contact lists out of packet
//! bodies, building the request for vCards, and decoding contact photos.

use base64::Engine;
use crate::json::{json_get, JsonValue};
use crate::sms_utils::{opt_string, vcard_contents};
use crate::strmap::StrMap;
use vstd::prelude::*;

verus! {

broadcast use vstd::string::group_string_axioms;

/// The string items of an array, in order; other items are skipped.
pub open spec fn string_items(items: Seq<JsonValue>) -> Seq<Seq<char>>
    decreases items.len(),
{
    if items.len() == 0 {
        Seq::empty()
    } else {
        let rest = string_items(items.drop_last());
        match items.last() {
            JsonValue::Str(s) => rest.push(s@),
            _ => rest,
        }
    }
}

/// The UIDs a body lists under `uids`; `None` when that member is missing
/// or is not an array.
pub open spec fn uids_of(body: JsonValue) -> Option<Seq<Seq<char>>> {
    match json_get(body, "uids"@) {
        Some(JsonValue::Array(items)) => Some(string_items(items@)),
        _ => None,
    }
}

fn uid_strings(body: &JsonValue) -> (r: Option<Vec<String>>)
    ensures
        match r {
            Some(v) => uids_of(*body) == Some(v@.map_values(|s: String| s@)),
            None => uids_of(*body) is None,
        },
{
    let items = match body.get("uids") {
        Some(v) => match v.as_array() {
            Some(a) => a,
            None => {
                return None;
            },
        },
        None => {
            return None;
        },
    };
    let mut out: Vec<String> = Vec::new();
    let mut i: usize = 0;
    assert(out@.map_values(|s: String| s@) =~= string_items(items@.take(0)));
    while i < items.len()
        invariant
            i <= items@.len(),
            out@.map_values(|s: String| s@) == string_items(items@.take(i as int)),
        decreases items.len() - i,
    {
        proof {
            assert(items@.take(i + 1).drop_last() =~= items@.take(i as int));
        }
        match items[i].as_str() {
            Some(t) => {
                let ghost before = out@;
                out.push(t.to_string());
                assert(out@.map_values(|s: String| s@) =~= before.map_values(|s: String| s@).push(
                    t@,
                ));
            },
            None => {},
        }
        i += 1;
    }
    assert(items@.take(i as int) =~= items@);
    Some(out)
}

/// Parses a `kdeconnect.contacts.response_uids_timestamps` packet body
/// and returns the list of UIDs (empty when the body has none).
pub fn parse_uids_timestamps(body: &JsonValue) -> (r: Vec<String>)
    ensures
        r@.map_values(|s: String| s@) == match uids_of(*body) {
            Some(u) => u,
            None => Seq::empty(),
        },
{
    match uid_strings(body) {
        Some(u) => u,
        None => {
            let v: Vec<String> = Vec::new();
            assert(v@.map_values(|s: String| s@) =~= Seq::<Seq<char>>::empty());
            v
        },
    }
}

/// The name and phone numbers of the vCard a body holds under `uid`, when
/// it holds one as a string and the card has a name.
pub open spec fn named_card(body: JsonValue, uid: Seq<char>) -> Option<(Seq<char>, Seq<Seq<char>>)> {
    match json_get(body, uid) {
        Some(JsonValue::Str(text)) => {
            let card = vcard_contents(text@);
            match card.0 {
                Some(name) => Some((name, card.1)),
                None => None,
            }
        },
        _ => None,
    }
}

/// `m` with each of `phones` mapped to `name`, in order.
pub open spec fn add_phones(
    m: Map<Seq<char>, Seq<char>>,
    phones: Seq<Seq<char>>,
    name: Seq<char>,
) -> Map<Seq<char>, Seq<char>>
    decreases phones.len(),
{
    if phones.len() == 0 {
        m
    } else {
        add_phones(m, phones.drop_last(), name).insert(phones.last(), name)
    }
}

/// The phone-to-name map built from the cards of `uids`, in order; a later
/// card wins for a number that two cards share.
pub open spec fn contacts_from(body: JsonValue, uids: Seq<Seq<char>>) -> Map<Seq<char>, Seq<char>>
    decreases uids.len(),
{
    if uids.len() == 0 {
        Map::empty()
    } else {
        let m = contacts_from(body, uids.drop_last());
        match named_card(body, uids.last()) {
            Some(card) => add_phones(m, card.1, card.0),
            None => m,
        }
    }
}

/// The contacts of a `kdeconnect.contacts.response_vcards` body; `None`
/// when it lists no `uids`.
pub open spec fn contacts_of(body: JsonValue) -> Option<Map<Seq<char>, Seq<char>>> {
    match uids_of(body) {
        Some(u) => Some(contacts_from(body, u)),
        None => None,
    }
}

/// Whether the card a body holds under `uid` has a name and lists `phone`.
pub open spec fn card_lists(body: JsonValue, uid: Seq<char>, phone: Seq<char>) -> bool {
    match json_get(body, uid) {
        Some(JsonValue::Str(t)) => vcard_contents(t@).0 is Some && vcard_contents(t@).1.contains(
            phone,
        ),
        _ => false,
    }
}

proof fn lemma_add_phones(m: Map<Seq<char>, Seq<char>>, ps: Seq<Seq<char>>, name: Seq<char>, p: Seq<char>)
    ensures
        add_phones(m, ps, name).contains_key(p) == (m.contains_key(p) || ps.contains(p)),
        ps.contains(p) ==> add_phones(m, ps, name)[p] == name,
        !ps.contains(p) && m.contains_key(p) ==> add_phones(m, ps, name)[p] == m[p],
    decreases ps.len(),
{
    if ps.len() > 0 {
        let t = ps.drop_last();
        lemma_add_phones(m, t, name, p);
        if ps.contains(p) && ps.last() != p {
            let k = choose|k: int| 0 <= k < ps.len() && ps[k] == p;
            assert(t[k] == p);
        }
        if t.contains(p) {
            let k = choose|k: int| 0 <= k < t.len() && t[k] == p;
            assert(ps[k] == p);
        }
        if ps.last() == p {
            assert(ps[ps.len() - 1] == p);
        }
    }
}

proof fn lemma_card_phone_kept(
    body: JsonValue,
    u: Seq<Seq<char>>,
    i: int,
    text: String,
    name: Seq<char>,
    phone: Seq<char>,
    n: int,
)
    requires
        0 <= i < n <= u.len(),
        json_get(body, u[i]) == Some(JsonValue::Str(text)),
        vcard_contents(text@).0 == Some(name),
        vcard_contents(text@).1.contains(phone),
    ensures
        contacts_from(body, u.take(n)).contains_key(phone),
        (forall|j: int| i < j < n ==> !card_lists(body, #[trigger] u[j], phone)) ==> contacts_from(
            body,
            u.take(n),
        )[phone] == name,
    decreases n,
{
    let t = u.take(n);
    assert(t.drop_last() =~= u.take(n - 1));
    assert(t.last() == u[n - 1]);
    let prev = contacts_from(body, u.take(n - 1));
    if n - 1 > i {
        lemma_card_phone_kept(body, u, i, text, name, phone, n - 1);
        match named_card(body, u[n - 1]) {
            Some(card) => {
                lemma_add_phones(prev, card.1, card.0, phone);
                if forall|j: int| i < j < n ==> !card_lists(body, #[trigger] u[j], phone) {
                    assert(!card_lists(body, u[n - 1], phone));
                }
            },
            None => {},
        }
    } else {
        assert(named_card(body, u[i]) == Some((name, vcard_contents(text@).1)));
        lemma_add_phones(prev, vcard_contents(text@).1, name, phone);
    }
}

/// Every phone number of a named card that a body lists is a key of the
/// contacts it gives, and maps to that card's name unless a card listed
/// later also has that number.
pub proof fn law_named_card_phones_are_contacts(
    body: JsonValue,
    i: int,
    text: String,
    name: Seq<char>,
    phone: Seq<char>,
)
    requires
        uids_of(body) matches Some(u) && 0 <= i < u.len() && json_get(body, u[i]) == Some(
            JsonValue::Str(text),
        ),
        vcard_contents(text@).0 == Some(name),
        vcard_contents(text@).1.contains(phone),
    ensures
        contacts_of(body) matches Some(m) && m.contains_key(phone),
        contacts_of(body) matches Some(m) && ((forall|j: int|
            i < j < uids_of(body)->0.len() ==> !card_lists(body, #[trigger] uids_of(body)->0[j], phone))
            ==> m[phone] == name),
{
    let u = uids_of(body)->0;
    assert(u.take(u.len() as int) =~= u);
    lemma_card_phone_kept(body, u, i, text, name, phone, u.len() as int);
}

pub open spec fn text_map(m: Map<Seq<char>, String>) -> Map<Seq<char>, Seq<char>> {
    m.map_values(|s: String| s@)
}

/// Parses a `kdeconnect.contacts.response_vcards` packet body into a
/// phone-number-to-name map, or `None` when it lists no `uids`.
pub fn parse_vcards(body: &JsonValue) -> (r: Option<StrMap<String>>)
    ensures
        match r {
            Some(m) => contacts_of(*body) == Some(text_map(m@)),
            None => contacts_of(*body) is None,
        },
{
    let uids = match uid_strings(body) {
        Some(u) => u,
        None => {
            return None;
        },
    };
    let ghost us = uids@.map_values(|s: String| s@);
    let mut contacts: StrMap<String> = StrMap::new();
    assert(text_map(contacts@) =~= Map::<Seq<char>, Seq<char>>::empty());
    let mut i: usize = 0;
    while i < uids.len()
        invariant
            i <= uids@.len(),
            us == uids@.map_values(|s: String| s@),
            text_map(contacts@) == contacts_from(*body, us.take(i as int)),
        decreases uids.len() - i,
    {
        proof {
            assert(us.take(i + 1).drop_last() =~= us.take(i as int));
            assert(us.take(i + 1).last() == uids@[i as int]@);
        }
        match body.get(uids[i].as_str()) {
            Some(v) => match v.as_str() {
                Some(text) => {
                    let (name, phones) = crate::sms_utils::parse_vcard(text);
                    match name {
                        Some(n) => {
                            let ghost base = text_map(contacts@);
                            let ghost ps = phones@.map_values(|p: String| p@);
                            let mut j: usize = 0;
                            assert(ps.take(0) =~= Seq::<Seq<char>>::empty());
                            while j < phones.len()
                                invariant
                                    j <= phones@.len(),
                                    ps == phones@.map_values(|p: String| p@),
                                    text_map(contacts@) == add_phones(
                                        base,
                                        ps.take(j as int),
                                        n@,
                                    ),
                                decreases phones.len() - j,
                            {
                                proof {
                                    assert(ps.take(j + 1).drop_last() =~= ps.take(j as int));
                                }
                                let ghost before = contacts@;
                                contacts.insert(phones[j].clone(), n.clone());
                                assert(text_map(contacts@) =~= text_map(before).insert(
                                    phones@[j as int]@,
                                    n@,
                                ));
                                j += 1;
                            }
                            assert(ps.take(j as int) =~= ps);
                        },
                        None => {},
                    }
                },
                None => {},
            },
            None => {},
        }
        i += 1;
    }
    assert(us.take(i as int) =~= us);
    Some(contacts)
}

/// A `kdeconnect.contacts.request_vcards_by_uid` body asking for `uids`:
/// an object with the single member `uids`, an array of those strings.
pub open spec fn is_vcards_request(v: JsonValue, uids: Seq<Seq<char>>) -> bool {
    match v {
        JsonValue::Object(members) => {
            &&& members@.len() == 1
            &&& members@[0].0@ == "uids"@
            &&& match members@[0].1 {
                JsonValue::Array(items) => {
                    &&& items@.len() == uids.len()
                    &&& forall|i: int|
                        0 <= i < uids.len() ==> (#[trigger] items@[i] matches JsonValue::Str(s)
                            && s@ == uids[i])
                },
                _ => false,
            }
        },
        _ => false,
    }
}

/// Builds the body for a `kdeconnect.contacts.request_vcards_by_uid` packet.
pub fn build_vcards_request(uids: Vec<String>) -> (r: JsonValue)
    ensures
        is_vcards_request(r, uids@.map_values(|s: String| s@)),
{
    let ghost us = uids@.map_values(|s: String| s@);
    let mut items: Vec<JsonValue> = Vec::new();
    let mut i: usize = 0;
    while i < uids.len()
        invariant
            i <= uids@.len(),
            us == uids@.map_values(|s: String| s@),
            items@.len() == i,
            forall|k: int|
                0 <= k < i ==> (#[trigger] items@[k] matches JsonValue::Str(s) && s@ == us[k]),
        decreases uids.len() - i,
    {
        items.push(JsonValue::Str(uids[i].clone()));
        i += 1;
    }
    let mut members: Vec<(String, JsonValue)> = Vec::new();
    members.push(("uids".to_string(), JsonValue::Array(items)));
    JsonValue::Object(members)
}

/// A request built for some UIDs lists exactly those UIDs when read back.
pub proof fn law_vcards_request_roundtrip(v: JsonValue, uids: Seq<Seq<char>>)
    requires
        is_vcards_request(v, uids),
    ensures
        uids_of(v) == Some(uids),
{
    match v {
        JsonValue::Object(members) => {
            crate::json::lemma_member_index(members@, "uids"@);
            assert(crate::json::member_index(members@, "uids"@) == Some(0int));
            match members@[0].1 {
                JsonValue::Array(items) => {
                    lemma_string_items_all(items@, uids);
                },
                _ => {},
            }
        },
        _ => {},
    }
}

proof fn lemma_string_items_all(items: Seq<JsonValue>, uids: Seq<Seq<char>>)
    requires
        items.len() == uids.len(),
        forall|i: int|
            0 <= i < uids.len() ==> (#[trigger] items[i] matches JsonValue::Str(s) && s@ == uids[i]),
    ensures
        string_items(items) == uids,
    decreases items.len(),
{
    if items.len() > 0 {
        let n = items.len() - 1;
        assert(items[n] matches JsonValue::Str(s) && s@ == uids[n]);
        lemma_string_items_all(items.drop_last(), uids.drop_last());
        assert(uids.drop_last().push(uids.last()) =~= uids);
    }
}

/// The same reading of a vCard as the SMS window's `parse_vcard`.
pub fn parse_vcard(content: &str) -> (r: (Option<String>, Vec<String>))
    ensures
        opt_string(r.0) == vcard_contents(content@).0,
        r.1@.map_values(|p: String| p@) == vcard_contents(content@).1,
{
    crate::sms_utils::parse_vcard(content)
}

// ---------------------------------------------------------------------------
// Contact photos
// ---------------------------------------------------------------------------

/// What the `base64` crate's `STANDARD` engine decodes `text` to; `None`
/// when it reports an error.
pub uninterp spec fn base64_standard_decoded(text: Seq<char>) -> Option<Seq<u8>>;

/// Calls `base64::engine::general_purpose::STANDARD.decode`. Trusted: the
/// outcome is the name `base64_standard_decoded` of the text; the decoding
/// itself is not stated.
#[verifier::external_body]
fn base64_standard_decode(text: &str) -> (r: Option<Vec<u8>>)
    ensures
        match r {
            Some(bytes) => base64_standard_decoded(text@) == Some(bytes@),
            None => base64_standard_decoded(text@) is None,
        },
{
    base64::engine::general_purpose::STANDARD.decode(text).ok()
}

/// Decodes a base64-encoded contact photo, or `None` on bad input.
pub fn decode_photo(base64_encoded: &str) -> (r: Option<Vec<u8>>)
    ensures
        match r {
            Some(bytes) => base64_standard_decoded(base64_encoded@) == Some(bytes@),
            None => base64_standard_decoded(base64_encoded@) is None,
        },
{
    base64_standard_decode(base64_encoded)
}

} // verus!
