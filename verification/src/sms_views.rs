//! The decisions behind the SMS window's views: previews, contact search,
//! contact lookup by phone number, and unread markers.

use crate::sms_utils::{format_timestamp, numbers_match, phone_numbers_match, relative_time};
use crate::strmap::StrMap;
use crate::text::{
    chars_of, contains_chars, contains_seq, has_prefix, lowercase, starts_with_chars,
    str_to_lowercase, string_of,
};
use vstd::prelude::*;

verus! {

broadcast use vstd::string::group_string_axioms;

pub struct Conversation {
    pub thread_id: String,
    pub phone_number: String,
    /// Time of the last message, in milliseconds.
    pub timestamp: i64,
    /// The phone's own read flag.
    pub unread: bool,
}

/// A contact photo, already cut round, as RGBA pixels.
pub struct Avatar {
    pub width: u32,
    pub height: u32,
    pub rgba: Vec<u8>,
}

/// What the SMS window knows that these decisions read.
pub struct SmsWindow {
    /// (phone number, name)
    pub contacts: Vec<(String, String)>,
    /// (phone number, photo)
    pub contact_photos: Vec<(String, Avatar)>,
    pub conversations: Vec<Conversation>,
    pub selected_thread: Option<String>,
    /// thread id -> time of the last message the user saw in this session
    pub last_seen_timestamp: StrMap<i64>,
    pub search_contact_query: String,
    /// The search field over the thread is open.
    pub search_field_active: bool,
}

/// Max characters shown in the conversation-list preview.
pub const PREVIEW_MAX_CHARS: usize = 50;

/// `s` when it has at most `max_chars` characters, else its first
/// `max_chars` characters followed by an ellipsis.
pub open spec fn preview_text(s: Seq<char>, max_chars: nat) -> Seq<char> {
    if s.len() <= max_chars {
        s
    } else {
        s.take(max_chars as int).push('\u{2026}')
    }
}

/// Truncates by character count and appends an ellipsis if anything was cut.
pub fn truncate_preview(s: &str, max_chars: usize) -> (r: String)
    ensures
        r@ == preview_text(s@, max_chars as nat),
{
    let cs = chars_of(s);
    if cs.len() <= max_chars {
        return string_of(&cs);
    }
    let mut out: Vec<char> = Vec::new();
    let mut i: usize = 0;
    while i < max_chars
        invariant
            i <= max_chars < cs@.len(),
            out@ == cs@.take(i as int),
        decreases max_chars - i,
    {
        out.push(cs[i]);
        i += 1;
    }
    out.push('\u{2026}');
    string_of(&out)
}

/// A preview holds at most `max_chars` characters of the text and the
/// ellipsis, and begins as the text does: the rows of the conversation
/// list take the same room whatever the length of the message.
pub proof fn law_preview_bounded(s: Seq<char>, max_chars: nat)
    ensures
        preview_text(s, max_chars).len() <= max_chars + 1,
        forall|i: int|
            0 <= i < s.len() && i < max_chars ==> #[trigger] preview_text(s, max_chars)[i] == s[i],
{
}

/// Whether a contact's number or name contains the query, ignoring case.
pub open spec fn contact_matches(contact: (String, String), query: Seq<char>) -> bool {
    contains_seq(lowercase(contact.0@), lowercase(query)) || contains_seq(
        lowercase(contact.1@),
        lowercase(query),
    )
}

/// Check if the query is found in the contact's number or name.
pub fn contact_match_query(contact: &(String, String), query: &str) -> (r: bool)
    ensures
        r == contact_matches(*contact, query@),
        query@.len() == 0 ==> r,
{
    let q = str_to_lowercase(query);
    let qs = chars_of(q.as_str());
    proof {
        if query@.len() == 0 {
            assert(q@ =~= Seq::<char>::empty());
        }
    }
    let number = str_to_lowercase(contact.0.as_str());
    proof {
        if query@.len() == 0 {
            assert(number@.subrange(0, 0 + qs@.len() as int) =~= qs@);
            assert(contains_seq(number@, qs@));
            assert(contact_matches(*contact, query@));
        }
    }
    if contains_chars(&chars_of(number.as_str()), &qs) {
        return true;
    }
    let name = str_to_lowercase(contact.1.as_str());
    contains_chars(&chars_of(name.as_str()), &qs)
}

pub open spec fn contact_pairs(v: Seq<(String, String)>) -> Seq<(Seq<char>, Seq<char>)> {
    v.map_values(|c: (String, String)| (c.0@, c.1@))
}

/// The contacts that match `query`, in order.
pub open spec fn matching_contacts(v: Seq<(String, String)>, query: Seq<char>) -> Seq<(Seq<char>, Seq<char>)>
    decreases v.len(),
{
    if v.len() == 0 {
        Seq::empty()
    } else {
        let rest = matching_contacts(v.drop_last(), query);
        if contact_matches(v.last(), query) {
            rest.push((v.last().0@, v.last().1@))
        } else {
            rest
        }
    }
}

/// The contacts matching the search query (all of them for an empty query).
pub fn filtered_contacts(app: &SmsWindow) -> (r: Vec<(String, String)>)
    ensures
        contact_pairs(r@) == matching_contacts(app.contacts@, app.search_contact_query@),
        app.search_contact_query@.len() == 0 ==> contact_pairs(r@) == contact_pairs(app.contacts@),
{
    let mut r: Vec<(String, String)> = Vec::new();
    let mut i: usize = 0;
    assert(app.contacts@.take(0) =~= Seq::<(String, String)>::empty());
    assert(contact_pairs(r@) =~= Seq::<(Seq<char>, Seq<char>)>::empty());
    while i < app.contacts.len()
        invariant
            i <= app.contacts@.len(),
            contact_pairs(r@) == matching_contacts(
                app.contacts@.take(i as int),
                app.search_contact_query@,
            ),
            app.search_contact_query@.len() == 0 ==> contact_pairs(r@) == contact_pairs(
                app.contacts@.take(i as int),
            ),
        decreases app.contacts.len() - i,
    {
        proof {
            assert(app.contacts@.take(i + 1).drop_last() =~= app.contacts@.take(i as int));
            assert(contact_pairs(app.contacts@.take(i + 1)) =~= contact_pairs(
                app.contacts@.take(i as int),
            ).push((app.contacts@[i as int].0@, app.contacts@[i as int].1@)));
        }
        let c = &app.contacts[i];
        if contact_match_query(c, app.search_contact_query.as_str()) {
            let ghost before = r@;
            r.push((c.0.clone(), c.1.clone()));
            assert(contact_pairs(r@) =~= contact_pairs(before).push((c.0@, c.1@)));
        }
        i += 1;
    }
    assert(app.contacts@.take(i as int) =~= app.contacts@);
    r
}

/// Index of the first entry whose number matches `phone`.
pub open spec fn first_number_match<T>(v: Seq<(String, T)>, phone: Seq<char>) -> Option<int>
    decreases v.len(),
{
    if v.len() == 0 {
        None
    } else if numbers_match(phone, v[0].0@) {
        Some(0)
    } else {
        match first_number_match(v.drop_first(), phone) {
            Some(i) => Some(i + 1),
            None => None,
        }
    }
}

proof fn lemma_first_number_match<T>(v: Seq<(String, T)>, phone: Seq<char>, i: int)
    requires
        0 <= i <= v.len(),
        i < v.len() ==> numbers_match(phone, v[i].0@),
        forall|j: int| 0 <= j < i ==> !numbers_match(phone, v[j].0@),
    ensures
        first_number_match(v, phone) == if i < v.len() {
            Some(i)
        } else {
            None
        },
    decreases v.len(),
{
    if v.len() > 0 && i > 0 {
        let rest = v.drop_first();
        assert forall|j: int| 0 <= j < i - 1 implies !numbers_match(phone, rest[j].0@) by {
            assert(rest[j] == v[j + 1]);
        }
        lemma_first_number_match(rest, phone, i - 1);
    }
}

fn find_number<T>(v: &Vec<(String, T)>, phone: &str) -> (r: Option<usize>)
    ensures
        r matches Some(i) ==> i < v@.len() && first_number_match(v@, phone@) == Some(i as int),
        r is None ==> first_number_match(v@, phone@) is None,
{
    let mut i: usize = 0;
    while i < v.len()
        invariant
            i <= v@.len(),
            forall|j: int| 0 <= j < i ==> !numbers_match(phone@, v@[j].0@),
        decreases v.len() - i,
    {
        if phone_numbers_match(phone, v[i].0.as_str()) {
            proof {
                lemma_first_number_match(v@, phone@, i as int);
            }
            return Some(i);
        }
        i += 1;
    }
    proof {
        lemma_first_number_match(v@, phone@, i as int);
    }
    None
}

/// The name of the first contact whose number matches `phone_number`.
pub fn get_contact_name(app: &SmsWindow, phone_number: &str) -> (r: Option<String>)
    ensures
        match first_number_match(app.contacts@, phone_number@) {
            Some(i) => r matches Some(n) && n@ == app.contacts@[i].1@,
            None => r is None,
        },
{
    match find_number(&app.contacts, phone_number) {
        Some(i) => Some(app.contacts[i].1.clone()),
        None => None,
    }
}

/// The photo of the first contact whose number matches `phone_number`.
pub fn get_contact_photo<'a>(app: &'a SmsWindow, phone_number: &str) -> (r: Option<&'a Avatar>)
    ensures
        match first_number_match(app.contact_photos@, phone_number@) {
            Some(i) => r == Some(&app.contact_photos@[i].1),
            None => r is None,
        },
{
    match find_number(&app.contact_photos, phone_number) {
        Some(i) => {
            let e = &app.contact_photos[i];
            assert(*e == app.contact_photos@[i as int]);
            Some(&e.1)
        },
        None => None,
    }
}

/// Index of the first conversation of the thread `thread_id`.
pub open spec fn conversation_index(v: Seq<Conversation>, thread_id: Seq<char>) -> Option<int>
    decreases v.len(),
{
    if v.len() == 0 {
        None
    } else if v[0].thread_id@ == thread_id {
        Some(0)
    } else {
        match conversation_index(v.drop_first(), thread_id) {
            Some(i) => Some(i + 1),
            None => None,
        }
    }
}

proof fn lemma_conversation_index(v: Seq<Conversation>, t: Seq<char>, i: int)
    requires
        0 <= i <= v.len(),
        i < v.len() ==> v[i].thread_id@ == t,
        forall|j: int| 0 <= j < i ==> v[j].thread_id@ != t,
    ensures
        conversation_index(v, t) == if i < v.len() {
            Some(i)
        } else {
            None
        },
    decreases v.len(),
{
    if v.len() > 0 && i > 0 {
        let rest = v.drop_first();
        assert forall|j: int| 0 <= j < i - 1 implies rest[j].thread_id@ != t by {
            assert(rest[j] == v[j + 1]);
        }
        lemma_conversation_index(rest, t, i - 1);
    }
}

/// The phone number of the selected conversation.
pub open spec fn current_phone(app: SmsWindow) -> Option<Seq<char>> {
    match app.selected_thread {
        Some(t) => match conversation_index(app.conversations@, t@) {
            Some(i) => Some(app.conversations@[i].phone_number@),
            None => None,
        },
        None => None,
    }
}

/// Index of the first conversation of the thread `thread_id`, the one a
/// thread view shows; none when the thread is not known.
pub fn find_conversation(app: &SmsWindow, thread_id: &str) -> (r: Option<usize>)
    ensures
        match r {
            Some(k) => k < app.conversations@.len() && conversation_index(app.conversations@, thread_id@)
                == Some(k as int),
            None => conversation_index(app.conversations@, thread_id@) is None,
        },
{
    let wanted: String = thread_id.to_string();
    let mut i: usize = 0;
    while i < app.conversations.len()
        invariant
            wanted@ == thread_id@,
            i <= app.conversations@.len(),
            forall|j: int| 0 <= j < i ==> app.conversations@[j].thread_id@ != thread_id@,
        decreases app.conversations.len() - i,
    {
        if app.conversations[i].thread_id == wanted {
            proof {
                lemma_conversation_index(app.conversations@, thread_id@, i as int);
            }
            return Some(i);
        }
        i += 1;
    }
    proof {
        lemma_conversation_index(app.conversations@, thread_id@, i as int);
    }
    None
}

/// The phone number of the selected conversation, if one is selected and known.
pub fn get_current_conversation_phone(app: &SmsWindow) -> (r: Option<String>)
    ensures
        match r {
            Some(p) => current_phone(*app) == Some(p@),
            None => current_phone(*app) is None,
        },
{
    match &app.selected_thread {
        Some(t) => match find_conversation(app, t.as_str()) {
            Some(i) => Some(app.conversations[i].phone_number.clone()),
            None => None,
        },
        None => None,
    }
}

/// Whether a conversation shows the unread marker: once it has been seen in
/// this session, when a message came after the last one seen; otherwise as
/// the phone reports it.
pub fn is_conversation_unread(app: &SmsWindow, conv: &Conversation) -> (r: bool)
    ensures
        r == if app.last_seen_timestamp@.contains_key(conv.thread_id@) {
            conv.timestamp > app.last_seen_timestamp@[conv.thread_id@]
        } else {
            conv.unread
        },
{
    match app.last_seen_timestamp.get(conv.thread_id.as_str()) {
        Some(seen) => conv.timestamp > *seen,
        None => conv.unread,
    }
}

/// The name shown for a phone number: the first matching contact's name,
/// else the number itself.
pub open spec fn shown_name(app: SmsWindow, phone: Seq<char>) -> Seq<char> {
    match first_number_match(app.contacts@, phone) {
        Some(i) => app.contacts@[i].1@,
        None => phone,
    }
}

/// The name in a conversation's header: its contact's name, else its number.
pub fn display_name(app: &SmsWindow, phone_number: &str) -> (r: String)
    ensures
        r@ == shown_name(*app, phone_number@),
{
    match get_contact_name(app, phone_number) {
        Some(n) => n,
        None => phone_number.to_string(),
    }
}

/// The sender label over a received message: the name for the number of
/// the selected conversation, or for the message's own address when no
/// conversation is selected.
pub fn sender_label(app: &SmsWindow, address: &str) -> (r: String)
    ensures
        r@ == shown_name(*app, match current_phone(*app) {
            Some(p) => p,
            None => address@,
        }),
{
    match get_current_conversation_phone(app) {
        Some(p) => display_name(app, p.as_str()),
        None => display_name(app, address),
    }
}

// ---------------------------------------------------------------------------
// Message bubbles
// ---------------------------------------------------------------------------

/// A file attached to a message (MMS).
pub struct MessageAttachment {
    pub part_id: i64,
    pub mime_type: String,
    /// What the phone lets us request the full file by.
    pub unique_identifier: Option<String>,
    /// A preview the phone sent along.
    pub thumbnail: Option<Vec<u8>>,
    /// Where the full file was saved, once downloaded.
    pub full_path: Option<String>,
}

/// A message of a thread.
pub struct TextMessage {
    pub id: i64,
    pub address: String,
    pub body: String,
    /// Time of the message, in milliseconds.
    pub date: i64,
    /// Sent from this phone (else received).
    pub sent: bool,
    pub attachments: Vec<MessageAttachment>,
}

/// The generic card shown for an attachment without a preview.
pub enum PlaceholderKind {
    Video,
    Photo,
    Other,
}

/// How an attachment is shown.
pub enum AttachmentView {
    /// A downloaded video, at this path: buttons to open and to save it.
    Video(String),
    /// A downloaded image, at this path, with a button to save it.
    Image(String),
    /// A thumbnail of a file not downloaded yet; a click asks for the file
    /// by (part id, identifier) when there is one.
    Thumbnail(Vec<u8>, Option<(i64, String)>),
    /// A placeholder card for a file not downloaded yet, with no preview.
    Placeholder(PlaceholderKind, Option<(i64, String)>),
}

pub enum AttachmentShown {
    Video(Seq<char>),
    Image(Seq<char>),
    Thumbnail(Seq<u8>, Option<(i64, Seq<char>)>),
    Placeholder(PlaceholderKind, Option<(i64, Seq<char>)>),
}

pub open spec fn request_view(r: Option<(i64, String)>) -> Option<(i64, Seq<char>)> {
    match r {
        Some(p) => Some((p.0, p.1@)),
        None => None,
    }
}

impl View for AttachmentView {
    type V = AttachmentShown;

    open spec fn view(&self) -> AttachmentShown {
        match self {
            AttachmentView::Video(p) => AttachmentShown::Video(p@),
            AttachmentView::Image(p) => AttachmentShown::Image(p@),
            AttachmentView::Thumbnail(t, r) => AttachmentShown::Thumbnail(t@, request_view(*r)),
            AttachmentView::Placeholder(k, r) => AttachmentShown::Placeholder(*k, request_view(*r)),
        }
    }
}

/// An attachment is a video when its MIME type says so.
pub open spec fn is_video(a: MessageAttachment) -> bool {
    has_prefix(a.mime_type@, "video/"@)
}

/// The placeholder of an attachment: video, photo (an image type), or other.
pub open spec fn placeholder_of(a: MessageAttachment) -> PlaceholderKind {
    if is_video(a) {
        PlaceholderKind::Video
    } else if has_prefix(a.mime_type@, "image/"@) {
        PlaceholderKind::Photo
    } else {
        PlaceholderKind::Other
    }
}

/// How an attachment is shown: a downloaded file as a video or an image;
/// otherwise its thumbnail, if the phone sent a non-empty one, or else a
/// placeholder, either clickable to fetch the file when the phone gave an
/// identifier for it.
pub open spec fn attachment_shown(a: MessageAttachment) -> AttachmentShown {
    match a.full_path {
        Some(p) => if is_video(a) {
            AttachmentShown::Video(p@)
        } else {
            AttachmentShown::Image(p@)
        },
        None => {
            let req = match a.unique_identifier {
                Some(u) => Some((a.part_id, u@)),
                None => None,
            };
            match a.thumbnail {
                Some(t) => if t@.len() > 0 {
                    AttachmentShown::Thumbnail(t@, req)
                } else {
                    AttachmentShown::Placeholder(placeholder_of(a), req)
                },
                None => AttachmentShown::Placeholder(placeholder_of(a), req),
            }
        },
    }
}

fn mime_starts_with(a: &MessageAttachment, prefix: &str) -> (r: bool)
    ensures
        r == has_prefix(a.mime_type@, prefix@),
{
    starts_with_chars(&chars_of(a.mime_type.as_str()), &chars_of(prefix))
}

/// How `a` is shown.
pub fn attachment_view(a: &MessageAttachment) -> (r: AttachmentView)
    ensures
        r@ == attachment_shown(*a),
{
    let video = mime_starts_with(a, "video/");
    if let Some(p) = &a.full_path {
        return if video {
            AttachmentView::Video(p.clone())
        } else {
            AttachmentView::Image(p.clone())
        };
    }
    let req = match &a.unique_identifier {
        Some(u) => Some((a.part_id, u.clone())),
        None => None,
    };
    let kind = if video {
        PlaceholderKind::Video
    } else if mime_starts_with(a, "image/") {
        PlaceholderKind::Photo
    } else {
        PlaceholderKind::Other
    };
    match &a.thumbnail {
        Some(t) => if t.len() > 0 {
            AttachmentView::Thumbnail(t.clone(), req)
        } else {
            AttachmentView::Placeholder(kind, req)
        },
        None => AttachmentView::Placeholder(kind, req),
    }
}

/// What the bubble of a message shows.
pub struct MessageBubble {
    /// A sent message sits on the right in the accent colour, a received
    /// one on the left.
    pub sent: bool,
    /// The bold sender line, shown only over a received message.
    pub sender: Option<String>,
    /// The attachments, in order.
    pub attachments: Vec<AttachmentView>,
    pub body: String,
    /// The relative time stamp.
    pub time: String,
    /// The position a jump button scrolls to; the button is shown only
    /// while the search field is open.
    pub jump_to: Option<usize>,
}

pub open spec fn attachments_shown(v: Seq<MessageAttachment>) -> Seq<AttachmentShown> {
    v.map_values(|a: MessageAttachment| attachment_shown(a))
}

/// The bubble of `msg` at `position` in the thread, with `time` as its time
/// stamp.
pub open spec fn bubble_shows(
    app: SmsWindow,
    msg: TextMessage,
    position: usize,
    b: MessageBubble,
    time: Seq<char>,
) -> bool {
    &&& b.sent == msg.sent
    &&& match b.sender {
        Some(l) => !msg.sent && l@ == shown_name(app, match current_phone(app) {
            Some(p) => p,
            None => msg.address@,
        }),
        None => msg.sent,
    }
    &&& b.attachments@.map_values(|v: AttachmentView| v@) == attachments_shown(msg.attachments@)
    &&& b.body@ == msg.body@
    &&& b.time@ == time
    &&& b.jump_to == if app.search_field_active {
        Some(position)
    } else {
        None
    }
}

fn bubble_with_time(app: &SmsWindow, msg: &TextMessage, position: usize, time: String) -> (r: MessageBubble)
    ensures
        bubble_shows(*app, *msg, position, r, time@),
{
    let sender = if msg.sent {
        None
    } else {
        Some(sender_label(app, msg.address.as_str()))
    };
    let mut attachments: Vec<AttachmentView> = Vec::new();
    let mut i: usize = 0;
    while i < msg.attachments.len()
        invariant
            i <= msg.attachments@.len(),
            attachments@.map_values(|v: AttachmentView| v@) == attachments_shown(
                msg.attachments@.take(i as int),
            ),
        decreases msg.attachments.len() - i,
    {
        let ghost before = attachments@;
        let v = attachment_view(&msg.attachments[i]);
        attachments.push(v);
        assert(msg.attachments@.take(i + 1) =~= msg.attachments@.take(i as int).push(
            msg.attachments@[i as int],
        ));
        assert(attachments@.map_values(|v: AttachmentView| v@) =~= before.map_values(
            |v: AttachmentView| v@,
        ).push(attachment_shown(msg.attachments@[i as int])));
        assert(attachments@.map_values(|v: AttachmentView| v@) =~= attachments_shown(
            msg.attachments@.take(i + 1),
        ));
        i += 1;
    }
    assert(msg.attachments@.take(i as int) =~= msg.attachments@);
    let jump_to = if app.search_field_active {
        Some(position)
    } else {
        None
    };
    MessageBubble { sent: msg.sent, sender, attachments, body: msg.body.clone(), time, jump_to }
}

/// The bubble of `msg` at `position`, as seen at `now_secs`.
pub fn bubble_at(app: &SmsWindow, msg: &TextMessage, position: usize, now_secs: i64) -> (r: MessageBubble)
    ensures
        bubble_shows(*app, *msg, position, r, relative_time(now_secs as int, msg.date as int)),
{
    let time = crate::sms_utils::format_relative_time(now_secs, msg.date);
    bubble_with_time(app, msg, position, time)
}

/// The bubble of `msg` at `position` in the thread, its time stamp as seen
/// from the current clock reading.
pub fn bubble(app: &SmsWindow, msg: &TextMessage, position: usize) -> (r: MessageBubble)
    ensures
        exists|now: int| bubble_shows(*app, *msg, position, r, relative_time(now, msg.date as int)),
{
    let time = format_timestamp(msg.date);
    bubble_with_time(app, msg, position, time)
}

} // verus!
