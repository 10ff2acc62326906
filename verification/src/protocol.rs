//! The KDE Connect packet protocol: packet types and their wire names,
//! packets, identities and pairing requests.

use crate::clock::{unix_time_millis, unix_time_secs};
use crate::json::JsonValue;
use vstd::utf8::encode_utf8;
use vstd::prelude::*;

verus! {

broadcast use vstd::string::group_string_axioms;

pub const PROTOCOL_VERSION: usize = 8;

pub enum PacketType {
    Battery,
    BatteryRequest,
    Clipboard,
    ClipboardConnect,
    ConnectivityReport,
    ConnectivityReportRequest,
    ContactsRequestAllUidsTimestamps,
    ContactsRequestVcardsByUid,
    ContactsResponseUidsTimestamps,
    ContactsResponseVcards,
    FindMyPhoneRequest,
    Lock,
    LockRequest,
    MousePadEcho,
    MousePadKeyboardState,
    MousePadRequest,
    Mpris,
    MprisRequest,
    Notification,
    NotificationAction,
    NotificationReply,
    NotificationRequest,
    Identity,
    Pair,
    Ping,
    Presenter,
    RunCommand,
    RunCommandRequest,
    Sftp,
    SftpRequest,
    ShareRequest,
    ShareRequestUpdate,
    SmsAttachmentFile,
    SmsMessages,
    SmsRequest,
    SmsRequestAttachment,
    SmsRequestConversation,
    SmsRequestConversations,
    SystemVolume,
    SystemVolumeRequest,
    Telephony,
    TelephonyRequestMute,
    /// Any packet type not recognized by this implementation.
    Unknown(String),
}

/// The wire name that is accepted for `ContactsResponseUidsTimestamps`
/// besides its own, and never written.
pub open spec fn packet_type_alias() -> Seq<char> {
    "kdeconnect.contacts.response_all_uids_timestamps"@
}

impl PacketType {
    /// The wire name of a packet type; an unknown type keeps the name it
    /// arrived with.
    pub open spec fn wire_name(self) -> Seq<char> {
        match self {
            PacketType::Battery => "kdeconnect.battery"@,
            PacketType::BatteryRequest => "kdeconnect.battery.request"@,
            PacketType::Clipboard => "kdeconnect.clipboard"@,
            PacketType::ClipboardConnect => "kdeconnect.clipboard.connect"@,
            PacketType::ConnectivityReport => "kdeconnect.connectivity_report"@,
            PacketType::ConnectivityReportRequest => "kdeconnect.connectivity_report.request"@,
            PacketType::ContactsRequestAllUidsTimestamps => "kdeconnect.contacts.request_all_uids_timestamps"@,
            PacketType::ContactsRequestVcardsByUid => "kdeconnect.contacts.request_vcards_by_uid"@,
            PacketType::ContactsResponseUidsTimestamps => "kdeconnect.contacts.response_uids_timestamps"@,
            PacketType::ContactsResponseVcards => "kdeconnect.contacts.response_vcards"@,
            PacketType::FindMyPhoneRequest => "kdeconnect.findmyphone.request"@,
            PacketType::Lock => "kdeconnect.lock"@,
            PacketType::LockRequest => "kdeconnect.lock.request"@,
            PacketType::MousePadEcho => "kdeconnect.mousepad.echo"@,
            PacketType::MousePadKeyboardState => "kdeconnect.mousepad.keyboardstate"@,
            PacketType::MousePadRequest => "kdeconnect.mousepad.request"@,
            PacketType::Mpris => "kdeconnect.mpris"@,
            PacketType::MprisRequest => "kdeconnect.mpris.request"@,
            PacketType::Notification => "kdeconnect.notification"@,
            PacketType::NotificationAction => "kdeconnect.notification.action"@,
            PacketType::NotificationReply => "kdeconnect.notification.reply"@,
            PacketType::NotificationRequest => "kdeconnect.notification.request"@,
            PacketType::Identity => "kdeconnect.identity"@,
            PacketType::Pair => "kdeconnect.pair"@,
            PacketType::Ping => "kdeconnect.ping"@,
            PacketType::Presenter => "kdeconnect.presenter"@,
            PacketType::RunCommand => "kdeconnect.runcommand"@,
            PacketType::RunCommandRequest => "kdeconnect.runcommand.request"@,
            PacketType::Sftp => "kdeconnect.sftp"@,
            PacketType::SftpRequest => "kdeconnect.sftp.request"@,
            PacketType::ShareRequest => "kdeconnect.share.request"@,
            PacketType::ShareRequestUpdate => "kdeconnect.share.request.update"@,
            PacketType::SmsAttachmentFile => "kdeconnect.sms.attachment_file"@,
            PacketType::SmsMessages => "kdeconnect.sms.messages"@,
            PacketType::SmsRequest => "kdeconnect.sms.request"@,
            PacketType::SmsRequestAttachment => "kdeconnect.sms.request_attachment"@,
            PacketType::SmsRequestConversation => "kdeconnect.sms.request_conversation"@,
            PacketType::SmsRequestConversations => "kdeconnect.sms.request_conversations"@,
            PacketType::SystemVolume => "kdeconnect.systemvolume"@,
            PacketType::SystemVolumeRequest => "kdeconnect.systemvolume.request"@,
            PacketType::Telephony => "kdeconnect.telephony"@,
            PacketType::TelephonyRequestMute => "kdeconnect.telephony.request_mute"@,
            PacketType::Unknown(s) => s@,
        }
    }

    /// The wire name of a known packet type.
    fn known_name(&self) -> (r: &'static str)
        requires
            !(*self is Unknown),
        ensures
            r@ == self.wire_name(),
    {
        match self {
            PacketType::Battery => "kdeconnect.battery",
            PacketType::BatteryRequest => "kdeconnect.battery.request",
            PacketType::Clipboard => "kdeconnect.clipboard",
            PacketType::ClipboardConnect => "kdeconnect.clipboard.connect",
            PacketType::ConnectivityReport => "kdeconnect.connectivity_report",
            PacketType::ConnectivityReportRequest => "kdeconnect.connectivity_report.request",
            PacketType::ContactsRequestAllUidsTimestamps => "kdeconnect.contacts.request_all_uids_timestamps",
            PacketType::ContactsRequestVcardsByUid => "kdeconnect.contacts.request_vcards_by_uid",
            PacketType::ContactsResponseUidsTimestamps => "kdeconnect.contacts.response_uids_timestamps",
            PacketType::ContactsResponseVcards => "kdeconnect.contacts.response_vcards",
            PacketType::FindMyPhoneRequest => "kdeconnect.findmyphone.request",
            PacketType::Lock => "kdeconnect.lock",
            PacketType::LockRequest => "kdeconnect.lock.request",
            PacketType::MousePadEcho => "kdeconnect.mousepad.echo",
            PacketType::MousePadKeyboardState => "kdeconnect.mousepad.keyboardstate",
            PacketType::MousePadRequest => "kdeconnect.mousepad.request",
            PacketType::Mpris => "kdeconnect.mpris",
            PacketType::MprisRequest => "kdeconnect.mpris.request",
            PacketType::Notification => "kdeconnect.notification",
            PacketType::NotificationAction => "kdeconnect.notification.action",
            PacketType::NotificationReply => "kdeconnect.notification.reply",
            PacketType::NotificationRequest => "kdeconnect.notification.request",
            PacketType::Identity => "kdeconnect.identity",
            PacketType::Pair => "kdeconnect.pair",
            PacketType::Ping => "kdeconnect.ping",
            PacketType::Presenter => "kdeconnect.presenter",
            PacketType::RunCommand => "kdeconnect.runcommand",
            PacketType::RunCommandRequest => "kdeconnect.runcommand.request",
            PacketType::Sftp => "kdeconnect.sftp",
            PacketType::SftpRequest => "kdeconnect.sftp.request",
            PacketType::ShareRequest => "kdeconnect.share.request",
            PacketType::ShareRequestUpdate => "kdeconnect.share.request.update",
            PacketType::SmsAttachmentFile => "kdeconnect.sms.attachment_file",
            PacketType::SmsMessages => "kdeconnect.sms.messages",
            PacketType::SmsRequest => "kdeconnect.sms.request",
            PacketType::SmsRequestAttachment => "kdeconnect.sms.request_attachment",
            PacketType::SmsRequestConversation => "kdeconnect.sms.request_conversation",
            PacketType::SmsRequestConversations => "kdeconnect.sms.request_conversations",
            PacketType::SystemVolume => "kdeconnect.systemvolume",
            PacketType::SystemVolumeRequest => "kdeconnect.systemvolume.request",
            PacketType::Telephony => "kdeconnect.telephony",
            PacketType::TelephonyRequestMute => "kdeconnect.telephony.request_mute",
            PacketType::Unknown(_) => "",
        }
    }
}

/// Every known packet type, in the order of the table.
pub open spec fn known_types() -> Seq<PacketType> {
    seq![PacketType::Battery, PacketType::BatteryRequest, PacketType::Clipboard, PacketType::ClipboardConnect, PacketType::ConnectivityReport, PacketType::ConnectivityReportRequest, PacketType::ContactsRequestAllUidsTimestamps, PacketType::ContactsRequestVcardsByUid, PacketType::ContactsResponseUidsTimestamps, PacketType::ContactsResponseVcards, PacketType::FindMyPhoneRequest, PacketType::Lock, PacketType::LockRequest, PacketType::MousePadEcho, PacketType::MousePadKeyboardState, PacketType::MousePadRequest, PacketType::Mpris, PacketType::MprisRequest, PacketType::Notification, PacketType::NotificationAction, PacketType::NotificationReply, PacketType::NotificationRequest, PacketType::Identity, PacketType::Pair, PacketType::Ping, PacketType::Presenter, PacketType::RunCommand, PacketType::RunCommandRequest, PacketType::Sftp, PacketType::SftpRequest, PacketType::ShareRequest, PacketType::ShareRequestUpdate, PacketType::SmsAttachmentFile, PacketType::SmsMessages, PacketType::SmsRequest, PacketType::SmsRequestAttachment, PacketType::SmsRequestConversation, PacketType::SmsRequestConversations, PacketType::SystemVolume, PacketType::SystemVolumeRequest, PacketType::Telephony, PacketType::TelephonyRequestMute]
}

fn known_packet_types() -> (v: Vec<PacketType>)
    ensures
        v@ == known_types(),
{
    let mut v: Vec<PacketType> = Vec::new();
    v.push(PacketType::Battery);
    v.push(PacketType::BatteryRequest);
    v.push(PacketType::Clipboard);
    v.push(PacketType::ClipboardConnect);
    v.push(PacketType::ConnectivityReport);
    v.push(PacketType::ConnectivityReportRequest);
    v.push(PacketType::ContactsRequestAllUidsTimestamps);
    v.push(PacketType::ContactsRequestVcardsByUid);
    v.push(PacketType::ContactsResponseUidsTimestamps);
    v.push(PacketType::ContactsResponseVcards);
    v.push(PacketType::FindMyPhoneRequest);
    v.push(PacketType::Lock);
    v.push(PacketType::LockRequest);
    v.push(PacketType::MousePadEcho);
    v.push(PacketType::MousePadKeyboardState);
    v.push(PacketType::MousePadRequest);
    v.push(PacketType::Mpris);
    v.push(PacketType::MprisRequest);
    v.push(PacketType::Notification);
    v.push(PacketType::NotificationAction);
    v.push(PacketType::NotificationReply);
    v.push(PacketType::NotificationRequest);
    v.push(PacketType::Identity);
    v.push(PacketType::Pair);
    v.push(PacketType::Ping);
    v.push(PacketType::Presenter);
    v.push(PacketType::RunCommand);
    v.push(PacketType::RunCommandRequest);
    v.push(PacketType::Sftp);
    v.push(PacketType::SftpRequest);
    v.push(PacketType::ShareRequest);
    v.push(PacketType::ShareRequestUpdate);
    v.push(PacketType::SmsAttachmentFile);
    v.push(PacketType::SmsMessages);
    v.push(PacketType::SmsRequest);
    v.push(PacketType::SmsRequestAttachment);
    v.push(PacketType::SmsRequestConversation);
    v.push(PacketType::SmsRequestConversations);
    v.push(PacketType::SystemVolume);
    v.push(PacketType::SystemVolumeRequest);
    v.push(PacketType::Telephony);
    v.push(PacketType::TelephonyRequestMute);
    assert(v@ =~= known_types());
    v
}

/// No two known packet types share a wire name. Names of equal length are
/// told apart by the character at which they first differ.
#[verifier::rlimit(100)]
pub proof fn lemma_wire_name_injective(t1: PacketType, t2: PacketType)
    requires
        !(t1 is Unknown),
        !(t2 is Unknown),
        t1.wire_name() == t2.wire_name(),
    ensures
        t1 == t2,
{
    reveal_strlit("kdeconnect.battery");
    reveal_strlit("kdeconnect.battery.request");
    reveal_strlit("kdeconnect.clipboard");
    reveal_strlit("kdeconnect.clipboard.connect");
    reveal_strlit("kdeconnect.connectivity_report");
    reveal_strlit("kdeconnect.connectivity_report.request");
    reveal_strlit("kdeconnect.contacts.request_all_uids_timestamps");
    reveal_strlit("kdeconnect.contacts.request_vcards_by_uid");
    reveal_strlit("kdeconnect.contacts.response_uids_timestamps");
    reveal_strlit("kdeconnect.contacts.response_vcards");
    reveal_strlit("kdeconnect.findmyphone.request");
    reveal_strlit("kdeconnect.lock");
    reveal_strlit("kdeconnect.lock.request");
    reveal_strlit("kdeconnect.mousepad.echo");
    reveal_strlit("kdeconnect.mousepad.keyboardstate");
    reveal_strlit("kdeconnect.mousepad.request");
    reveal_strlit("kdeconnect.mpris");
    reveal_strlit("kdeconnect.mpris.request");
    reveal_strlit("kdeconnect.notification");
    reveal_strlit("kdeconnect.notification.action");
    reveal_strlit("kdeconnect.notification.reply");
    reveal_strlit("kdeconnect.notification.request");
    reveal_strlit("kdeconnect.identity");
    reveal_strlit("kdeconnect.pair");
    reveal_strlit("kdeconnect.ping");
    reveal_strlit("kdeconnect.presenter");
    reveal_strlit("kdeconnect.runcommand");
    reveal_strlit("kdeconnect.runcommand.request");
    reveal_strlit("kdeconnect.sftp");
    reveal_strlit("kdeconnect.sftp.request");
    reveal_strlit("kdeconnect.share.request");
    reveal_strlit("kdeconnect.share.request.update");
    reveal_strlit("kdeconnect.sms.attachment_file");
    reveal_strlit("kdeconnect.sms.messages");
    reveal_strlit("kdeconnect.sms.request");
    reveal_strlit("kdeconnect.sms.request_attachment");
    reveal_strlit("kdeconnect.sms.request_conversation");
    reveal_strlit("kdeconnect.sms.request_conversations");
    reveal_strlit("kdeconnect.systemvolume");
    reveal_strlit("kdeconnect.systemvolume.request");
    reveal_strlit("kdeconnect.telephony");
    reveal_strlit("kdeconnect.telephony.request_mute");
    assert("kdeconnect.clipboard"@[11] != "kdeconnect.presenter"@[11]);
    assert("kdeconnect.clipboard"@[11] != "kdeconnect.telephony"@[11]);
    assert("kdeconnect.presenter"@[11] != "kdeconnect.telephony"@[11]);
    assert("kdeconnect.connectivity_report"@[11] != "kdeconnect.findmyphone.request"@[11]);
    assert("kdeconnect.connectivity_report"@[11] != "kdeconnect.notification.action"@[11]);
    assert("kdeconnect.connectivity_report"@[11] != "kdeconnect.sms.attachment_file"@[11]);
    assert("kdeconnect.findmyphone.request"@[11] != "kdeconnect.notification.action"@[11]);
    assert("kdeconnect.findmyphone.request"@[11] != "kdeconnect.sms.attachment_file"@[11]);
    assert("kdeconnect.notification.action"@[11] != "kdeconnect.sms.attachment_file"@[11]);
    assert("kdeconnect.contacts.response_vcards"@[11] != "kdeconnect.sms.request_conversation"@[11]);
    assert("kdeconnect.lock"@[11] != "kdeconnect.pair"@[11]);
    assert("kdeconnect.lock"@[11] != "kdeconnect.ping"@[11]);
    assert("kdeconnect.lock"@[11] != "kdeconnect.sftp"@[11]);
    assert("kdeconnect.pair"@[12] != "kdeconnect.ping"@[12]);
    assert("kdeconnect.pair"@[11] != "kdeconnect.sftp"@[11]);
    assert("kdeconnect.ping"@[11] != "kdeconnect.sftp"@[11]);
    assert("kdeconnect.lock.request"@[11] != "kdeconnect.notification"@[11]);
    assert("kdeconnect.lock.request"@[11] != "kdeconnect.sftp.request"@[11]);
    assert("kdeconnect.lock.request"@[11] != "kdeconnect.sms.messages"@[11]);
    assert("kdeconnect.lock.request"@[11] != "kdeconnect.systemvolume"@[11]);
    assert("kdeconnect.notification"@[11] != "kdeconnect.sftp.request"@[11]);
    assert("kdeconnect.notification"@[11] != "kdeconnect.sms.messages"@[11]);
    assert("kdeconnect.notification"@[11] != "kdeconnect.systemvolume"@[11]);
    assert("kdeconnect.sftp.request"@[12] != "kdeconnect.sms.messages"@[12]);
    assert("kdeconnect.sftp.request"@[12] != "kdeconnect.systemvolume"@[12]);
    assert("kdeconnect.sms.messages"@[12] != "kdeconnect.systemvolume"@[12]);
    assert("kdeconnect.mousepad.echo"@[12] != "kdeconnect.mpris.request"@[12]);
    assert("kdeconnect.mousepad.echo"@[11] != "kdeconnect.share.request"@[11]);
    assert("kdeconnect.mpris.request"@[11] != "kdeconnect.share.request"@[11]);
    assert("kdeconnect.mousepad.keyboardstate"@[11] != "kdeconnect.sms.request_attachment"@[11]);
    assert("kdeconnect.mousepad.keyboardstate"@[11] != "kdeconnect.telephony.request_mute"@[11]);
    assert("kdeconnect.sms.request_attachment"@[11] != "kdeconnect.telephony.request_mute"@[11]);
    assert("kdeconnect.notification.reply"@[11] != "kdeconnect.runcommand.request"@[11]);
    assert("kdeconnect.notification.request"@[11] != "kdeconnect.share.request.update"@[11]);
    assert("kdeconnect.notification.request"@[11] != "kdeconnect.systemvolume.request"@[11]);
    assert("kdeconnect.share.request.update"@[12] != "kdeconnect.systemvolume.request"@[12]);
    assert("kdeconnect.battery"@.len() == 18);
    assert("kdeconnect.battery.request"@.len() == 26);
    assert("kdeconnect.clipboard"@.len() == 20);
    assert("kdeconnect.clipboard.connect"@.len() == 28);
    assert("kdeconnect.connectivity_report"@.len() == 30);
    assert("kdeconnect.connectivity_report.request"@.len() == 38);
    assert("kdeconnect.contacts.request_all_uids_timestamps"@.len() == 47);
    assert("kdeconnect.contacts.request_vcards_by_uid"@.len() == 41);
    assert("kdeconnect.contacts.response_uids_timestamps"@.len() == 44);
    assert("kdeconnect.contacts.response_vcards"@.len() == 35);
    assert("kdeconnect.findmyphone.request"@.len() == 30);
    assert("kdeconnect.lock"@.len() == 15);
    assert("kdeconnect.lock.request"@.len() == 23);
    assert("kdeconnect.mousepad.echo"@.len() == 24);
    assert("kdeconnect.mousepad.keyboardstate"@.len() == 33);
    assert("kdeconnect.mousepad.request"@.len() == 27);
    assert("kdeconnect.mpris"@.len() == 16);
    assert("kdeconnect.mpris.request"@.len() == 24);
    assert("kdeconnect.notification"@.len() == 23);
    assert("kdeconnect.notification.action"@.len() == 30);
    assert("kdeconnect.notification.reply"@.len() == 29);
    assert("kdeconnect.notification.request"@.len() == 31);
    assert("kdeconnect.identity"@.len() == 19);
    assert("kdeconnect.pair"@.len() == 15);
    assert("kdeconnect.ping"@.len() == 15);
    assert("kdeconnect.presenter"@.len() == 20);
    assert("kdeconnect.runcommand"@.len() == 21);
    assert("kdeconnect.runcommand.request"@.len() == 29);
    assert("kdeconnect.sftp"@.len() == 15);
    assert("kdeconnect.sftp.request"@.len() == 23);
    assert("kdeconnect.share.request"@.len() == 24);
    assert("kdeconnect.share.request.update"@.len() == 31);
    assert("kdeconnect.sms.attachment_file"@.len() == 30);
    assert("kdeconnect.sms.messages"@.len() == 23);
    assert("kdeconnect.sms.request"@.len() == 22);
    assert("kdeconnect.sms.request_attachment"@.len() == 33);
    assert("kdeconnect.sms.request_conversation"@.len() == 35);
    assert("kdeconnect.sms.request_conversations"@.len() == 36);
    assert("kdeconnect.systemvolume"@.len() == 23);
    assert("kdeconnect.systemvolume.request"@.len() == 31);
    assert("kdeconnect.telephony"@.len() == 20);
    assert("kdeconnect.telephony.request_mute"@.len() == 33);
}

impl PacketType {
    /// The position of a known packet type in `known_types()`.
    pub open spec fn table_index(self) -> int {
        match self {
            PacketType::Battery => 0,
            PacketType::BatteryRequest => 1,
            PacketType::Clipboard => 2,
            PacketType::ClipboardConnect => 3,
            PacketType::ConnectivityReport => 4,
            PacketType::ConnectivityReportRequest => 5,
            PacketType::ContactsRequestAllUidsTimestamps => 6,
            PacketType::ContactsRequestVcardsByUid => 7,
            PacketType::ContactsResponseUidsTimestamps => 8,
            PacketType::ContactsResponseVcards => 9,
            PacketType::FindMyPhoneRequest => 10,
            PacketType::Lock => 11,
            PacketType::LockRequest => 12,
            PacketType::MousePadEcho => 13,
            PacketType::MousePadKeyboardState => 14,
            PacketType::MousePadRequest => 15,
            PacketType::Mpris => 16,
            PacketType::MprisRequest => 17,
            PacketType::Notification => 18,
            PacketType::NotificationAction => 19,
            PacketType::NotificationReply => 20,
            PacketType::NotificationRequest => 21,
            PacketType::Identity => 22,
            PacketType::Pair => 23,
            PacketType::Ping => 24,
            PacketType::Presenter => 25,
            PacketType::RunCommand => 26,
            PacketType::RunCommandRequest => 27,
            PacketType::Sftp => 28,
            PacketType::SftpRequest => 29,
            PacketType::ShareRequest => 30,
            PacketType::ShareRequestUpdate => 31,
            PacketType::SmsAttachmentFile => 32,
            PacketType::SmsMessages => 33,
            PacketType::SmsRequest => 34,
            PacketType::SmsRequestAttachment => 35,
            PacketType::SmsRequestConversation => 36,
            PacketType::SmsRequestConversations => 37,
            PacketType::SystemVolume => 38,
            PacketType::SystemVolumeRequest => 39,
            PacketType::Telephony => 40,
            PacketType::TelephonyRequestMute => 41,
            PacketType::Unknown(_) => -1,
        }
    }
}

/// Every known packet type stands in the table at its `table_index`.
pub proof fn lemma_known_in_table(t: PacketType)
    requires
        !(t is Unknown),
    ensures
        0 <= t.table_index() < known_types().len(),
        known_types()[t.table_index()] == t,
{
}

/// Index of the first packet type in `types` whose wire name is `name`.
pub open spec fn first_named(types: Seq<PacketType>, name: Seq<char>) -> Option<int>
    decreases types.len(),
{
    if types.len() == 0 {
        None
    } else if types[0].wire_name() == name {
        Some(0)
    } else {
        match first_named(types.drop_first(), name) {
            Some(i) => Some(i + 1),
            None => None,
        }
    }
}

pub proof fn lemma_first_named(types: Seq<PacketType>, name: Seq<char>)
    ensures
        match first_named(types, name) {
            Some(i) => 0 <= i < types.len() && types[i].wire_name() == name && forall|j: int|
                0 <= j < i ==> types[j].wire_name() != name,
            None => forall|j: int| 0 <= j < types.len() ==> types[j].wire_name() != name,
        },
    decreases types.len(),
{
    if types.len() > 0 && types[0].wire_name() != name {
        let rest = types.drop_first();
        lemma_first_named(rest, name);
        assert forall|j: int| 0 < j < types.len() implies types[j] == rest[j - 1] by {}
    }
}

proof fn lemma_first_named_unique(types: Seq<PacketType>, name: Seq<char>, i: int)
    requires
        0 <= i <= types.len(),
        i < types.len() ==> types[i].wire_name() == name,
        forall|j: int| 0 <= j < i ==> types[j].wire_name() != name,
    ensures
        first_named(types, name) == (if i < types.len() {
            Some(i)
        } else {
            None
        }),
{
    lemma_first_named(types, name);
    match first_named(types, name) {
        Some(k) => {
            if k > i {
                assert(types[i].wire_name() == name);
            }
        },
        None => {
            if i < types.len() {
                assert(types[i].wire_name() == name);
            }
        },
    }
}

/// The packet type a wire name stands for: the known type of that name,
/// `ContactsResponseUidsTimestamps` for its legacy alias, and otherwise an
/// `Unknown` type holding the name.
pub open spec fn parsed_packet_type(value: String) -> PacketType {
    match first_named(known_types(), value@) {
        Some(i) => known_types()[i],
        None => if value@ == packet_type_alias() {
            PacketType::ContactsResponseUidsTimestamps
        } else {
            PacketType::Unknown(value)
        },
    }
}

impl From<String> for PacketType {
    fn from(value: String) -> (r: Self) {
        let mut table = known_packet_types();
        let mut i: usize = 0;
        while i < table.len()
            invariant
                table@ == known_types(),
                i <= table@.len(),
                forall|j: int| 0 <= j < i ==> table@[j].wire_name() != value@,
            decreases table.len() - i,
        {
            let name: String = table[i].known_name().to_string();
            if name == value {
                proof {
                    lemma_first_named_unique(known_types(), value@, i as int);
                }
                return table.swap_remove(i);
            }
            i += 1;
        }
        proof {
            lemma_first_named_unique(known_types(), value@, i as int);
        }
        let alias: String = "kdeconnect.contacts.response_all_uids_timestamps".to_string();
        if value == alias {
            PacketType::ContactsResponseUidsTimestamps
        } else {
            PacketType::Unknown(value)
        }
    }
}

impl vstd::std_specs::convert::FromSpecImpl<String> for PacketType {
    open spec fn obeys_from_spec() -> bool {
        true
    }

    open spec fn from_spec(v: String) -> PacketType {
        parsed_packet_type(v)
    }
}

impl PacketType {
    /// The wire name of the packet type, as text.
    pub fn to_string(&self) -> (r: String)
        ensures
            r@ == self.wire_name(),
    {
        match self {
            PacketType::Unknown(s) => s.clone(),
            _ => self.known_name().to_string(),
        }
    }
}

// ---------------------------------------------------------------------------
// Laws of the packet-type table
// ---------------------------------------------------------------------------

/// Writing the type that a wire name parses to gives the name back; the
/// legacy alias alone comes back as the canonical name.
pub proof fn law_name_parse_then_write(value: String)
    ensures
        parsed_packet_type(value).wire_name() == (if first_named(known_types(), value@) is None
            && value@ == packet_type_alias() {
            PacketType::ContactsResponseUidsTimestamps.wire_name()
        } else {
            value@
        }),
{
    lemma_first_named(known_types(), value@);
}

/// Parsing the wire name of a known packet type gives that type back.
pub proof fn law_known_type_write_then_parse(t: PacketType, value: String)
    requires
        !(t is Unknown),
        value@ == t.wire_name(),
    ensures
        parsed_packet_type(value) == t,
{
    lemma_known_in_table(t);
    lemma_first_named(known_types(), value@);
    match first_named(known_types(), value@) {
        Some(i) => {
            lemma_wire_name_injective(known_types()[i], t);
        },
        None => {
            assert(known_types()[t.table_index()].wire_name() == value@);
        },
    }
}

/// An unknown packet type whose name is neither a known name nor the alias
/// is parsed back to itself.
pub proof fn law_unknown_type_write_then_parse(s: String)
    requires
        forall|j: int| 0 <= j < known_types().len() ==> known_types()[j].wire_name() != s@,
        s@ != packet_type_alias(),
    ensures
        PacketType::Unknown(s).wire_name() == s@,
        parsed_packet_type(s) == PacketType::Unknown(s),
{
    lemma_first_named_unique(known_types(), s@, known_types().len() as int);
}

// ---------------------------------------------------------------------------
// Devices, packets, identities, pairing
// ---------------------------------------------------------------------------

#[derive(Clone, Copy, Debug, PartialEq, Eq, Structural)]
pub enum DeviceType {
    Desktop,
    Laptop,
    Phone,
    Tablet,
    Tv,
}

impl DeviceType {
    /// The lower-case name of the device type, as written on the wire.
    pub open spec fn name(self) -> Seq<char> {
        match self {
            DeviceType::Desktop => "desktop"@,
            DeviceType::Laptop => "laptop"@,
            DeviceType::Phone => "phone"@,
            DeviceType::Tablet => "tablet"@,
            DeviceType::Tv => "tv"@,
        }
    }

    /// The lower-case name of the device type, as text.
    pub fn to_string(&self) -> (r: String)
        ensures
            r@ == self.name(),
    {
        match self {
            DeviceType::Desktop => "desktop".to_string(),
            DeviceType::Laptop => "laptop".to_string(),
            DeviceType::Phone => "phone".to_string(),
            DeviceType::Tablet => "tablet".to_string(),
            DeviceType::Tv => "tv".to_string(),
        }
    }
}

#[derive(Clone, Copy, Debug, PartialEq, Eq, Structural)]
pub struct PacketPayloadTransferInfo {
    pub port: u16,
}

pub struct ProtocolPacket {
    pub id: Option<u128>,
    pub packet_type: PacketType,
    pub body: JsonValue,
    pub payload_size: Option<u64>,
    pub payload_transfer_info: Option<PacketPayloadTransferInfo>,
}

impl ProtocolPacket {
    /// A packet of type `t` with `body`, stamped with the current time in
    /// milliseconds as its id, and without payload.
    pub fn new(t: PacketType, body: JsonValue) -> (r: Self)
        ensures
            r.id is Some,
            r.packet_type == t,
            r.body == body,
            r.payload_size is None,
            r.payload_transfer_info is None,
    {
        ProtocolPacket {
            id: Some(unix_time_millis()),
            packet_type: t,
            body,
            payload_size: None,
            payload_transfer_info: None,
        }
    }

    /// As `new`, announcing a payload of `payload_size` bytes.
    pub fn new_with_payload(
        t: PacketType,
        body: JsonValue,
        payload_size: u64,
        payload_transfer_info: Option<PacketPayloadTransferInfo>,
    ) -> (r: Self)
        ensures
            r.id is Some,
            r.packet_type == t,
            r.body == body,
            r.payload_size == Some(payload_size),
            r.payload_transfer_info == payload_transfer_info,
    {
        let p = Self::new(t, body);
        ProtocolPacket { payload_size: Some(payload_size), payload_transfer_info, ..p }
    }
}

/// A packet on the wire: its JSON text followed by a newline.
pub fn frame_packet(json_text: &str) -> (r: Vec<u8>)
    ensures
        r@ == encode_utf8(json_text@).push(10u8),
{
    let bytes = json_text.as_bytes();
    let mut r: Vec<u8> = Vec::new();
    let mut i: usize = 0;
    while i < bytes.len()
        invariant
            i <= bytes@.len(),
            r@ == bytes@.take(i as int),
        decreases bytes.len() - i,
    {
        r.push(bytes[i]);
        i += 1;
    }
    assert(bytes@.take(i as int) =~= bytes@);
    r.push(10u8);
    r
}

pub struct Identity {
    pub device_id: String,
    pub device_name: String,
    pub device_type: DeviceType,
    pub incoming_capabilities: Vec<String>,
    pub outgoing_capabilities: Vec<String>,
    pub protocol_version: usize,
    pub tcp_port: Option<u16>,
}

#[derive(Clone, Copy, Debug, PartialEq, Eq, Structural)]
pub struct Pair {
    pub pair: bool,
    pub timestamp: Option<u64>,
}

impl Pair {
    /// A pairing request (`pair`) carries the current time in seconds; an
    /// unpairing carries none.
    pub fn new(pair: bool) -> (r: Self)
        ensures
            r.pair == pair,
            r.timestamp is Some <==> pair,
    {
        let timestamp = if pair {
            Some(unix_time_secs())
        } else {
            None
        };
        Pair { pair, timestamp }
    }
}

} // verus!
