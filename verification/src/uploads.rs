//! Uploads: how a message is received, checked and stored, and how avatars are.

use crate::access;
use crate::headers;
use crate::ids;
use crate::json::JsonModel;
use crate::json;
use crate::json::JsonObject;
use crate::json::JsonValue;
use crate::records::Message;
use crate::records::MessageModel;
use crate::records::ServerModel;
use crate::records::Timestamp;
use crate::refusal::Lookup;
use crate::refusal::Refusal;
use crate::text;
use chrono::DateTime;
use chrono::Utc;
use vstd::prelude::*;
use vstd::string::*;

verus! {

// ---------------------------------------------------------------------------
// Fields of a form
// ---------------------------------------------------------------------------

/// The field of an upload form that a name stands for.
#[derive(Debug, Clone, Copy, PartialEq, Eq, Structural)]
pub enum FieldKind {
    Sender,
    Receiver,
    ServerId,
    ChannelId,
    ClientId,
    File,
    Other,
}

/// The field of an upload form that a name stands for.
pub open spec fn kind_of_field(name: Seq<char>) -> FieldKind {
    if name == "sender"@ {
        FieldKind::Sender
    } else if name == "receiver"@ {
        FieldKind::Receiver
    } else if name == "server_id"@ {
        FieldKind::ServerId
    } else if name == "channel_id"@ {
        FieldKind::ChannelId
    } else if name == "client_id"@ || name == "clientId"@ {
        FieldKind::ClientId
    } else if name == "file"@ {
        FieldKind::File
    } else {
        FieldKind::Other
    }
}

/// The field of an upload form that a name stands for.
pub fn field_kind(name: &str) -> (r: FieldKind)
    ensures
        r == kind_of_field(name@),
{
    if text::str_eq(name, "sender") {
        FieldKind::Sender
    } else if text::str_eq(name, "receiver") {
        FieldKind::Receiver
    } else if text::str_eq(name, "server_id") {
        FieldKind::ServerId
    } else if text::str_eq(name, "channel_id") {
        FieldKind::ChannelId
    } else if text::str_eq(name, "client_id") || text::str_eq(name, "clientId") {
        FieldKind::ClientId
    } else if text::str_eq(name, "file") {
        FieldKind::File
    } else {
        FieldKind::Other
    }
}

/// What an upload form says.
#[derive(Debug)]
pub struct UploadFields {
    pub sender: String,
    pub receiver: String,
    pub server_id: String,
    pub channel_id: String,
    pub client_id: String,
    pub file: Vec<u8>,
}

/// The model of an upload form.
pub struct FieldsModel {
    pub sender: Seq<char>,
    pub receiver: Seq<char>,
    pub server_id: Seq<char>,
    pub channel_id: Seq<char>,
    pub client_id: Seq<char>,
    pub file: Seq<u8>,
}

impl View for UploadFields {
    type V = FieldsModel;

    open spec fn view(&self) -> FieldsModel {
        FieldsModel {
            sender: self.sender@,
            receiver: self.receiver@,
            server_id: self.server_id@,
            channel_id: self.channel_id@,
            client_id: self.client_id@,
            file: self.file@,
        }
    }
}

/// A form after one more text field; a field that comes twice has its last value.
pub open spec fn with_text(form: FieldsModel, kind: FieldKind, value: Seq<char>) -> FieldsModel {
    match kind {
        FieldKind::Sender => FieldsModel { sender: value, ..form },
        FieldKind::Receiver => FieldsModel { receiver: value, ..form },
        FieldKind::ServerId => FieldsModel { server_id: value, ..form },
        FieldKind::ChannelId => FieldsModel { channel_id: value, ..form },
        FieldKind::ClientId => FieldsModel { client_id: value, ..form },
        FieldKind::File => form,
        FieldKind::Other => form,
    }
}

impl UploadFields {
    /// A form that says nothing yet.
    pub fn new() -> (r: UploadFields)
        ensures
            r@ == (FieldsModel {
                sender: Seq::empty(),
                receiver: Seq::empty(),
                server_id: Seq::empty(),
                channel_id: Seq::empty(),
                client_id: Seq::empty(),
                file: Seq::empty(),
            }),
    {
        let r = UploadFields {
            sender: String::new(),
            receiver: String::new(),
            server_id: String::new(),
            channel_id: String::new(),
            client_id: String::new(),
            file: Vec::new(),
        };
        proof {
            assert(r@.sender =~= Seq::empty());
            assert(r@.receiver =~= Seq::empty());
            assert(r@.server_id =~= Seq::empty());
            assert(r@.channel_id =~= Seq::empty());
            assert(r@.client_id =~= Seq::empty());
            assert(r@.file =~= Seq::empty());
        }
        r
    }

    /// Takes one text field.
    pub fn put_text(&mut self, kind: FieldKind, value: String)
        ensures
            final(self)@ == with_text(old(self)@, kind, value@),
    {
        match kind {
            FieldKind::Sender => {
                self.sender = value;
            },
            FieldKind::Receiver => {
                self.receiver = value;
            },
            FieldKind::ServerId => {
                self.server_id = value;
            },
            FieldKind::ChannelId => {
                self.channel_id = value;
            },
            FieldKind::ClientId => {
                self.client_id = value;
            },
            FieldKind::File => {},
            FieldKind::Other => {},
        }
    }

    /// Takes the file.
    pub fn put_file(&mut self, data: Vec<u8>)
        ensures
            final(self)@ == (FieldsModel { file: data@, ..old(self)@ }),
    {
        self.file = data;
    }
}

// ---------------------------------------------------------------------------
// Drafts
// ---------------------------------------------------------------------------

/// A message that is to be stored.
#[derive(Debug)]
pub struct Draft {
    pub client_id: String,
    pub sender: String,
    pub receiver: String,
    pub server_id: Option<String>,
    pub channel_id: Option<String>,
    pub file: Vec<u8>,
}

/// The model of a message that is to be stored.
pub struct DraftModel {
    pub client_id: Seq<char>,
    pub sender: Seq<char>,
    pub receiver: Seq<char>,
    pub server_id: Option<Seq<char>>,
    pub channel_id: Option<Seq<char>>,
    pub file: Seq<u8>,
}

impl View for Draft {
    type V = DraftModel;

    open spec fn view(&self) -> DraftModel {
        DraftModel {
            client_id: self.client_id@,
            sender: self.sender@,
            receiver: self.receiver@,
            server_id: text::opt_text(self.server_id),
            channel_id: text::opt_text(self.channel_id),
            file: self.file@,
        }
    }
}

/// A text, or the one that takes its place.
pub open spec fn overridden(own: Seq<char>, by: Option<Seq<char>>) -> Seq<char> {
    match by {
        Some(other) => other,
        None => own,
    }
}

/// The message that a form asks to store. Its sender is the user who is logged in,
/// whatever the form says. It belongs to a server if the form, or the address that
/// it was sent to, names a server or a channel; then both have to be named.
pub open spec fn drafted(
    form: FieldsModel,
    user: Seq<char>,
    server_id: Option<Seq<char>>,
    channel_id: Option<Seq<char>>,
) -> Result<DraftModel, Refusal> {
    let server = overridden(form.server_id, server_id);
    let channel = overridden(form.channel_id, channel_id);
    let in_server = !text::blank(server) || !text::blank(channel);
    if form.sender.len() == 0 || form.receiver.len() == 0 || form.file.len() == 0 {
        Err(Refusal::UploadFieldsMissing)
    } else if in_server && (text::blank(server) || text::blank(channel)) {
        Err(Refusal::ServerIdsMissing)
    } else {
        Ok(
            DraftModel {
                client_id: text::trimmed(form.client_id),
                sender: user,
                receiver: form.receiver,
                server_id: if in_server {
                    Some(text::trimmed(server))
                } else {
                    None
                },
                channel_id: if in_server {
                    Some(text::trimmed(channel))
                } else {
                    None
                },
                file: form.file,
            },
        )
    }
}

/// The message that a form asks to store.
pub fn prepare_draft(
    form: UploadFields,
    user: &str,
    server_id: Option<String>,
    channel_id: Option<String>,
) -> (r: Result<Draft, Refusal>)
    ensures
        match r {
            Ok(draft) => drafted(
                form@,
                user@,
                text::opt_text(server_id),
                text::opt_text(channel_id),
            ) == Ok::<DraftModel, Refusal>(draft@),
            Err(e) => drafted(
                form@,
                user@,
                text::opt_text(server_id),
                text::opt_text(channel_id),
            ) == Err::<DraftModel, Refusal>(e),
        },
{
    let server = match server_id {
        Some(other) => other,
        None => form.server_id,
    };
    let channel = match channel_id {
        Some(other) => other,
        None => form.channel_id,
    };
    if form.sender.as_str().is_empty() || form.receiver.as_str().is_empty() || form.file.len()
        == 0 {
        return Err(Refusal::UploadFieldsMissing);
    }
    let server = text::trim(server.as_str());
    let channel = text::trim(channel.as_str());
    let in_server = !server.is_empty() || !channel.is_empty();
    if in_server && (server.is_empty() || channel.is_empty()) {
        return Err(Refusal::ServerIdsMissing);
    }
    Ok(
        Draft {
            client_id: text::trim(form.client_id.as_str()).to_string(),
            sender: user.to_string(),
            receiver: form.receiver,
            server_id: if in_server {
                Some(server.to_string())
            } else {
                None
            },
            channel_id: if in_server {
                Some(channel.to_string())
            } else {
                None
            },
            file: form.file,
        },
    )
}

/// The bytes that every archive starts with: `ZALIMSSG`.
pub open spec fn signature() -> Seq<u8> {
    seq![90u8, 65u8, 76u8, 73u8, 77u8, 83u8, 83u8, 71u8]
}

/// Whether a file starts as an archive does.
pub open spec fn is_archive(file: Seq<u8>) -> bool {
    signature().is_prefix_of(file)
}

/// Whether a file starts as an archive does.
pub fn has_signature(file: &Vec<u8>) -> (r: bool)
    ensures
        r == is_archive(file@),
{
    if file.len() < 8 {
        return false;
    }
    let r = file[0] == 90 && file[1] == 65 && file[2] == 76 && file[3] == 73 && file[4] == 77
        && file[5] == 83 && file[6] == 83 && file[7] == 71;
    proof {
        let start = file@.subrange(0, 8);
        if r {
            assert(start =~= signature());
        } else if is_archive(file@) {
            assert(start =~= signature());
            assert(start[0] == file@[0] && start[1] == file@[1] && start[2] == file@[2] && start[3]
                == file@[3] && start[4] == file@[4] && start[5] == file@[5] && start[6] == file@[6]
                && start[7] == file@[7]);
            assert(false);
        }
    }
    r
}

/// The name of the file of a message.
pub open spec fn file_name(id: Seq<char>) -> Seq<char> {
    id + ".zali"@
}

/// The name under which the file of a message is written first.
pub open spec fn temp_name(id: Seq<char>) -> Seq<char> {
    id + ".zali"@ + ".tmp"@
}

// ---------------------------------------------------------------------------
// Messages that came before
// ---------------------------------------------------------------------------

/// An id that may be left out; none is the same as an empty one.
pub open spec fn or_empty(id: Option<Seq<char>>) -> Seq<char> {
    match id {
        Some(s) => s,
        None => Seq::empty(),
    }
}

/// Whether a message is the one that a draft is of: it has the same id of the client,
/// the same sender and receiver, and stands in the same channel.
pub open spec fn same_scope(message: MessageModel, draft: DraftModel) -> bool {
    &&& message.client_id == Some(draft.client_id)
    &&& message.sender == draft.sender
    &&& message.receiver == draft.receiver
    &&& or_empty(message.server_id) == or_empty(draft.server_id)
    &&& or_empty(message.channel_id) == or_empty(draft.channel_id)
}

/// The models of messages.
pub open spec fn message_models(v: Seq<Message>) -> Seq<MessageModel> {
    v.map_values(|m: Message| m@)
}

/// The id of the first message in the scope of a draft.
pub open spec fn first_in_scope(rows: Seq<MessageModel>, draft: DraftModel) -> Option<Seq<char>>
    decreases rows.len(),
{
    if rows.len() == 0 {
        None
    } else if same_scope(rows[0], draft) {
        Some(rows[0].id)
    } else {
        first_in_scope(rows.drop_first(), draft)
    }
}

/// The id of the message that a draft repeats, if it repeats one. A draft without an
/// id of the client repeats none.
pub open spec fn repeated(rows: Seq<MessageModel>, draft: DraftModel) -> Option<Seq<char>> {
    if text::blank(draft.client_id) {
        None
    } else {
        first_in_scope(rows, draft)
    }
}

fn same_id(a: &Option<String>, b: &Option<String>) -> (r: bool)
    ensures
        r == (or_empty(text::opt_text(*a)) == or_empty(text::opt_text(*b))),
{
    proof {
        assert(forall|s: Seq<char>| s.len() == 0 ==> s =~= Seq::<char>::empty());
    }
    match (a, b) {
        (Some(x), Some(y)) => text::str_eq(x.as_str(), y.as_str()),
        (Some(x), None) => x.as_str().is_empty(),
        (None, Some(y)) => y.as_str().is_empty(),
        (None, None) => true,
    }
}

fn is_in_scope(message: &Message, draft: &Draft) -> (r: bool)
    ensures
        r == same_scope(message@, draft@),
{
    let same_client_id = match &message.client_id {
        Some(id) => text::str_eq(id.as_str(), draft.client_id.as_str()),
        None => false,
    };
    same_client_id && text::str_eq(message.sender.as_str(), draft.sender.as_str())
        && text::str_eq(message.receiver.as_str(), draft.receiver.as_str()) && same_id(
        &message.server_id,
        &draft.server_id,
    ) && same_id(&message.channel_id, &draft.channel_id)
}

/// The id of the message that a draft repeats, among messages that were stored.
pub fn find_message_by_client_scope(rows: &Vec<Message>, draft: &Draft) -> (r: Option<String>)
    ensures
        text::opt_text(r) == repeated(message_models(rows@), draft@),
{
    if text::is_blank(draft.client_id.as_str()) {
        return None;
    }
    let ghost all = message_models(rows@);
    let mut i: usize = 0;
    proof {
        assert(all.skip(0) == all);
    }
    while i < rows.len()
        invariant
            i <= rows@.len(),
            all == message_models(rows@),
            !text::blank(draft.client_id@),
            first_in_scope(all, draft@) == first_in_scope(all.skip(i as int), draft@),
        decreases rows@.len() - i,
    {
        proof {
            assert(all.skip(i as int).drop_first() =~= all.skip(i as int + 1));
            assert(all.skip(i as int)[0] == rows@[i as int]@);
        }
        if is_in_scope(&rows[i], draft) {
            return Some(rows[i].id.clone());
        }
        i += 1;
    }
    None
}

// ---------------------------------------------------------------------------
// Storing
// ---------------------------------------------------------------------------

/// Where the storing of a message stands: what is to be done next, or how it ended.
#[derive(Debug, Clone, Copy, PartialEq, Eq, Structural)]
pub enum Stage {
    /// Look up the server, and whether the sender may send to the channel.
    AskServer,
    /// Look up the channel.
    AskChannel,
    /// Look for a message that the client sent before under the same id.
    AskExisting,
    /// Write the file under its temporary name.
    WriteTemp,
    /// Give the file its own name.
    MoveTemp,
    /// Remove the file under its temporary name.
    RemoveTemp,
    /// Record the message.
    Insert,
    /// Remove the file.
    RemoveFile,
    /// Look again for a message that the client sent before under the same id.
    AskAgain,
    /// Tell those who get the message.
    Deliver,
    /// The message is stored.
    Created,
    /// The message had been stored before.
    Known,
    Refused(Refusal),
}

/// What came of the last step.
#[derive(Debug)]
pub enum UploadEvent {
    /// The server: whether the sender may send to the channel. A server that is not
    /// open to the sender counts as missing.
    Server(Lookup<bool>),
    Channel(Lookup<()>),
    /// The id of a message that the client sent before.
    Existing(Lookup<String>),
    Wrote(bool),
    Moved(bool),
    Removed,
    Inserted(bool),
    Delivered,
}

/// The model of what came of the last step.
pub enum EventModel {
    Server(Lookup<bool>),
    Channel(Lookup<()>),
    Existing(Lookup<Seq<char>>),
    Wrote(bool),
    Moved(bool),
    Removed,
    Inserted(bool),
    Delivered,
}

impl View for UploadEvent {
    type V = EventModel;

    open spec fn view(&self) -> EventModel {
        match self {
            UploadEvent::Server(s) => EventModel::Server(*s),
            UploadEvent::Channel(c) => EventModel::Channel(*c),
            UploadEvent::Existing(Lookup::Failed) => EventModel::Existing(Lookup::Failed),
            UploadEvent::Existing(Lookup::Missing) => EventModel::Existing(Lookup::Missing),
            UploadEvent::Existing(Lookup::Found(id)) => EventModel::Existing(Lookup::Found(id@)),
            UploadEvent::Wrote(b) => EventModel::Wrote(*b),
            UploadEvent::Moved(b) => EventModel::Moved(*b),
            UploadEvent::Removed => EventModel::Removed,
            UploadEvent::Inserted(b) => EventModel::Inserted(*b),
            UploadEvent::Delivered => EventModel::Delivered,
        }
    }
}

/// The storing of a message.
#[derive(Debug)]
pub struct Upload {
    pub draft: Draft,
    pub id: String,
    pub stage: Stage,
    /// The id of the message that had been stored before.
    pub existing: Option<String>,
}

/// The model of the storing of a message.
pub struct UploadModel {
    pub draft: DraftModel,
    pub id: Seq<char>,
    pub stage: Stage,
    pub existing: Option<Seq<char>>,
}

impl View for Upload {
    type V = UploadModel;

    open spec fn view(&self) -> UploadModel {
        UploadModel {
            draft: self.draft@,
            id: self.id@,
            stage: self.stage,
            existing: text::opt_text(self.existing),
        }
    }
}

/// What is next once access is settled: the file has to be an archive; with an id
/// of the client, an earlier message is looked for first.
pub open spec fn checked(draft: DraftModel) -> Stage {
    if !is_archive(draft.file) {
        Stage::Refused(Refusal::BadSignature)
    } else if draft.client_id.len() > 0 {
        Stage::AskExisting
    } else {
        Stage::WriteTemp
    }
}

/// The storing of a message at its start.
pub open spec fn started(draft: DraftModel, id: Seq<char>) -> UploadModel {
    UploadModel {
        draft,
        id,
        stage: if draft.server_id is Some {
            Stage::AskServer
        } else {
            checked(draft)
        },
        existing: None,
    }
}

/// The storing of a message after one more step. What does not belong to the step
/// that was to be done changes nothing.
pub open spec fn advanced(u: UploadModel, event: EventModel) -> UploadModel {
    let internal = Stage::Refused(Refusal::Internal);
    match (u.stage, event) {
        (Stage::AskServer, EventModel::Server(found)) => UploadModel {
            stage: match found {
                Lookup::Failed => internal,
                Lookup::Missing => Stage::Refused(Refusal::ServerNotFound),
                Lookup::Found(may_send) => if may_send {
                    Stage::AskChannel
                } else {
                    Stage::Refused(Refusal::Forbidden)
                },
            },
            ..u
        },
        (Stage::AskChannel, EventModel::Channel(found)) => UploadModel {
            stage: match found {
                Lookup::Failed => internal,
                Lookup::Missing => Stage::Refused(Refusal::ChannelNotFound),
                Lookup::Found(_) => checked(u.draft),
            },
            ..u
        },
        (Stage::AskExisting, EventModel::Existing(found)) => match found {
            Lookup::Failed => UploadModel { stage: internal, ..u },
            Lookup::Missing => UploadModel { stage: Stage::WriteTemp, ..u },
            Lookup::Found(id) => UploadModel { stage: Stage::Known, existing: Some(id), ..u },
        },
        (Stage::WriteTemp, EventModel::Wrote(worked)) => UploadModel {
            stage: if worked {
                Stage::MoveTemp
            } else {
                internal
            },
            ..u
        },
        (Stage::MoveTemp, EventModel::Moved(worked)) => UploadModel {
            stage: if worked {
                Stage::Insert
            } else {
                Stage::RemoveTemp
            },
            ..u
        },
        (Stage::RemoveTemp, EventModel::Removed) => UploadModel { stage: internal, ..u },
        (Stage::Insert, EventModel::Inserted(worked)) => UploadModel {
            stage: if worked {
                Stage::Deliver
            } else {
                Stage::RemoveFile
            },
            ..u
        },
        (Stage::RemoveFile, EventModel::Removed) => UploadModel {
            stage: if u.draft.client_id.len() > 0 {
                Stage::AskAgain
            } else {
                internal
            },
            ..u
        },
        (Stage::AskAgain, EventModel::Existing(found)) => match found {
            Lookup::Found(id) => UploadModel { stage: Stage::Known, existing: Some(id), ..u },
            _ => UploadModel { stage: internal, ..u },
        },
        (Stage::Deliver, EventModel::Delivered) => UploadModel { stage: Stage::Created, ..u },
        _ => u,
    }
}

fn checked_stage(draft: &Draft) -> (r: Stage)
    ensures
        r == checked(draft@),
{
    if !has_signature(&draft.file) {
        Stage::Refused(Refusal::BadSignature)
    } else if !draft.client_id.as_str().is_empty() {
        Stage::AskExisting
    } else {
        Stage::WriteTemp
    }
}

impl Upload {
    /// Starts to store a message under an id.
    pub fn start(draft: Draft, id: String) -> (r: Upload)
        ensures
            r@ == started(draft@, id@),
    {
        let stage = if draft.server_id.is_some() {
            Stage::AskServer
        } else {
            checked_stage(&draft)
        };
        Upload { draft, id, stage, existing: None }
    }

    /// Starts to store a message under a new id. Which id is drawn is chance.
    pub fn begin(draft: Draft) -> (r: Upload)
        ensures
            ids::uuid_form(r.id@),
            r@ == started(draft@, r.id@),
    {
        Upload::start(draft, ids::new_uuid())
    }

    /// Takes what came of the last step.
    pub fn advance(&mut self, event: UploadEvent)
        ensures
            final(self)@ == advanced(old(self)@, event@),
    {
        let internal = Stage::Refused(Refusal::Internal);
        match (self.stage, event) {
            (Stage::AskServer, UploadEvent::Server(found)) => {
                self.stage = match found {
                    Lookup::Failed => internal,
                    Lookup::Missing => Stage::Refused(Refusal::ServerNotFound),
                    Lookup::Found(may_send) => if may_send {
                        Stage::AskChannel
                    } else {
                        Stage::Refused(Refusal::Forbidden)
                    },
                };
            },
            (Stage::AskChannel, UploadEvent::Channel(found)) => {
                self.stage = match found {
                    Lookup::Failed => internal,
                    Lookup::Missing => Stage::Refused(Refusal::ChannelNotFound),
                    Lookup::Found(_) => checked_stage(&self.draft),
                };
            },
            (Stage::AskExisting, UploadEvent::Existing(found)) => match found {
                Lookup::Failed => {
                    self.stage = internal;
                },
                Lookup::Missing => {
                    self.stage = Stage::WriteTemp;
                },
                Lookup::Found(id) => {
                    self.stage = Stage::Known;
                    self.existing = Some(id);
                },
            },
            (Stage::WriteTemp, UploadEvent::Wrote(worked)) => {
                self.stage = if worked {
                    Stage::MoveTemp
                } else {
                    internal
                };
            },
            (Stage::MoveTemp, UploadEvent::Moved(worked)) => {
                self.stage = if worked {
                    Stage::Insert
                } else {
                    Stage::RemoveTemp
                };
            },
            (Stage::RemoveTemp, UploadEvent::Removed) => {
                self.stage = internal;
            },
            (Stage::Insert, UploadEvent::Inserted(worked)) => {
                self.stage = if worked {
                    Stage::Deliver
                } else {
                    Stage::RemoveFile
                };
            },
            (Stage::RemoveFile, UploadEvent::Removed) => {
                self.stage = if !self.draft.client_id.as_str().is_empty() {
                    Stage::AskAgain
                } else {
                    internal
                };
            },
            (Stage::AskAgain, UploadEvent::Existing(found)) => match found {
                Lookup::Found(id) => {
                    self.stage = Stage::Known;
                    self.existing = Some(id);
                },
                _ => {
                    self.stage = internal;
                },
            },
            (Stage::Deliver, UploadEvent::Delivered) => {
                self.stage = Stage::Created;
            },
            _ => {},
        }
    }

    /// The name of the message's file.
    pub fn filename(&self) -> (r: String)
        ensures
            r@ == file_name(self.id@),
    {
        text::join2(self.id.as_str(), ".zali")
    }

    /// The name under which the message's file is written first.
    pub fn temp_filename(&self) -> (r: String)
        ensures
            r@ == temp_name(self.id@),
    {
        text::join3(self.id.as_str(), ".zali", ".tmp")
    }

    /// The message as it is recorded.
    pub fn message(&self, timestamp: Timestamp) -> (r: Message)
        ensures
            r@ == recorded(self@, timestamp),
    {
        Message {
            id: self.id.clone(),
            client_id: self.client_id(),
            sender: self.draft.sender.clone(),
            receiver: self.draft.receiver.clone(),
            filename: self.filename(),
            timestamp,
            server_id: text::clone_opt(&self.draft.server_id),
            channel_id: text::clone_opt(&self.draft.channel_id),
        }
    }

    /// The client's id of the message, if it gave one.
    pub fn client_id(&self) -> (r: Option<String>)
        ensures
            text::opt_text(r) == given_client_id(self@.draft),
    {
        if self.draft.client_id.as_str().is_empty() {
            None
        } else {
            Some(self.draft.client_id.clone())
        }
    }

    /// What the client is answered, once that is settled: the id of the message that
    /// is stored, with the client's own; or why it is not.
    pub fn answer(&self) -> (r: Option<Result<JsonObject, Refusal>>)
        ensures
            match r {
                Some(Ok(object)) => answered(self@) == Some(
                    Ok::<Seq<(Seq<char>, JsonModel)>, Refusal>(object@),
                ),
                Some(Err(e)) => answered(self@) == Some(
                    Err::<Seq<(Seq<char>, JsonModel)>, Refusal>(e),
                ),
                None => answered(self@) is None,
            },
    {
        match self.stage {
            Stage::Created => {
                let client_id = self.client_id();
                let o = id_answer(self.id.as_str(), &client_id);
                Some(Ok(o))
            },
            Stage::Known => match &self.existing {
                Some(id) => {
                    let client_id = Some(self.draft.client_id.clone());
                    let o = id_answer(id.as_str(), &client_id);
                    Some(Ok(o))
                },
                None => None,
            },
            Stage::Refused(e) => Some(Err(e)),
            _ => None,
        }
    }
}

fn id_answer(id: &str, client_id: &Option<String>) -> (r: JsonObject)
    ensures
        r@ == id_object(id@, text::opt_text(*client_id)),
{
    let mut o = JsonObject { members: Vec::new() };
    proof {
        assert(o@ =~= Seq::empty());
    }
    o.put_text("id", id);
    o.put_opt("clientId", client_id);
    proof {
        assert(o@ =~= id_object(id@, text::opt_text(*client_id)));
    }
    o
}

/// The client's id of a message, if it gave one.
pub open spec fn given_client_id(draft: DraftModel) -> Option<Seq<char>> {
    if draft.client_id.len() == 0 {
        None
    } else {
        Some(draft.client_id)
    }
}

/// A message as it is recorded.
pub open spec fn recorded(u: UploadModel, timestamp: Timestamp) -> MessageModel {
    MessageModel {
        id: u.id,
        client_id: given_client_id(u.draft),
        sender: u.draft.sender,
        receiver: u.draft.receiver,
        filename: file_name(u.id),
        timestamp,
        server_id: u.draft.server_id,
        channel_id: u.draft.channel_id,
    }
}

pub open spec fn id_object(id: Seq<char>, client_id: Option<Seq<char>>) -> Seq<
    (Seq<char>, JsonModel),
> {
    seq![("id"@, JsonModel::Text(id)), ("clientId"@, json::text_or_null(client_id))]
}

/// What the client is answered, once that is settled.
pub open spec fn answered(u: UploadModel) -> Option<
    Result<Seq<(Seq<char>, JsonModel)>, Refusal>,
> {
    match u.stage {
        Stage::Created => Some(Ok(id_object(u.id, given_client_id(u.draft)))),
        Stage::Known => match u.existing {
            Some(id) => Some(Ok(id_object(id, Some(u.draft.client_id)))),
            None => None,
        },
        Stage::Refused(e) => Some(Err(e)),
        _ => None,
    }
}

// ---------------------------------------------------------------------------
// Downloads and deletions
// ---------------------------------------------------------------------------

/// How a file is offered: under its name, where that can stand in a header.
pub open spec fn disposition_of(filename: Seq<char>) -> Seq<char> {
    let named = "attachment; filename=\""@ + filename + "\""@;
    if headers::header_text(named) {
        named
    } else {
        "attachment"@
    }
}

/// How a file is offered.
pub fn content_disposition(filename: &str) -> (r: String)
    ensures
        r@ == disposition_of(filename@),
{
    let named = text::join3("attachment; filename=\"", filename, "\"");
    if headers::is_header_value(named.as_str()) {
        named
    } else {
        "attachment".to_string()
    }
}

/// Whether a message can be had or deleted, where it was looked for and access to
/// it decided.
pub fn plan_message_access(found: bool, allowed: bool) -> (r: Result<(), Refusal>)
    ensures
        r == (if !found {
            Err::<(), Refusal>(Refusal::NotFound)
        } else if !allowed {
            Err(Refusal::Forbidden)
        } else {
            Ok(())
        }),
{
    if !found {
        Err(Refusal::NotFound)
    } else if !allowed {
        Err(Refusal::Forbidden)
    } else {
        Ok(())
    }
}

/// Whether a file can be had by its name, where its message was looked for and
/// access to it decided.
pub fn plan_file_access(found: Lookup<bool>) -> (r: Result<(), Refusal>)
    ensures
        r == (match found {
            Lookup::Failed => Err::<(), Refusal>(Refusal::Internal),
            Lookup::Missing => Err(Refusal::NotFound),
            Lookup::Found(allowed) => if allowed {
                Ok(())
            } else {
                Err(Refusal::Forbidden)
            },
        }),
{
    match found {
        Lookup::Failed => Err(Refusal::Internal),
        Lookup::Missing => Err(Refusal::NotFound),
        Lookup::Found(allowed) => if allowed {
            Ok(())
        } else {
            Err(Refusal::Forbidden)
        },
    }
}

// ---------------------------------------------------------------------------
// Avatars
// ---------------------------------------------------------------------------

/// The most bytes that an avatar may have.
pub const MAX_AVATAR_BYTES: usize = 2_097_152;

/// The type of an avatar's file, where the form says none.
pub fn avatar_mime(content_type: Option<String>) -> (r: String)
    ensures
        r@ == (match content_type {
            Some(t) => t@,
            None => "image/png"@,
        }),
{
    match content_type {
        Some(t) => t,
        None => "image/png".to_string(),
    }
}

/// Whether a file can be an avatar: it is there, an image, and not too large.
pub fn check_avatar(file: &Vec<u8>, mime_type: &str) -> (r: Result<(), Refusal>)
    ensures
        r == (if file@.len() == 0 {
            Err::<(), Refusal>(Refusal::AvatarMissing)
        } else if !"image/"@.is_prefix_of(mime_type@) {
            Err(Refusal::AvatarNotImage)
        } else if file@.len() > MAX_AVATAR_BYTES {
            Err(Refusal::AvatarTooLarge)
        } else {
            Ok(())
        }),
{
    if file.len() == 0 {
        return Err(Refusal::AvatarMissing);
    }
    match text::strip_prefix(mime_type, "image/") {
        Some(rest) => {
            proof {
                assert(("image/"@ + rest@).subrange(0, "image/"@.len() as int) =~= "image/"@);
            }
        },
        None => {
            return Err(Refusal::AvatarNotImage);
        },
    }
    if file.len() > MAX_AVATAR_BYTES {
        return Err(Refusal::AvatarTooLarge);
    }
    Ok(())
}

/// What a client is answered whose avatar passed the checks, by whether its file was
/// written and it was recorded; and whether the file has to be removed again.
pub fn finish_avatar(written: bool, recorded: bool) -> (r: (Result<(), Refusal>, bool))
    ensures
        r.0 == (if written && recorded {
            Ok::<(), Refusal>(())
        } else {
            Err(Refusal::Internal)
        }),
        r.1 == (written && !recorded),
{
    if written && recorded {
        (Ok(()), false)
    } else {
        (Err(Refusal::Internal), written)
    }
}

/// A point in time as RFC 3339 text, as chrono writes it; none for a point that it
/// cannot hold.
pub uninterp spec fn rfc3339_text(secs: i64, nanos: u32) -> Option<Seq<char>>;

/// Calls `chrono::DateTime::from_timestamp` and `DateTime::to_rfc3339`.
#[verifier::external_body]
fn to_rfc3339(at: Timestamp) -> (r: Option<String>)
    ensures
        text::opt_text(r) == rfc3339_text(at.secs, at.nanos),
{
    DateTime::<Utc>::from_timestamp(at.secs, at.nanos).map(|t| t.to_rfc3339())
}

/// What everyone is told of a user's avatar.
pub open spec fn avatar_object(
    username: Seq<char>,
    deleted: bool,
    updated_at: Option<Seq<char>>,
) -> Seq<(Seq<char>, JsonModel)> {
    seq![
        (
            "type"@,
            JsonModel::Text(
                if deleted {
                    "avatar_deleted"@
                } else {
                    "avatar_updated"@
                },
            ),
        ),
        ("username"@, JsonModel::Text(username)),
        ("deleted"@, JsonModel::Bool(deleted)),
        ("updated_at"@, json::text_or_null(updated_at)),
    ]
}

/// What everyone is told of a user's avatar, with the time as text.
pub fn avatar_event(username: &str, deleted: bool, updated_at: &Option<String>) -> (r: JsonObject)
    ensures
        r@ == avatar_object(username@, deleted, text::opt_text(*updated_at)),
{
    let mut o = JsonObject::of_type(
        if deleted {
            "avatar_deleted"
        } else {
            "avatar_updated"
        },
    );
    o.put_text("username", username);
    o.put("deleted", JsonValue::Bool(deleted));
    o.put_opt("updated_at", updated_at);
    proof {
        assert(o@ =~= avatar_object(username@, deleted, text::opt_text(*updated_at)));
    }
    o
}

/// The time as text, where there is one.
pub open spec fn time_text(at: Option<Timestamp>) -> Option<Seq<char>> {
    match at {
        Some(t) => rfc3339_text(t.secs, t.nanos),
        None => None,
    }
}

fn write_time(at: Option<Timestamp>) -> (r: Option<String>)
    ensures
        text::opt_text(r) == time_text(at),
{
    match at {
        Some(t) => to_rfc3339(t),
        None => None,
    }
}

/// What everyone is told of a user's avatar.
pub fn broadcast_avatar_event(username: &str, deleted: bool, updated_at: Option<Timestamp>) -> (r:
    JsonObject)
    ensures
        r@ == avatar_object(username@, deleted, time_text(updated_at)),
{
    let time = write_time(updated_at);
    avatar_event(username, deleted, &time)
}

pub open spec fn avatar_answer_object(
    username: Seq<char>,
    updated_at: Option<Seq<char>>,
    mime_type: Seq<char>,
) -> Seq<(Seq<char>, JsonModel)> {
    seq![
        ("username"@, JsonModel::Text(username)),
        ("updatedAt"@, json::text_or_null(updated_at)),
        ("mimeType"@, JsonModel::Text(mime_type)),
    ]
}

/// What a user is answered whose avatar was stored.
pub fn avatar_answer(username: &str, updated_at: Timestamp, mime_type: &str) -> (r: JsonObject)
    ensures
        r@ == avatar_answer_object(username@, time_text(Some(updated_at)), mime_type@),
{
    let time = write_time(Some(updated_at));
    let mut o = JsonObject { members: Vec::new() };
    proof {
        assert(o@ =~= Seq::empty());
    }
    o.put_text("username", username);
    o.put_opt("updatedAt", &time);
    o.put_text("mimeType", mime_type);
    proof {
        assert(o@ =~= avatar_answer_object(username@, time_text(Some(updated_at)), mime_type@));
    }
    o
}

// ---------------------------------------------------------------------------
// Laws
// ---------------------------------------------------------------------------

/// The storing of a message after a series of steps.
pub open spec fn run(u: UploadModel, events: Seq<EventModel>) -> UploadModel
    decreases events.len(),
{
    if events.len() == 0 {
        u
    } else {
        advanced(run(u, events.drop_last()), events.last())
    }
}

/// Whether, in a series of steps, a step was due and came out as given.
pub open spec fn came_of(
    u: UploadModel,
    events: Seq<EventModel>,
    stage: Stage,
    event: EventModel,
) -> bool {
    exists|k: int|
        0 <= k < events.len() && run(u, #[trigger] events.take(k)).stage == stage && events[k]
            == event
}

/// Whether a step was due in a series of steps, or is.
pub open spec fn was_due(u: UploadModel, events: Seq<EventModel>, stage: Stage) -> bool {
    exists|k: int| 0 <= k <= events.len() && run(u, #[trigger] events.take(k)).stage == stage
}

proof fn came_of_grows(u: UploadModel, events: Seq<EventModel>, stage: Stage, event: EventModel)
    requires
        events.len() > 0,
    ensures
        came_of(u, events.drop_last(), stage, event) ==> came_of(u, events, stage, event),
        run(u, events.drop_last()).stage == stage && events.last() == event ==> came_of(
            u,
            events,
            stage,
            event,
        ),
{
    let init = events.drop_last();
    if came_of(u, init, stage, event) {
        let k = choose|k: int|
            0 <= k < init.len() && run(u, #[trigger] init.take(k)).stage == stage && init[k]
                == event;
        assert(events.take(k) =~= init.take(k));
        assert(events[k] == event);
    }
    if run(u, init).stage == stage && events.last() == event {
        let k = events.len() - 1;
        assert(events.take(k) =~= init);
        assert(events[k] == event);
    }
}

proof fn was_due_grows(u: UploadModel, events: Seq<EventModel>, stage: Stage)
    ensures
        events.len() > 0 && was_due(u, events.drop_last(), stage) ==> was_due(u, events, stage),
        run(u, events).stage == stage ==> was_due(u, events, stage),
{
    if events.len() > 0 && was_due(u, events.drop_last(), stage) {
        let init = events.drop_last();
        let k = choose|k: int|
            0 <= k <= init.len() && run(u, #[trigger] init.take(k)).stage == stage;
        assert(events.take(k) =~= init.take(k));
    }
    if run(u, events).stage == stage {
        assert(events.take(events.len() as int) =~= events);
    }
}

/// A stage that comes after the checks: something is written, or was found.
pub open spec fn past_checks(stage: Stage) -> bool {
    match stage {
        Stage::AskServer => false,
        Stage::AskChannel => false,
        Stage::Refused(_) => false,
        _ => true,
    }
}

/// What a message is does not change while it is stored.
pub proof fn run_keeps_draft(u: UploadModel, events: Seq<EventModel>)
    ensures
        run(u, events).draft == u.draft,
        run(u, events).id == u.id,
    decreases events.len(),
{
    if events.len() > 0 {
        run_keeps_draft(u, events.drop_last());
    }
}

/// Nothing is written and no earlier message is named before the checks are passed:
/// the file is an archive, and for a message in a server, the sender may send to
/// the channel and the channel is there.
pub proof fn nothing_is_stored_unchecked(
    draft: DraftModel,
    id: Seq<char>,
    events: Seq<EventModel>,
)
    requires
        past_checks(run(started(draft, id), events).stage),
    ensures
        is_archive(draft.file),
        draft.server_id is Some ==> came_of(
            started(draft, id),
            events,
            Stage::AskServer,
            EventModel::Server(Lookup::Found(true)),
        ),
        draft.server_id is Some ==> came_of(
            started(draft, id),
            events,
            Stage::AskChannel,
            EventModel::Channel(Lookup::Found(())),
        ),
{
    checks_in_order(draft, id, events);
}

proof fn checks_in_order(draft: DraftModel, id: Seq<char>, events: Seq<EventModel>)
    ensures
        ({
            let u = started(draft, id);
            let stage = run(u, events).stage;
            &&& past_checks(stage) ==> is_archive(draft.file)
            &&& draft.server_id is Some && (past_checks(stage) || stage is AskChannel) ==> came_of(
                u,
                events,
                Stage::AskServer,
                EventModel::Server(Lookup::Found(true)),
            )
            &&& draft.server_id is Some && past_checks(stage) ==> came_of(
                u,
                events,
                Stage::AskChannel,
                EventModel::Channel(Lookup::Found(())),
            )
        }),
    decreases events.len(),
{
    let u = started(draft, id);
    if events.len() > 0 {
        let init = events.drop_last();
        checks_in_order(draft, id, init);
        run_keeps_draft(u, init);
        came_of_grows(u, events, Stage::AskServer, EventModel::Server(Lookup::Found(true)));
        came_of_grows(u, events, Stage::AskChannel, EventModel::Channel(Lookup::Found(())));
        let before = run(u, init);
        match (before.stage, events.last()) {
            (Stage::AskServer, EventModel::Server(Lookup::Found(b))) => {},
            (Stage::AskChannel, EventModel::Channel(Lookup::Found(n))) => {
                assert(n == ());
            },
            _ => {},
        }
    }
}

/// A client is told that its message is stored only if it was recorded, and that it
/// is known only with the id that was found.
pub proof fn success_is_earned(draft: DraftModel, id: Seq<char>, events: Seq<EventModel>)
    ensures
        ({
            let u = started(draft, id);
            let end = run(u, events);
            &&& end.stage is Created ==> came_of(
                u,
                events,
                Stage::Insert,
                EventModel::Inserted(true),
            )
            &&& end.stage is Known ==> end.existing is Some && (came_of(
                u,
                events,
                Stage::AskExisting,
                EventModel::Existing(Lookup::Found(end.existing->0)),
            ) || came_of(
                u,
                events,
                Stage::AskAgain,
                EventModel::Existing(Lookup::Found(end.existing->0)),
            ))
        }),
{
    recorded_or_found(draft, id, events);
}

proof fn recorded_or_found(draft: DraftModel, id: Seq<char>, events: Seq<EventModel>)
    ensures
        ({
            let u = started(draft, id);
            let end = run(u, events);
            &&& end.stage is Created || end.stage is Deliver ==> came_of(
                u,
                events,
                Stage::Insert,
                EventModel::Inserted(true),
            )
            &&& end.stage is Known ==> end.existing is Some && (came_of(
                u,
                events,
                Stage::AskExisting,
                EventModel::Existing(Lookup::Found(end.existing->0)),
            ) || came_of(
                u,
                events,
                Stage::AskAgain,
                EventModel::Existing(Lookup::Found(end.existing->0)),
            ))
        }),
    decreases events.len(),
{
    let u = started(draft, id);
    if events.len() > 0 {
        let init = events.drop_last();
        recorded_or_found(draft, id, init);
        let end = run(u, events);
        came_of_grows(u, events, Stage::Insert, EventModel::Inserted(true));
        if end.stage is Known {
            let found = EventModel::Existing(Lookup::Found(end.existing->0));
            came_of_grows(u, events, Stage::AskExisting, found);
            came_of_grows(u, events, Stage::AskAgain, found);
        }
    }
}

/// A stage in which something is written, removed or told.
pub open spec fn touches_the_store(stage: Stage) -> bool {
    match stage {
        Stage::WriteTemp => true,
        Stage::MoveTemp => true,
        Stage::RemoveTemp => true,
        Stage::Insert => true,
        Stage::RemoveFile => true,
        Stage::Deliver => true,
        _ => false,
    }
}

proof fn nothing_before_the_look_up(
    draft: DraftModel,
    id: Seq<char>,
    events: Seq<EventModel>,
    stage: Stage,
)
    requires
        touches_the_store(stage),
        ({
            let now = run(started(draft, id), events).stage;
            now is AskServer || now is AskChannel || now is AskExisting
        }),
    ensures
        !was_due(started(draft, id), events, stage),
    decreases events.len(),
{
    let u = started(draft, id);
    if events.len() > 0 {
        nothing_before_the_look_up(draft, id, events.drop_last(), stage);
    }
    if was_due(u, events, stage) {
        due_now_or_before(u, events, stage);
    }
}

proof fn came_of_now_or_before(
    u: UploadModel,
    events: Seq<EventModel>,
    stage: Stage,
    event: EventModel,
)
    requires
        came_of(u, events, stage, event),
    ensures
        events.len() > 0,
        (run(u, events.drop_last()).stage == stage && events.last() == event) || came_of(
            u,
            events.drop_last(),
            stage,
            event,
        ),
{
    let k = choose|k: int|
        0 <= k < events.len() && run(u, #[trigger] events.take(k)).stage == stage && events[k]
            == event;
    let init = events.drop_last();
    if k == events.len() - 1 {
        assert(events.take(k) =~= init);
    } else {
        assert(events.take(k) =~= init.take(k));
        assert(init[k] == event);
    }
}

proof fn found_ends_known(
    draft: DraftModel,
    id: Seq<char>,
    events: Seq<EventModel>,
    stage: Stage,
    known: Seq<char>,
)
    requires
        stage is AskExisting || stage is AskAgain,
        came_of(started(draft, id), events, stage, EventModel::Existing(Lookup::Found(known))),
    ensures
        run(started(draft, id), events).stage is Known,
        run(started(draft, id), events).existing == Some(known),
    decreases events.len(),
{
    let u = started(draft, id);
    let found = EventModel::Existing(Lookup::Found(known));
    came_of_now_or_before(u, events, stage, found);
    let init = events.drop_last();
    if !(run(u, init).stage == stage && events.last() == found) {
        found_ends_known(draft, id, init, stage, known);
    }
}

/// A message that was found to be there before is answered with the id that it has and
/// the client's own; nothing is written and no one is told.
pub proof fn known_messages_are_not_stored_again(
    draft: DraftModel,
    id: Seq<char>,
    events: Seq<EventModel>,
    known: Seq<char>,
)
    requires
        came_of(
            started(draft, id),
            events,
            Stage::AskExisting,
            EventModel::Existing(Lookup::Found(known)),
        ),
    ensures
        answered(run(started(draft, id), events)) == Some(
            Ok::<Seq<(Seq<char>, JsonModel)>, Refusal>(id_object(known, Some(draft.client_id))),
        ),
        forall|stage: Stage|
            touches_the_store(stage) ==> !#[trigger] was_due(started(draft, id), events, stage),
    decreases events.len(),
{
    let u = started(draft, id);
    let found = EventModel::Existing(Lookup::Found(known));
    found_ends_known(draft, id, events, Stage::AskExisting, known);
    run_keeps_draft(u, events);
    came_of_now_or_before(u, events, Stage::AskExisting, found);
    let init = events.drop_last();
    if !(run(u, init).stage == Stage::AskExisting && events.last() == found) {
        known_messages_are_not_stored_again(draft, id, init, known);
    }
    assert forall|stage: Stage| touches_the_store(stage) implies !#[trigger] was_due(
        u,
        events,
        stage,
    ) by {
        if run(u, init).stage == Stage::AskExisting && events.last() == found {
            nothing_before_the_look_up(draft, id, init, stage);
        }
        if was_due(u, events, stage) {
            due_now_or_before(u, events, stage);
        }
    }
}

proof fn look_again_after_removal(draft: DraftModel, id: Seq<char>, events: Seq<EventModel>)
    ensures
        ({
            let u = started(draft, id);
            let stage = run(u, events).stage;
            &&& stage is AskAgain ==> was_due(u, events, Stage::RemoveFile)
            &&& !(stage is Deliver || stage is Created) ==> !was_due(u, events, Stage::Deliver)
        }),
    decreases events.len(),
{
    let u = started(draft, id);
    if events.len() > 0 {
        look_again_after_removal(draft, id, events.drop_last());
        was_due_grows(u, events, Stage::RemoveFile);
        was_due_grows(u, events.drop_last(), Stage::RemoveFile);
    }
    if was_due(u, events, Stage::Deliver) {
        due_now_or_before(u, events, Stage::Deliver);
    }
}

/// Where two uploads of a message race, the one that comes too late is answered with
/// the id of the other; the file that it wrote is removed and no one is told of it.
pub proof fn late_messages_are_answered_with_the_first(
    draft: DraftModel,
    id: Seq<char>,
    events: Seq<EventModel>,
    known: Seq<char>,
)
    requires
        came_of(
            started(draft, id),
            events,
            Stage::AskAgain,
            EventModel::Existing(Lookup::Found(known)),
        ),
    ensures
        answered(run(started(draft, id), events)) == Some(
            Ok::<Seq<(Seq<char>, JsonModel)>, Refusal>(id_object(known, Some(draft.client_id))),
        ),
        was_due(started(draft, id), events, Stage::RemoveFile),
        !was_due(started(draft, id), events, Stage::Deliver),
    decreases events.len(),
{
    let u = started(draft, id);
    let found = EventModel::Existing(Lookup::Found(known));
    found_ends_known(draft, id, events, Stage::AskAgain, known);
    run_keeps_draft(u, events);
    look_again_after_removal(draft, id, events);
    came_of_now_or_before(u, events, Stage::AskAgain, found);
    let init = events.drop_last();
    if run(u, init).stage == Stage::AskAgain && events.last() == found {
        look_again_after_removal(draft, id, init);
    } else {
        late_messages_are_answered_with_the_first(draft, id, init, known);
    }
    was_due_grows(u, events, Stage::RemoveFile);
}

/// What is found is the id of a message in the draft's scope, and nothing is found only
/// if there is none: another receiver, server or channel is another scope.
pub proof fn first_in_scope_facts(rows: Seq<MessageModel>, draft: DraftModel)
    ensures
        match first_in_scope(rows, draft) {
            Some(id) => exists|k: int|
                0 <= k < rows.len() && same_scope(#[trigger] rows[k], draft) && rows[k].id == id,
            None => forall|k: int| 0 <= k < rows.len() ==> !same_scope(#[trigger] rows[k], draft),
        },
    decreases rows.len(),
{
    if rows.len() > 0 {
        let rest = rows.drop_first();
        if same_scope(rows[0], draft) {
            assert(rows[0].id == first_in_scope(rows, draft)->0);
        } else {
            first_in_scope_facts(rest, draft);
            match first_in_scope(rest, draft) {
                Some(id) => {
                    let k = choose|k: int|
                        0 <= k < rest.len() && same_scope(#[trigger] rest[k], draft) && rest[k].id
                            == id;
                    assert(rows[k + 1] == rest[k]);
                },
                None => {
                    assert forall|k: int| 0 <= k < rows.len() implies !same_scope(
                        #[trigger] rows[k],
                        draft,
                    ) by {
                        if k > 0 {
                            assert(rows[k] == rest[k - 1]);
                        }
                    }
                },
            }
        }
    }
}

/// What a look for an earlier message among those stored brings.
pub open spec fn look_up(rows: Seq<MessageModel>, draft: DraftModel) -> EventModel {
    EventModel::Existing(
        match repeated(rows, draft) {
            Some(id) => Lookup::Found(id),
            None => Lookup::Missing,
        },
    )
}

/// A user who sends a message again, under the same id of the client, to the same
/// receiver and in the same place, is answered as the first time, with the first
/// message's id; nothing is written and no one is told. That is so as long as the first
/// message is there, and the only one of its scope.
pub proof fn retried_uploads_are_answered_as_before(
    form: FieldsModel,
    again: FieldsModel,
    user: Seq<char>,
    server_id: Option<Seq<char>>,
    channel_id: Option<Seq<char>>,
    first_id: Seq<char>,
    second_id: Seq<char>,
    timestamp: Timestamp,
    rows: Seq<MessageModel>,
    events: Seq<EventModel>,
)
    requires
        drafted(form, user, server_id, channel_id) is Ok,
        drafted(again, user, server_id, channel_id) is Ok,
        !text::blank(form.client_id),
        again.client_id == form.client_id,
        again.receiver == form.receiver,
        again.server_id == form.server_id,
        again.channel_id == form.channel_id,
        ({
            let first = drafted(form, user, server_id, channel_id)->Ok_0;
            &&& rows.contains(recorded(started(first, first_id), timestamp))
            &&& forall|k: int|
                0 <= k < rows.len() && same_scope(#[trigger] rows[k], first) ==> rows[k].id
                    == first_id
        }),
        ({
            let second = drafted(again, user, server_id, channel_id)->Ok_0;
            came_of(
                started(second, second_id),
                events,
                Stage::AskExisting,
                look_up(rows, second),
            )
        }),
    ensures
        ({
            let second = drafted(again, user, server_id, channel_id)->Ok_0;
            let u = started(second, second_id);
            &&& answered(run(u, events)) == Some(
                Ok::<Seq<(Seq<char>, JsonModel)>, Refusal>(
                    id_object(first_id, Some(text::trimmed(form.client_id))),
                ),
            )
            &&& forall|stage: Stage|
                touches_the_store(stage) ==> !#[trigger] was_due(u, events, stage)
        }),
{
    let first = drafted(form, user, server_id, channel_id)->Ok_0;
    let second = drafted(again, user, server_id, channel_id)->Ok_0;
    text::trimmed_idempotent(form.client_id);
    let row = recorded(started(first, first_id), timestamp);
    assert(same_scope(row, second));
    assert(forall|m: MessageModel| same_scope(m, second) ==> same_scope(m, first));
    first_in_scope_facts(rows, second);
    assert(repeated(rows, second) == Some(first_id));
    known_messages_are_not_stored_again(second, second_id, events, first_id);
}

/// A message that is refused, or was there before, leaves no file: what was written
/// under a temporary name and not given its own is removed, and so is what was given
/// its own.
pub proof fn refused_uploads_leave_no_file(
    draft: DraftModel,
    id: Seq<char>,
    events: Seq<EventModel>,
)
    requires
        ({
            let end = run(started(draft, id), events).stage;
            end is Refused || end is Known
        }),
    ensures
        ({
            let u = started(draft, id);
            &&& was_due(u, events, Stage::Insert) ==> was_due(u, events, Stage::RemoveFile)
            &&& was_due(u, events, Stage::MoveTemp) && !was_due(u, events, Stage::Insert)
                ==> was_due(u, events, Stage::RemoveTemp)
        }),
{
    files_are_tracked(draft, id, events);
}

proof fn due_now_or_before(u: UploadModel, events: Seq<EventModel>, stage: Stage)
    requires
        was_due(u, events, stage),
    ensures
        run(u, events).stage == stage || (events.len() > 0 && was_due(
            u,
            events.drop_last(),
            stage,
        )),
{
    let k = choose|k: int|
        0 <= k <= events.len() && run(u, #[trigger] events.take(k)).stage == stage;
    if k == events.len() {
        assert(events.take(k) =~= events);
    } else {
        assert(events.take(k) =~= events.drop_last().take(k));
    }
}

proof fn files_are_tracked(draft: DraftModel, id: Seq<char>, events: Seq<EventModel>)
    ensures
        ({
            let u = started(draft, id);
            let end = run(u, events).stage;
            &&& was_due(u, events, Stage::Insert) ==> end is Insert || end is Deliver
                || end is Created || was_due(u, events, Stage::RemoveFile)
            &&& was_due(u, events, Stage::MoveTemp) ==> end is MoveTemp || was_due(
                u,
                events,
                Stage::Insert,
            ) || was_due(u, events, Stage::RemoveTemp)
        }),
    decreases events.len(),
{
    let u = started(draft, id);
    was_due_grows(u, events, Stage::Insert);
    was_due_grows(u, events, Stage::RemoveFile);
    was_due_grows(u, events, Stage::RemoveTemp);
    if was_due(u, events, Stage::Insert) {
        due_now_or_before(u, events, Stage::Insert);
    }
    if was_due(u, events, Stage::MoveTemp) {
        due_now_or_before(u, events, Stage::MoveTemp);
    }
    if events.len() > 0 {
        files_are_tracked(draft, id, events.drop_last());
    }
}

/// An upload that has ended stays as it ended.
pub proof fn ends_are_final(u: UploadModel, event: EventModel)
    requires
        answered(u) is Some,
    ensures
        advanced(u, event) == u,
{
}

/// Whether what came is what the step that was due brings.
pub open spec fn fits(stage: Stage, event: EventModel) -> bool {
    match stage {
        Stage::AskServer => event is Server,
        Stage::AskChannel => event is Channel,
        Stage::AskExisting => event is Existing,
        Stage::WriteTemp => event is Wrote,
        Stage::MoveTemp => event is Moved,
        Stage::RemoveTemp => event is Removed,
        Stage::Insert => event is Inserted,
        Stage::RemoveFile => event is Removed,
        Stage::AskAgain => event is Existing,
        Stage::Deliver => event is Delivered,
        _ => false,
    }
}

/// The most steps that can still be due.
pub open spec fn steps_left(stage: Stage) -> nat {
    match stage {
        Stage::AskServer => 8,
        Stage::AskChannel => 7,
        Stage::AskExisting => 6,
        Stage::WriteTemp => 5,
        Stage::MoveTemp => 4,
        Stage::Insert => 3,
        Stage::RemoveFile => 2,
        Stage::RemoveTemp => 1,
        Stage::AskAgain => 1,
        Stage::Deliver => 1,
        _ => 0,
    }
}

/// An upload whose steps are done as they fall due ends after a few of them, and the
/// client is answered exactly when no step is left.
pub proof fn uploads_end(draft: DraftModel, id: Seq<char>, events: Seq<EventModel>)
    requires
        forall|k: int|
            0 <= k < events.len() ==> fits(
                run(started(draft, id), #[trigger] events.take(k)).stage,
                events[k],
            ),
    ensures
        events.len() + steps_left(run(started(draft, id), events).stage) <= 8,
        steps_left(run(started(draft, id), events).stage) == 0 <==> answered(
            run(started(draft, id), events),
        ) is Some,
    decreases events.len(),
{
    let u = started(draft, id);
    recorded_or_found(draft, id, events);
    if events.len() > 0 {
        let init = events.drop_last();
        assert forall|k: int| 0 <= k < init.len() implies fits(
            run(u, #[trigger] init.take(k)).stage,
            init[k],
        ) by {
            assert(events.take(k) =~= init.take(k));
        }
        uploads_end(draft, id, init);
        assert(events.take(events.len() - 1) =~= init);
    }
}

/// The sender of a message is the user who is logged in, whatever the form says.
pub proof fn senders_cannot_be_forged(
    form: FieldsModel,
    user: Seq<char>,
    server_id: Option<Seq<char>>,
    channel_id: Option<Seq<char>>,
)
    requires
        drafted(form, user, server_id, channel_id) is Ok,
    ensures
        drafted(form, user, server_id, channel_id)->Ok_0.sender == user,
{
}

/// A draft names a server exactly if it names a channel, and neither is empty.
pub proof fn drafts_name_both_ids(
    form: FieldsModel,
    user: Seq<char>,
    server_id: Option<Seq<char>>,
    channel_id: Option<Seq<char>>,
)
    requires
        drafted(form, user, server_id, channel_id) is Ok,
    ensures
        ({
            let d = drafted(form, user, server_id, channel_id)->Ok_0;
            &&& d.server_id is Some <==> d.channel_id is Some
            &&& d.server_id is Some ==> d.server_id->0.len() > 0 && d.channel_id->0.len() > 0
        }),
{
}

/// The file of a message has a plain name: no separator of a path, and no two dots
/// in a row.
pub proof fn file_names_are_plain(id: Seq<char>)
    requires
        ids::uuid_form(id),
    ensures
        forall|i: int|
            0 <= i < file_name(id).len() ==> (#[trigger] file_name(id)[i]) != '/' && file_name(id)[i]
                != '\\' && file_name(id)[i] != ':',
        forall|i: int, j: int|
            0 <= i < file_name(id).len() && j == i + 1 && j < file_name(id).len() ==> !(
            #[trigger] file_name(id)[i] == '.' && #[trigger] file_name(id)[j] == '.'),
        headers::header_text("attachment; filename=\""@ + file_name(id) + "\""@),
{
    reveal_strlit(".zali");
    reveal_strlit("attachment; filename=\"");
    reveal_strlit("\"");
    let name = file_name(id);
    assert forall|i: int| 0 <= i < name.len() implies (#[trigger] name[i]) != '/' && name[i] != '\\'
        && name[i] != ':' && name[i] as int >= 32 && name[i] as int != 127 by {
        if i < id.len() {
            assert(name[i] == id[i]);
        } else {
            assert(name[i] == ".zali"@[i - id.len()]);
        }
    }
    assert forall|i: int, j: int|
        0 <= i < name.len() && j == i + 1 && j < name.len() implies !(#[trigger] name[i] == '.'
        && #[trigger] name[j] == '.') by {
        if i < id.len() {
            assert(name[i] == id[i]);
        } else {
            assert(name[j] == ".zali"@[j - id.len()]);
        }
    }
    let named = "attachment; filename=\""@ + name + "\""@;
    assert forall|i: int| 0 <= i < named.len() implies (#[trigger] named[i]) == '\t' || (
    named[i] as int >= 32 && named[i] as int != 127) by {
        let n = "attachment; filename=\""@.len() as int;
        if i < n {
            assert(named[i] == "attachment; filename=\""@[i]);
        } else if i < n + name.len() {
            assert(named[i] == name[i - n]);
        } else {
            assert(named[i] == "\""@[i - n - name.len()]);
        }
    }
}

/// Whoever may read a message that was stored outside any server is its sender or
/// its receiver, and of those the sender may delete it.
pub proof fn stored_direct_messages_are_private(
    u: UploadModel,
    timestamp: Timestamp,
    user: Seq<char>,
    server: Option<ServerModel>,
    role: Option<Seq<char>>,
    in_channel: Option<access::Rights>,
    rights: Option<access::Rights>,
)
    requires
        u.draft.server_id is None,
    ensures
        access::may_read(recorded(u, timestamp), user, server, role, in_channel, rights) <==> user
            == u.draft.sender || user == u.draft.receiver,
        access::may_delete(recorded(u, timestamp), user, server, role, in_channel, rights) <==> user
            == u.draft.sender,
{
    access::direct_messages_are_private(
        recorded(u, timestamp),
        user,
        server,
        role,
        in_channel,
        rights,
    );
}

/// The fields of a form are known by their names; a client's id by either of two.
pub proof fn fields_have_their_names(name: Seq<char>)
    ensures
        kind_of_field("sender"@) == FieldKind::Sender,
        kind_of_field("receiver"@) == FieldKind::Receiver,
        kind_of_field("server_id"@) == FieldKind::ServerId,
        kind_of_field("channel_id"@) == FieldKind::ChannelId,
        kind_of_field("client_id"@) == FieldKind::ClientId,
        kind_of_field("clientId"@) == FieldKind::ClientId,
        kind_of_field("file"@) == FieldKind::File,
        name != "sender"@ && name != "receiver"@ && name != "server_id"@ && name != "channel_id"@
            && name != "client_id"@ && name != "clientId"@ && name != "file"@ ==> kind_of_field(name)
            == FieldKind::Other,
{
    reveal_strlit("sender");
    reveal_strlit("receiver");
    reveal_strlit("server_id");
    reveal_strlit("channel_id");
    reveal_strlit("client_id");
    reveal_strlit("clientId");
    reveal_strlit("file");
    assert("sender"@.len() == 6 && "receiver"@.len() == 8 && "server_id"@.len() == 9);
    assert("channel_id"@.len() == 10 && "client_id"@.len() == 9 && "clientId"@.len() == 8);
    assert("server_id"@[0] == 's' && "client_id"@[0] == 'c');
    assert("receiver"@[0] == 'r' && "clientId"@[0] == 'c');
    assert("file"@.len() == 4);
}

/// A field that is taken is in the form as it was sent, and takes no other's place; the
/// file is never taken for a text.
pub proof fn fields_are_taken_as_sent(form: FieldsModel, value: Seq<char>)
    ensures
        ({
            let f = with_text(form, FieldKind::Sender, value);
            f.sender == value && f.receiver == form.receiver && f.server_id == form.server_id
                && f.channel_id == form.channel_id && f.client_id == form.client_id && f.file
                == form.file
        }),
        ({
            let f = with_text(form, FieldKind::Receiver, value);
            f.sender == form.sender && f.receiver == value && f.server_id == form.server_id
                && f.channel_id == form.channel_id && f.client_id == form.client_id && f.file
                == form.file
        }),
        ({
            let f = with_text(form, FieldKind::ServerId, value);
            f.sender == form.sender && f.receiver == form.receiver && f.server_id == value
                && f.channel_id == form.channel_id && f.client_id == form.client_id && f.file
                == form.file
        }),
        ({
            let f = with_text(form, FieldKind::ChannelId, value);
            f.sender == form.sender && f.receiver == form.receiver && f.server_id == form.server_id
                && f.channel_id == value && f.client_id == form.client_id && f.file == form.file
        }),
        ({
            let f = with_text(form, FieldKind::ClientId, value);
            f.sender == form.sender && f.receiver == form.receiver && f.server_id == form.server_id
                && f.channel_id == form.channel_id && f.client_id == value && f.file == form.file
        }),
        with_text(form, FieldKind::File, value) == form,
        with_text(form, FieldKind::Other, value) == form,
{
}

/// What is stored is what was sent: of a form for which a draft is made, the draft has the
/// file byte for byte and the receiver as given, the client's id without white space at its
/// ends, and the user who is logged in as its sender.
pub proof fn drafts_are_what_was_sent(
    form: UploadFields,
    user: Seq<char>,
    server_id: Option<Seq<char>>,
    channel_id: Option<Seq<char>>,
    draft: Draft,
)
    requires
        drafted(form@, user, server_id, channel_id) == Ok::<DraftModel, Refusal>(draft@),
    ensures
        draft.file@ == form.file@,
        draft.receiver@ == form.receiver@,
        draft.sender@ == user,
        draft.client_id@ == text::trimmed(form.client_id@),
{
}

/// A draft belongs to the server and channel of the address it was sent to, else to those
/// that the form names, without white space at their ends; to none where both are blank.
pub proof fn drafts_belong_where_they_were_sent(
    form: UploadFields,
    user: Seq<char>,
    server_id: Option<Seq<char>>,
    channel_id: Option<Seq<char>>,
    draft: Draft,
)
    requires
        drafted(form@, user, server_id, channel_id) == Ok::<DraftModel, Refusal>(draft@),
    ensures
        ({
            let server = match server_id {
                Some(s) => s,
                None => form.server_id@,
            };
            let channel = match channel_id {
                Some(c) => c,
                None => form.channel_id@,
            };
            if text::blank(server) && text::blank(channel) {
                draft.server_id is None && draft.channel_id is None
            } else {
                &&& draft.server_id is Some
                &&& draft.server_id->0@ == text::trimmed(server)
                &&& draft.channel_id is Some
                &&& draft.channel_id->0@ == text::trimmed(channel)
            }
        }),
{
}

/// A draft is made of every form that names a sender and a receiver and has a file, and
/// names both a server and a channel or neither; of no other.
pub proof fn when_a_draft_is_made(
    form: UploadFields,
    user: Seq<char>,
    server_id: Option<Seq<char>>,
    channel_id: Option<Seq<char>>,
)
    ensures
        ({
            let server = match server_id {
                Some(s) => s,
                None => form.server_id@,
            };
            let channel = match channel_id {
                Some(c) => c,
                None => form.channel_id@,
            };
            let complete = form.sender@.len() > 0 && form.receiver@.len() > 0 && form.file@.len()
                > 0;
            let r = drafted(form@, user, server_id, channel_id);
            &&& !complete ==> r == Err::<DraftModel, Refusal>(Refusal::UploadFieldsMissing)
            &&& complete && text::blank(server) != text::blank(channel) ==> r == Err::<
                DraftModel,
                Refusal,
            >(Refusal::ServerIdsMissing)
            &&& complete && text::blank(server) == text::blank(channel) ==> r is Ok
        }),
{
}

/// A message is recorded as it was drafted, field by field, under the id of its upload; its
/// file is named by that id.
pub proof fn messages_are_recorded_as_drafted(u: Upload, timestamp: Timestamp, message: Message)
    requires
        message@ == recorded(u@, timestamp),
    ensures
        message.id@ == u.id@,
        message.sender@ == u.draft.sender@,
        message.receiver@ == u.draft.receiver@,
        message.filename@ == u.id@ + ".zali"@,
        message.timestamp == timestamp,
        message.client_id is Some <==> u.draft.client_id@.len() > 0,
        message.client_id is Some ==> message.client_id->0@ == u.draft.client_id@,
        text::opt_text(message.server_id) == text::opt_text(u.draft.server_id),
        text::opt_text(message.channel_id) == text::opt_text(u.draft.channel_id),
{
}

/// A message that was sent is recorded with the receiver, the client's id and the place
/// that the form named, from the user who is logged in.
pub proof fn messages_are_recorded_as_sent(
    form: UploadFields,
    user: Seq<char>,
    server_id: Option<Seq<char>>,
    channel_id: Option<Seq<char>>,
    id: Seq<char>,
    events: Seq<EventModel>,
    timestamp: Timestamp,
)
    requires
        drafted(form@, user, server_id, channel_id) is Ok,
    ensures
        ({
            let draft = drafted(form@, user, server_id, channel_id)->Ok_0;
            let u = run(started(draft, id), events);
            let m = recorded(u, timestamp);
            &&& u.draft.file == form.file@
            &&& m.id == id
            &&& m.sender == user
            &&& m.receiver == form.receiver@
            &&& m.client_id == (if text::blank(form.client_id@) {
                None
            } else {
                Some(text::trimmed(form.client_id@))
            })
            &&& m.filename == id + ".zali"@
            &&& m.timestamp == timestamp
        }),
{
    run_keeps_draft(started(drafted(form@, user, server_id, channel_id)->Ok_0, id), events);
}

/// An archive is a file of at least eight bytes that starts with `ZALIMSSG`, whatever
/// follows.
pub proof fn what_an_archive_is(file: Seq<u8>)
    ensures
        is_archive(file) <==> file.len() >= 8 && file[0] == 90 && file[1] == 65 && file[2] == 76
            && file[3] == 73 && file[4] == 77 && file[5] == 83 && file[6] == 83 && file[7] == 71,
{
    if file.len() >= 8 {
        let start = file.subrange(0, 8);
        if file[0] == 90 && file[1] == 65 && file[2] == 76 && file[3] == 73 && file[4] == 77
            && file[5] == 83 && file[6] == 83 && file[7] == 71 {
            assert(start =~= signature());
        }
        if is_archive(file) {
            assert(start == signature());
            assert(start[0] == file[0] && start[1] == file[1] && start[2] == file[2] && start[3]
                == file[3] && start[4] == file[4] && start[5] == file[5] && start[6] == file[6]
                && start[7] == file[7]);
        }
    }
}

/// An upload whose every step works is stored and told, in this order, and answered with
/// its own id and the client's.
pub proof fn good_uploads_are_stored(draft: DraftModel, id: Seq<char>)
    requires
        is_archive(draft.file),
    ensures
        ({
            let asked = if draft.server_id is Some {
                seq![
                    EventModel::Server(Lookup::Found(true)),
                    EventModel::Channel(Lookup::Found(())),
                ]
            } else {
                Seq::empty()
            };
            let looked = if draft.client_id.len() > 0 {
                seq![EventModel::Existing(Lookup::Missing)]
            } else {
                Seq::empty()
            };
            let u = started(draft, id);
            let checked = asked + looked;
            let written = checked.push(EventModel::Wrote(true));
            let moved = written.push(EventModel::Moved(true));
            let inserted = moved.push(EventModel::Inserted(true));
            let told = inserted.push(EventModel::Delivered);
            &&& run(u, checked).stage is WriteTemp
            &&& run(u, written).stage is MoveTemp
            &&& run(u, moved).stage is Insert
            &&& run(u, inserted).stage is Deliver
            &&& answered(run(u, told)) == Some(
                Ok::<Seq<(Seq<char>, JsonModel)>, Refusal>(
                    seq![
                        ("id"@, JsonModel::Text(id)),
                        (
                            "clientId"@,
                            if draft.client_id.len() > 0 {
                                JsonModel::Text(draft.client_id)
                            } else {
                                JsonModel::Null
                            },
                        ),
                    ],
                ),
            )
        }),
{
    let u = started(draft, id);
    let server = EventModel::Server(Lookup::Found(true));
    let channel = EventModel::Channel(Lookup::Found(()));
    let missing = EventModel::Existing(Lookup::Missing);
    let asked = if draft.server_id is Some {
        seq![server, channel]
    } else {
        Seq::empty()
    };
    let looked = if draft.client_id.len() > 0 {
        seq![missing]
    } else {
        Seq::empty()
    };
    assert(run(u, Seq::empty()) == u);
    if draft.server_id is Some {
        assert(seq![server, channel].drop_last() =~= seq![server]);
        assert(seq![server].drop_last() =~= Seq::<EventModel>::empty());
        assert(run(u, seq![server]) == advanced(u, server));
        assert(run(u, seq![server, channel]) == advanced(advanced(u, server), channel));
    }
    assert(run(u, asked).stage == checked(draft));
    if draft.client_id.len() > 0 {
        assert((asked + looked).drop_last() =~= asked);
        assert((asked + looked).last() == missing);
    } else {
        assert(asked + looked =~= asked);
    }
    let checks = asked + looked;
    run_keeps_draft(u, checks);
    let written = checks.push(EventModel::Wrote(true));
    let moved = written.push(EventModel::Moved(true));
    let inserted = moved.push(EventModel::Inserted(true));
    let told = inserted.push(EventModel::Delivered);
    assert(written.drop_last() =~= checks);
    assert(moved.drop_last() =~= written);
    assert(inserted.drop_last() =~= moved);
    assert(told.drop_last() =~= inserted);
    run_keeps_draft(u, told);
}

/// What stops an upload is answered for what it is, step by step: a server or channel that
/// is not there, a sender who may not send, a file that is no archive; and what fails of
/// itself as an internal error.
pub proof fn stopped_uploads_are_answered(u: UploadModel, event: EventModel, stopped: Refusal)
    ensures
        ({
            let after = answered(advanced(u, event));
            let refused = Some(Err::<Seq<(Seq<char>, JsonModel)>, Refusal>(stopped));
            &&& u.stage is AskServer && event == EventModel::Server(Lookup::Missing) && stopped
                == Refusal::ServerNotFound ==> after == refused
            &&& u.stage is AskServer && event == EventModel::Server(Lookup::Found(false))
                && stopped == Refusal::Forbidden ==> after == refused
            &&& u.stage is AskServer && event == EventModel::Server(Lookup::Failed) && stopped
                == Refusal::Internal ==> after == refused
            &&& u.stage is AskChannel && event == EventModel::Channel(Lookup::Missing) && stopped
                == Refusal::ChannelNotFound ==> after == refused
            &&& u.stage is AskChannel && event == EventModel::Channel(Lookup::Failed) && stopped
                == Refusal::Internal ==> after == refused
            &&& u.stage is AskChannel && event == EventModel::Channel(Lookup::Found(()))
                && !is_archive(u.draft.file) && stopped == Refusal::BadSignature ==> after
                == refused
            &&& u.stage is AskExisting && event == EventModel::Existing(Lookup::Failed) && stopped
                == Refusal::Internal ==> after == refused
            &&& u.stage is WriteTemp && event == EventModel::Wrote(false) && stopped
                == Refusal::Internal ==> after == refused
            &&& u.stage is RemoveTemp && event == EventModel::Removed && stopped
                == Refusal::Internal ==> after == refused
            &&& u.stage is RemoveFile && event == EventModel::Removed && u.draft.client_id.len()
                == 0 && stopped == Refusal::Internal ==> after == refused
            &&& u.stage is AskAgain && event == EventModel::Existing(Lookup::Missing) && stopped
                == Refusal::Internal ==> after == refused
            &&& u.stage is AskAgain && event == EventModel::Existing(Lookup::Failed) && stopped
                == Refusal::Internal ==> after == refused
        }),
{
}

/// A direct message whose file is no archive is refused at once; so is one in a server as
/// soon as its channel is found.
pub proof fn only_archives_are_taken(draft: DraftModel, id: Seq<char>)
    requires
        !is_archive(draft.file),
        draft.server_id is None,
    ensures
        answered(started(draft, id)) == Some(
            Err::<Seq<(Seq<char>, JsonModel)>, Refusal>(Refusal::BadSignature),
        ),
{
}

/// Everything has the name of its message: the file, the file while it is written, and
/// the name under which it is offered.
pub proof fn files_are_named_by_their_message(id: Seq<char>, filename: Seq<char>)
    ensures
        file_name(id) == id + ".zali"@,
        temp_name(id) == file_name(id) + ".tmp"@,
        headers::header_text("attachment; filename=\""@ + filename + "\""@) ==> disposition_of(
            filename,
        ) == "attachment; filename=\""@ + filename + "\""@,
        !headers::header_text("attachment; filename=\""@ + filename + "\""@) ==> disposition_of(
            filename,
        ) == "attachment"@,
{
}

/// Everyone is told whose avatar changed, whether it is gone, and when; the user is
/// answered with the time and the type.
pub proof fn avatar_events_say_what_happened(
    username: Seq<char>,
    at: Option<Seq<char>>,
    mime_type: Seq<char>,
)
    ensures
        ({
            let time = match at {
                Some(t) => JsonModel::Text(t),
                None => JsonModel::Null,
            };
            &&& avatar_object(username, true, at) == seq![
                ("type"@, JsonModel::Text("avatar_deleted"@)),
                ("username"@, JsonModel::Text(username)),
                ("deleted"@, JsonModel::Bool(true)),
                ("updated_at"@, time),
            ]
            &&& avatar_object(username, false, at) == seq![
                ("type"@, JsonModel::Text("avatar_updated"@)),
                ("username"@, JsonModel::Text(username)),
                ("deleted"@, JsonModel::Bool(false)),
                ("updated_at"@, time),
            ]
            &&& avatar_answer_object(username, at, mime_type) == seq![
                ("username"@, JsonModel::Text(username)),
                ("updatedAt"@, time),
                ("mimeType"@, JsonModel::Text(mime_type)),
            ]
        }),
{
}

/// A time is told as it is written in full; no time is none.
pub proof fn times_are_told(at: Timestamp)
    ensures
        time_text(Some(at)) == rfc3339_text(at.secs, at.nanos),
        time_text(None) is None,
{
}

/// A message is one that came before exactly if all five of client id, sender, receiver,
/// server and channel agree; a channel or server left out is the same as an empty one.
pub proof fn what_repeats_a_message(message: Message, draft: Draft)
    ensures
        same_scope(message@, draft@) <==> {
            &&& message.client_id is Some
            &&& message.client_id->0@ == draft.client_id@
            &&& message.sender@ == draft.sender@
            &&& message.receiver@ == draft.receiver@
            &&& same_or_left_out(message.server_id, draft.server_id)
            &&& same_or_left_out(message.channel_id, draft.channel_id)
        },
{
    assert(forall|s: Seq<char>| s.len() == 0 ==> s =~= Seq::<char>::empty());
}

/// Whether two ids agree, one left out being the same as an empty one.
pub open spec fn same_or_left_out(a: Option<String>, b: Option<String>) -> bool {
    match (a, b) {
        (Some(x), Some(y)) => x@ == y@,
        (Some(x), None) => x@.len() == 0,
        (None, Some(y)) => y@.len() == 0,
        (None, None) => true,
    }
}

/// A draft without an id of the client repeats no message.
pub proof fn drafts_without_client_id_repeat_nothing(rows: Seq<MessageModel>, draft: DraftModel)
    ensures
        text::blank(draft.client_id) ==> repeated(rows, draft) is None,
        !text::blank(draft.client_id) && (forall|k: int|
            0 <= k < rows.len() ==> !same_scope(#[trigger] rows[k], draft)) ==> repeated(rows, draft)
            is None,
        !text::blank(draft.client_id) && rows.len() > 0 && same_scope(rows[0], draft) ==> repeated(
            rows,
            draft,
        ) == Some(rows[0].id),
{
    first_in_scope_facts(rows, draft);
}

/// A text that is put into a form is its field as it was sent, and changes no other.
pub proof fn texts_are_put_in_their_field(form: &mut UploadFields, kind: FieldKind, value: String)
    requires
        call_ensures(UploadFields::put_text, (form, kind, value), ()),
    ensures
        kind is Sender ==> {
            &&& final(form).sender@ == value@
            &&& final(form).receiver@ == old(form).receiver@
            &&& final(form).server_id@ == old(form).server_id@
            &&& final(form).channel_id@ == old(form).channel_id@
            &&& final(form).client_id@ == old(form).client_id@
            &&& final(form).file@ == old(form).file@
        },
        kind is Receiver ==> {
            &&& final(form).sender@ == old(form).sender@
            &&& final(form).receiver@ == value@
            &&& final(form).server_id@ == old(form).server_id@
            &&& final(form).channel_id@ == old(form).channel_id@
            &&& final(form).client_id@ == old(form).client_id@
            &&& final(form).file@ == old(form).file@
        },
        kind is ServerId ==> {
            &&& final(form).sender@ == old(form).sender@
            &&& final(form).receiver@ == old(form).receiver@
            &&& final(form).server_id@ == value@
            &&& final(form).channel_id@ == old(form).channel_id@
            &&& final(form).client_id@ == old(form).client_id@
            &&& final(form).file@ == old(form).file@
        },
        kind is ChannelId ==> {
            &&& final(form).sender@ == old(form).sender@
            &&& final(form).receiver@ == old(form).receiver@
            &&& final(form).server_id@ == old(form).server_id@
            &&& final(form).channel_id@ == value@
            &&& final(form).client_id@ == old(form).client_id@
            &&& final(form).file@ == old(form).file@
        },
        kind is ClientId ==> {
            &&& final(form).sender@ == old(form).sender@
            &&& final(form).receiver@ == old(form).receiver@
            &&& final(form).server_id@ == old(form).server_id@
            &&& final(form).channel_id@ == old(form).channel_id@
            &&& final(form).client_id@ == value@
            &&& final(form).file@ == old(form).file@
        },
        kind is File ==> {
            &&& final(form).sender@ == old(form).sender@
            &&& final(form).receiver@ == old(form).receiver@
            &&& final(form).server_id@ == old(form).server_id@
            &&& final(form).channel_id@ == old(form).channel_id@
            &&& final(form).client_id@ == old(form).client_id@
            &&& final(form).file@ == old(form).file@
        },
        kind is Other ==> {
            &&& final(form).sender@ == old(form).sender@
            &&& final(form).receiver@ == old(form).receiver@
            &&& final(form).server_id@ == old(form).server_id@
            &&& final(form).channel_id@ == old(form).channel_id@
            &&& final(form).client_id@ == old(form).client_id@
            &&& final(form).file@ == old(form).file@
        },
{
    fields_are_taken_as_sent(old(form)@, value@);
    assert(old(form)@.file == old(form).file@ && final(form)@.file == final(form).file@);
}

/// A file that is put into a form is its file byte for byte, and changes no other field.
pub proof fn files_are_put_whole(form: &mut UploadFields, data: Vec<u8>)
    requires
        call_ensures(UploadFields::put_file, (form, data), ()),
    ensures
        final(form).file@ == data@,
        final(form).sender@ == old(form).sender@,
        final(form).receiver@ == old(form).receiver@,
        final(form).server_id@ == old(form).server_id@,
        final(form).channel_id@ == old(form).channel_id@,
        final(form).client_id@ == old(form).client_id@,
{
}

/// A new form is empty.
pub proof fn new_forms_are_empty(r: UploadFields)
    requires
        call_ensures(UploadFields::new, (), r),
    ensures
        r.sender@.len() == 0,
        r.receiver@.len() == 0,
        r.server_id@.len() == 0,
        r.channel_id@.len() == 0,
        r.client_id@.len() == 0,
        r.file@.len() == 0,
{
    assert(r@.sender.len() == 0 && r@.receiver.len() == 0 && r@.client_id.len() == 0);
    assert(r@.server_id.len() == 0 && r@.channel_id.len() == 0 && r@.file.len() == 0);
}

/// The draft of a form has its file byte for byte and its receiver, the user who is logged
/// in as the sender, and the server and channel of the address or else of the form.
pub proof fn drafts_hold_what_was_sent(
    form: UploadFields,
    user: &str,
    server_id: Option<String>,
    channel_id: Option<String>,
    r: Result<Draft, Refusal>,
)
    requires
        call_ensures(prepare_draft, (form, user, server_id, channel_id), r),
        r is Ok,
    ensures
        r->Ok_0.file@ == form.file@,
        r->Ok_0.receiver@ == form.receiver@,
        r->Ok_0.sender@ == user@,
        r->Ok_0.client_id@ == text::trimmed(form.client_id@),
        ({
            let server = match server_id {
                Some(s) => text::trimmed(s@),
                None => text::trimmed(form.server_id@),
            };
            let channel = match channel_id {
                Some(c) => text::trimmed(c@),
                None => text::trimmed(form.channel_id@),
            };
            &&& server.len() == 0 ==> r->Ok_0.server_id is None
            &&& server.len() > 0 ==> r->Ok_0.server_id is Some && r->Ok_0.server_id->0@ == server
            &&& channel.len() == 0 ==> r->Ok_0.channel_id is None
            &&& channel.len() > 0 ==> r->Ok_0.channel_id is Some && r->Ok_0.channel_id->0@
                == channel
        }),
{
    let server = text::opt_text(server_id);
    let channel = text::opt_text(channel_id);
    drafts_are_what_was_sent(form, user@, server, channel, r->Ok_0);
    drafts_belong_where_they_were_sent(form, user@, server, channel, r->Ok_0);
    when_a_draft_is_made(form, user@, server, channel);
}

/// A form is drafted exactly if it names a sender and a receiver and has a file, and both a
/// server and a channel are named or neither is.
pub proof fn which_forms_are_drafted(
    form: UploadFields,
    user: &str,
    server_id: Option<String>,
    channel_id: Option<String>,
    r: Result<Draft, Refusal>,
)
    requires
        call_ensures(prepare_draft, (form, user, server_id, channel_id), r),
    ensures
        ({
            let server = match server_id {
                Some(s) => text::trimmed(s@),
                None => text::trimmed(form.server_id@),
            };
            let channel = match channel_id {
                Some(c) => text::trimmed(c@),
                None => text::trimmed(form.channel_id@),
            };
            let complete = form.sender@.len() > 0 && form.receiver@.len() > 0 && form.file@.len()
                > 0;
            let placed = (server.len() == 0) == (channel.len() == 0);
            &&& r is Ok <==> complete && placed
            &&& !complete ==> r->Err_0 == Refusal::UploadFieldsMissing
            &&& complete && !placed ==> r->Err_0 == Refusal::ServerIdsMissing
        }),
{
    when_a_draft_is_made(form, user@, text::opt_text(server_id), text::opt_text(channel_id));
}

/// A file is an archive exactly if it has at least eight bytes and they start `ZALIMSSG`.
pub proof fn which_files_are_archives(file: &Vec<u8>, r: bool)
    requires
        call_ensures(has_signature, (file,), r),
    ensures
        r <==> file@.len() >= 8 && file@[0] == 90 && file@[1] == 65 && file@[2] == 76 && file@[3]
            == 73 && file@[4] == 77 && file@[5] == 83 && file@[6] == 83 && file@[7] == 71,
{
    what_an_archive_is(file@);
}

/// A form's fields are known by their names.
pub proof fn how_fields_are_named(name: &str, r: FieldKind)
    requires
        call_ensures(field_kind, (name,), r),
    ensures
        r is Sender <==> name@ == "sender"@,
        r is Receiver <==> name@ == "receiver"@,
        r is ServerId <==> name@ == "server_id"@,
        r is ChannelId <==> name@ == "channel_id"@,
        r is ClientId <==> name@ == "client_id"@ || name@ == "clientId"@,
        r is File <==> name@ == "file"@,
{
    fields_have_their_names(name@);
}

/// An upload starts with its draft and its id, whole. One for a server asks for it first; of
/// the others one that is no archive is refused, and one with an id of the client is looked
/// for before it is written.
pub proof fn how_uploads_start(draft: Draft, id: String, r: Upload)
    requires
        call_ensures(Upload::start, (draft, id), r),
    ensures
        r.id@ == id@,
        r.existing is None,
        r.draft.file@ == draft.file@,
        r.draft.sender@ == draft.sender@,
        r.draft.receiver@ == draft.receiver@,
        r.draft.client_id@ == draft.client_id@,
        text::opt_text(r.draft.server_id) == text::opt_text(draft.server_id),
        text::opt_text(r.draft.channel_id) == text::opt_text(draft.channel_id),
        r.stage is AskServer <==> draft.server_id is Some,
        draft.server_id is None ==> {
            &&& r.stage == Stage::Refused(Refusal::BadSignature) <==> !is_archive(draft.file@)
            &&& r.stage is AskExisting <==> is_archive(draft.file@) && draft.client_id@.len() > 0
            &&& r.stage is WriteTemp <==> is_archive(draft.file@) && draft.client_id@.len() == 0
        },
{
    assert(r@.draft == draft@);
    assert(r@.existing == text::opt_text(r.existing));
}

/// Whether two uploads have the same draft and the same id.
pub open spec fn same_upload(a: Upload, b: Upload) -> bool {
    &&& a.id@ == b.id@
    &&& a.draft.file@ == b.draft.file@
    &&& a.draft.sender@ == b.draft.sender@
    &&& a.draft.receiver@ == b.draft.receiver@
    &&& a.draft.client_id@ == b.draft.client_id@
    &&& text::opt_text(a.draft.server_id) == text::opt_text(b.draft.server_id)
    &&& text::opt_text(a.draft.channel_id) == text::opt_text(b.draft.channel_id)
}

/// No step changes what is uploaded.
pub proof fn steps_keep_the_upload(upload: &mut Upload, event: UploadEvent)
    requires
        call_ensures(Upload::advance, (upload, event), ()),
    ensures
        same_upload(*final(upload), *old(upload)),
{
    assert(final(upload)@.draft == old(upload)@.draft);
    assert(old(upload)@.draft == old(upload).draft@);
    assert(final(upload)@.draft == final(upload).draft@);
}

/// A step that works leads on: from the server to the channel, from there to the look for an
/// earlier message or straight to writing, from writing to the move, to the record, to those
/// who are told, and to the end.
pub proof fn good_steps_lead_on(upload: &mut Upload, event: UploadEvent)
    requires
        call_ensures(Upload::advance, (upload, event), ()),
    ensures
        ({
            let before = old(upload).stage;
            let after = final(upload).stage;
            let file = old(upload).draft.file@;
            let client_id = old(upload).draft.client_id@;
            &&& before is AskServer && event == UploadEvent::Server(Lookup::Found(true)) ==> after
                is AskChannel
            &&& before is AskChannel && event == UploadEvent::Channel(Lookup::Found(()))
                && is_archive(file) && client_id.len() > 0 ==> after is AskExisting
            &&& before is AskChannel && event == UploadEvent::Channel(Lookup::Found(()))
                && is_archive(file) && client_id.len() == 0 ==> after is WriteTemp
            &&& before is AskExisting && event == UploadEvent::Existing(Lookup::Missing) ==> after
                is WriteTemp
            &&& before is WriteTemp && event == UploadEvent::Wrote(true) ==> after is MoveTemp
            &&& before is MoveTemp && event == UploadEvent::Moved(true) ==> after is Insert
            &&& before is Insert && event == UploadEvent::Inserted(true) ==> after is Deliver
            &&& before is Deliver && event is Delivered ==> after is Created
        }),
{
    assert(old(upload)@.stage == old(upload).stage && final(upload)@.stage == final(upload).stage);
    assert(old(upload)@.draft.file == old(upload).draft.file@);
    assert(old(upload)@.draft.client_id == old(upload).draft.client_id@);
}

/// A step that fails stops the upload for what it is, after what was written is removed; a
/// message that came before is not stored again, and its id is kept.
pub proof fn failed_steps_stop_the_upload(upload: &mut Upload, event: UploadEvent)
    requires
        call_ensures(Upload::advance, (upload, event), ()),
    ensures
        ({
            let before = old(upload).stage;
            let after = final(upload).stage;
            let file = old(upload).draft.file@;
            let client_id = old(upload).draft.client_id@;
            let internal = Stage::Refused(Refusal::Internal);
            &&& before is AskServer && event == UploadEvent::Server(Lookup::Failed) ==> after
                == internal
            &&& before is AskServer && event == UploadEvent::Server(Lookup::Missing) ==> after
                == Stage::Refused(Refusal::ServerNotFound)
            &&& before is AskServer && event == UploadEvent::Server(Lookup::Found(false)) ==> after
                == Stage::Refused(Refusal::Forbidden)
            &&& before is AskChannel && event == UploadEvent::Channel(Lookup::Failed) ==> after
                == internal
            &&& before is AskChannel && event == UploadEvent::Channel(Lookup::Missing) ==> after
                == Stage::Refused(Refusal::ChannelNotFound)
            &&& before is AskChannel && event == UploadEvent::Channel(Lookup::Found(()))
                && !is_archive(file) ==> after == Stage::Refused(Refusal::BadSignature)
            &&& before is AskExisting && event == UploadEvent::Existing(Lookup::Failed) ==> after
                == internal
            &&& before is WriteTemp && event == UploadEvent::Wrote(false) ==> after == internal
            &&& before is MoveTemp && event == UploadEvent::Moved(false) ==> after is RemoveTemp
            &&& before is RemoveTemp && event is Removed ==> after == internal
            &&& before is Insert && event == UploadEvent::Inserted(false) ==> after is RemoveFile
            &&& before is RemoveFile && event is Removed && client_id.len() > 0 ==> after
                is AskAgain
            &&& before is RemoveFile && event is Removed && client_id.len() == 0 ==> after
                == internal
            &&& before is AskAgain && event is Existing && !(event->Existing_0 is Found) ==> after
                == internal
            &&& (before is AskExisting || before is AskAgain) && event is Existing
                && event->Existing_0 is Found ==> after is Known && final(upload).existing is Some
                && final(upload).existing->0@ == event->Existing_0->Found_0@
        }),
{
    assert(old(upload)@.stage == old(upload).stage && final(upload)@.stage == final(upload).stage);
    assert(old(upload)@.draft.file == old(upload).draft.file@);
    assert(old(upload)@.draft.client_id == old(upload).draft.client_id@);
    assert(final(upload)@.existing == text::opt_text(final(upload).existing));
}

/// A message is recorded as it was uploaded, field by field, at the time given.
pub proof fn messages_are_recorded_as_uploaded(upload: &Upload, timestamp: Timestamp, r: Message)
    requires
        call_ensures(Upload::message, (upload, timestamp), r),
    ensures
        r.id@ == upload.id@,
        r.sender@ == upload.draft.sender@,
        r.receiver@ == upload.draft.receiver@,
        r.filename@ == upload.id@ + ".zali"@,
        r.timestamp == timestamp,
        r.client_id is Some <==> upload.draft.client_id@.len() > 0,
        r.client_id is Some ==> r.client_id->0@ == upload.draft.client_id@,
        text::opt_text(r.server_id) == text::opt_text(upload.draft.server_id),
        text::opt_text(r.channel_id) == text::opt_text(upload.draft.channel_id),
{
    messages_are_recorded_as_drafted(*upload, timestamp, r);
}

/// The files of an upload are named by its id, and the client's id is given if there is one.
pub proof fn uploads_name_their_files(
    upload: &Upload,
    filename: String,
    temp: String,
    client_id: Option<String>,
)
    requires
        call_ensures(Upload::filename, (upload,), filename),
        call_ensures(Upload::temp_filename, (upload,), temp),
        call_ensures(Upload::client_id, (upload,), client_id),
    ensures
        filename@ == upload.id@ + ".zali"@,
        temp@ == upload.id@ + ".zali"@ + ".tmp"@,
        client_id is Some <==> upload.draft.client_id@.len() > 0,
        client_id is Some ==> client_id->0@ == upload.draft.client_id@,
{
    assert(upload@.draft.client_id == upload.draft.client_id@);
}

/// An upload is answered at its end: a stored message with its id, one that came before with
/// the id that it has, and what was refused for what it was.
pub proof fn how_uploads_are_answered(upload: &Upload, r: Option<Result<JsonObject, Refusal>>)
    requires
        call_ensures(Upload::answer, (upload,), r),
    ensures
        upload.stage is Created ==> r is Some && r->0 is Ok && {
            let object = r->0->Ok_0@;
            &&& object.len() == 2
            &&& object[0] == ("id"@, JsonModel::Text(upload.id@))
            &&& object[1].0 == "clientId"@
            &&& upload.draft.client_id@.len() > 0 ==> object[1].1 == JsonModel::Text(
                upload.draft.client_id@,
            )
            &&& upload.draft.client_id@.len() == 0 ==> object[1].1 is Null
        },
        upload.stage is Known && upload.existing is Some ==> r is Some && r->0 is Ok && {
            let object = r->0->Ok_0@;
            &&& object.len() == 2
            &&& object[0] == ("id"@, JsonModel::Text(upload.existing->0@))
            &&& object[1] == ("clientId"@, JsonModel::Text(upload.draft.client_id@))
        },
        upload.stage is Refused ==> r is Some && r->0 is Err && r->0->Err_0
            == upload.stage->Refused_0,
        !(upload.stage is Created || upload.stage is Known || upload.stage is Refused) ==> r
            is None,
{
    assert(upload@.stage == upload.stage);
    assert(upload@.draft.client_id == upload.draft.client_id@);
    assert(upload@.existing == text::opt_text(upload.existing));
}

/// A file is offered under its name if that can stand in a header.
pub proof fn how_files_are_offered(filename: &str, r: String)
    requires
        call_ensures(content_disposition, (filename,), r),
    ensures
        ({
            let named = "attachment; filename=\""@ + filename@ + "\""@;
            &&& headers::header_text(named) ==> r@ == named
            &&& !headers::header_text(named) ==> r@ == "attachment"@
        }),
{
}

/// A message is reached if it is there and its user may, and a file likewise.
pub proof fn when_messages_and_files_are_reached(
    found: bool,
    allowed: bool,
    r: Result<(), Refusal>,
    file: Lookup<bool>,
    of_file: Result<(), Refusal>,
)
    requires
        call_ensures(plan_message_access, (found, allowed), r),
        call_ensures(plan_file_access, (file,), of_file),
    ensures
        r is Ok <==> found && allowed,
        !found ==> r == Err::<(), Refusal>(Refusal::NotFound),
        found && !allowed ==> r == Err::<(), Refusal>(Refusal::Forbidden),
        of_file is Ok <==> file == Lookup::Found(true),
        file == Lookup::Found(false) ==> of_file == Err::<(), Refusal>(Refusal::Forbidden),
        file is Missing ==> of_file == Err::<(), Refusal>(Refusal::NotFound),
        file is Failed ==> of_file == Err::<(), Refusal>(Refusal::Internal),
{
}

/// An avatar is taken if it has data, is an image, and has no more than two megabytes; what
/// is wrong is said in that order.
pub proof fn which_avatars_are_taken(file: &Vec<u8>, mime_type: &str, r: Result<(), Refusal>)
    requires
        call_ensures(check_avatar, (file, mime_type), r),
    ensures
        ({
            let image = "image/"@.is_prefix_of(mime_type@);
            let n = file@.len();
            &&& r is Ok <==> 0 < n <= 2 * 1024 * 1024 && image
            &&& n == 0 ==> r->Err_0 == Refusal::AvatarMissing
            &&& n > 0 && !image ==> r->Err_0 == Refusal::AvatarNotImage
            &&& n > 2 * 1024 * 1024 && image ==> r->Err_0 == Refusal::AvatarTooLarge
        }),
{
}

/// An avatar's type is what the client says, and else PNG.
pub proof fn what_type_an_avatar_has(content_type: Option<String>, r: String)
    requires
        call_ensures(avatar_mime, (content_type,), r),
    ensures
        content_type is Some ==> r@ == content_type->0@,
        content_type is None ==> r@ == "image/png"@,
{
}

/// An avatar is stored if it was written and recorded; one that was written and not recorded
/// is removed again.
pub proof fn when_avatars_are_stored(written: bool, recorded: bool, r: (Result<(), Refusal>, bool))
    requires
        call_ensures(finish_avatar, (written, recorded), r),
    ensures
        r.0 is Ok <==> written && recorded,
        r.0 is Err ==> r.0->Err_0 == Refusal::Internal,
        r.1 <==> written && !recorded,
{
}

/// Everyone is told whose avatar changed, how and when.
pub proof fn what_avatar_events_tell(
    username: &str,
    deleted: bool,
    updated_at: &Option<String>,
    r: JsonObject,
)
    requires
        call_ensures(avatar_event, (username, deleted, updated_at), r),
    ensures
        r@.len() == 4,
        deleted ==> r@[0] == ("type"@, JsonModel::Text("avatar_deleted"@)),
        !deleted ==> r@[0] == ("type"@, JsonModel::Text("avatar_updated"@)),
        r@[1] == ("username"@, JsonModel::Text(username@)),
        r@[2] == ("deleted"@, JsonModel::Bool(deleted)),
        updated_at is Some ==> r@[3] == ("updated_at"@, JsonModel::Text(updated_at->0@)),
        updated_at is None ==> r@[3] == ("updated_at"@, JsonModel::Null),
{
}

/// Everyone is told of a change at a time as that is written in full, and the user is
/// answered with it and the type.
pub proof fn what_avatar_answers_tell(
    username: &str,
    deleted: bool,
    at: Timestamp,
    mime_type: &str,
    event: JsonObject,
    answer: JsonObject,
)
    requires
        call_ensures(broadcast_avatar_event, (username, deleted, Some(at)), event),
        call_ensures(avatar_answer, (username, at, mime_type), answer),
    ensures
        event@.len() == 4,
        event@[1] == ("username"@, JsonModel::Text(username@)),
        event@[2] == ("deleted"@, JsonModel::Bool(deleted)),
        event@[3] == ("updated_at"@, json::text_or_null(rfc3339_text(at.secs, at.nanos))),
        answer@.len() == 3,
        answer@[0] == ("username"@, JsonModel::Text(username@)),
        answer@[1] == ("updatedAt"@, json::text_or_null(rfc3339_text(at.secs, at.nanos))),
        answer@[2] == ("mimeType"@, JsonModel::Text(mime_type@)),
{
}

/// The message that a draft repeats is the first of those in which all five of client id,
/// sender, receiver, server and channel agree.
pub proof fn which_message_is_repeated(
    rows: &Vec<Message>,
    draft: &Draft,
    r: Option<String>,
    k: int,
)
    requires
        call_ensures(find_message_by_client_scope, (rows, draft), r),
        text::trimmed(draft.client_id@).len() > 0,
        0 <= k < rows@.len(),
        repeats(rows@[k], *draft),
        forall|j: int| 0 <= j < k ==> !repeats(#[trigger] rows@[j], *draft),
    ensures
        r is Some,
        r->0@ == rows@[k].id@,
{
    let models = message_models(rows@);
    assert forall|j: int| 0 <= j < rows@.len() implies same_scope(#[trigger] models[j], draft@)
        == repeats(rows@[j], *draft) by {
        assert(models[j] == rows@[j]@);
        what_repeats_a_message(rows@[j], *draft);
    }
    assert(same_scope(models[k], draft@));
    assert forall|j: int| 0 <= j < k implies !same_scope(#[trigger] models[j], draft@) by {
        assert(!repeats(rows@[j], *draft));
    }
    first_of_scope(models, draft@, k);
    assert(text::opt_text(r) == Some(models[k].id));
}

/// Whether a message is what a draft repeats.
pub open spec fn repeats(message: Message, draft: Draft) -> bool {
    &&& message.client_id is Some
    &&& message.client_id->0@ == draft.client_id@
    &&& message.sender@ == draft.sender@
    &&& message.receiver@ == draft.receiver@
    &&& same_or_left_out(message.server_id, draft.server_id)
    &&& same_or_left_out(message.channel_id, draft.channel_id)
}

proof fn first_of_scope(rows: Seq<MessageModel>, draft: DraftModel, k: int)
    requires
        0 <= k < rows.len(),
        same_scope(rows[k], draft),
        forall|j: int| 0 <= j < k ==> !same_scope(#[trigger] rows[j], draft),
    ensures
        first_in_scope(rows, draft) == Some(rows[k].id),
    decreases k,
{
    if k > 0 {
        let rest = rows.drop_first();
        assert(!same_scope(rows[0], draft));
        assert(forall|j: int| 0 <= j < rest.len() ==> rest[j] == rows[j + 1]);
        first_of_scope(rest, draft, k - 1);
    }
}

} // verus!
