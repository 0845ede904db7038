//! Servers, their channels, members and invites: how they are made and changed.

use crate::access;
use crate::ids;
use crate::records::ChannelRecord;
use crate::records::LAST_SECOND;
use crate::records::ServerModel;
use crate::records::ServerRecord;
use crate::records::Timestamp;
use crate::refusal::Lookup;
use crate::refusal::Refusal;
use crate::roles;
use crate::roles::ServerRolePayload;
use crate::text;
use vstd::prelude::*;
use vstd::string::*;

verus! {

// ---------------------------------------------------------------------------
// Texts that clients give
// ---------------------------------------------------------------------------

/// A client's text without white space at its ends, if anything is left of it.
pub open spec fn given(s: Option<Seq<char>>) -> Option<Seq<char>> {
    if s is Some && !text::blank(s->0) {
        Some(text::trimmed(s->0))
    } else {
        None
    }
}

/// What is given, or else what was there.
pub open spec fn given_or(s: Option<Seq<char>>, current: Seq<char>) -> Seq<char> {
    match given(s) {
        Some(t) => t,
        None => current,
    }
}

fn given_text(s: &Option<String>) -> (r: Option<String>)
    ensures
        text::opt_text(r) == given(text::opt_text(*s)),
{
    match s {
        Some(t) => {
            let word = text::trim(t.as_str());
            if word.is_empty() {
                None
            } else {
                Some(word.to_string())
            }
        },
        None => None,
    }
}

fn given_or_current(s: &Option<String>, current: &str) -> (r: String)
    ensures
        r@ == given_or(text::opt_text(*s), current@),
{
    match given_text(s) {
        Some(t) => t,
        None => current.to_string(),
    }
}

/// A text as it is given, or else a default.
pub open spec fn said_or(s: Option<Seq<char>>, default: Seq<char>) -> Seq<char> {
    match s {
        Some(t) => t,
        None => default,
    }
}

fn said_or_default(s: &Option<String>, default: &str) -> (r: String)
    ensures
        r@ == said_or(text::opt_text(*s), default@),
{
    match s {
        Some(t) => t.clone(),
        None => default.to_string(),
    }
}

// ---------------------------------------------------------------------------
// Servers
// ---------------------------------------------------------------------------

/// What a client says of a new server.
#[derive(Debug)]
pub struct ServerPayload {
    pub name: String,
    pub description: Option<String>,
    pub icon: Option<String>,
    pub color: Option<String>,
    pub join_link: Option<String>,
    pub is_public: Option<bool>,
}

/// The link under which a server is joined, where none is given.
pub open spec fn default_link(server_id: Seq<char>) -> Seq<char> {
    "zali://server/"@ + server_id
}

/// A new server under an id.
pub open spec fn new_server(
    payload: ServerPayload,
    id: Seq<char>,
    owner: Seq<char>,
) -> ServerModel {
    let name = text::trimmed(payload.name@);
    ServerModel {
        id,
        name,
        description: said_or(text::opt_text(payload.description), Seq::empty()),
        icon: said_or(text::opt_text(payload.icon), name.take(1)),
        color: said_or(text::opt_text(payload.color), "#cbff00"@),
        join_link: given_or(text::opt_text(payload.join_link), default_link(id)),
        owner,
        is_public: if payload.is_public == Some(false) {
            0
        } else {
            1
        },
    }
}

/// A new server under an id; it has to have a name.
pub fn make_server(payload: &ServerPayload, id: &str, owner: &str) -> (r: Result<
    ServerRecord,
    Refusal,
>)
    ensures
        match r {
            Ok(server) => !text::blank(payload.name@) && server@ == new_server(
                *payload,
                id@,
                owner@,
            ),
            Err(e) => text::blank(payload.name@) && e == Refusal::EmptyServerName,
        },
{
    let name = text::trim(payload.name.as_str());
    if name.is_empty() {
        return Err(Refusal::EmptyServerName);
    }
    let icon = match &payload.icon {
        Some(icon) => icon.clone(),
        None => text::prefix(name, 1),
    };
    let link = text::join2("zali://server/", id);
    let is_public: i64 = match payload.is_public {
        Some(public) => if public {
            1
        } else {
            0
        },
        None => 1,
    };
    let description = match &payload.description {
        Some(d) => d.clone(),
        None => {
            let none = String::new();
            proof {
                assert(none@ =~= Seq::<char>::empty());
            }
            none
        },
    };
    Ok(
        ServerRecord {
            id: id.to_string(),
            name: name.to_string(),
            description,
            icon,
            color: said_or_default(&payload.color, "#cbff00"),
            join_link: given_or_current(&payload.join_link, link.as_str()),
            owner: owner.to_string(),
            is_public,
        },
    )
}

/// A new server under a new id; it has to have a name. Which id is drawn is chance.
pub fn create_server(payload: &ServerPayload, owner: &str) -> (r: Result<ServerRecord, Refusal>)
    ensures
        match r {
            Ok(server) => !text::blank(payload.name@) && ids::uuid_form(server.id@) && server@
                == new_server(*payload, server.id@, owner@),
            Err(e) => text::blank(payload.name@) && e == Refusal::EmptyServerName,
        },
{
    let id = ids::new_uuid();
    make_server(payload, id.as_str(), owner)
}

/// A user's place in a server.
#[derive(Debug)]
pub struct Membership {
    pub server_id: String,
    pub username: String,
    pub role: String,
}

/// The first member of a server: its owner, as `owner`.
pub fn first_member(server: &ServerRecord) -> (r: Membership)
    ensures
        r.server_id@ == server@.id,
        r.username@ == server@.owner,
        r.role@ == "owner"@,
        roles::kept_role(r.role@) == r.role@,
{
    proof {
        roles::builtin_roles_are_kept("owner"@);
    }
    Membership {
        server_id: server.id.clone(),
        username: server.owner.clone(),
        role: "owner".to_string(),
    }
}

/// How many roles of a list come before the first without a name.
pub open spec fn named_roles(list: Seq<ServerRolePayload>) -> nat
    decreases list.len(),
{
    if list.len() == 0 || text::blank(list[0].name@) {
        0
    } else {
        1 + named_roles(list.drop_first())
    }
}

/// How many of the roles that a client gives a new server are made: those before
/// the first without a name, which ends the request.
pub fn roles_to_make(list: &Vec<ServerRolePayload>) -> (r: (usize, Result<(), Refusal>))
    ensures
        r.0 == named_roles(list@),
        r.0 <= list@.len(),
        r.1 == (if named_roles(list@) == list@.len() {
            Ok::<(), Refusal>(())
        } else {
            Err(Refusal::EmptyRoleName)
        }),
{
    let mut i: usize = 0;
    proof {
        assert(list@.skip(0) == list@);
    }
    while i < list.len()
        invariant
            i <= list@.len(),
            named_roles(list@) == i + named_roles(list@.skip(i as int)),
        decreases list@.len() - i,
    {
        proof {
            assert(list@.skip(i as int).drop_first() =~= list@.skip(i as int + 1));
            assert(list@.skip(i as int)[0] == list@[i as int]);
        }
        if text::is_blank(list[i].name.as_str()) {
            return (i, Err(Refusal::EmptyRoleName));
        }
        i += 1;
    }
    proof {
        assert(list@.skip(list@.len() as int).len() == 0);
    }
    (i, Ok(()))
}

/// The model of a channel that is to be recorded.
pub struct NewChannel {
    pub id: Seq<char>,
    pub server_id: Seq<char>,
    pub name: Seq<char>,
    pub topic: Seq<char>,
    pub kind: Seq<char>,
    pub position: int,
}

impl View for ChannelRecord {
    type V = NewChannel;

    open spec fn view(&self) -> NewChannel {
        NewChannel {
            id: self.id@,
            server_id: self.server_id@,
            name: self.name@,
            topic: self.topic@,
            kind: self.kind@,
            position: self.position as int,
        }
    }
}

/// The models of a list of channels.
pub open spec fn channel_models(v: Seq<ChannelRecord>) -> Seq<NewChannel> {
    v.map_values(|c: ChannelRecord| c@)
}

/// A channel of a server under a key.
pub open spec fn keyed_channel(
    server_id: Seq<char>,
    key: Seq<char>,
    name: Seq<char>,
    topic: Seq<char>,
    kind: Seq<char>,
    position: int,
) -> NewChannel {
    NewChannel { id: server_id + "-"@ + key, server_id, name, topic, kind, position }
}

/// A channel of a server under a key.
pub fn make_channel(
    server_id: &str,
    key: &str,
    name: &str,
    topic: &str,
    kind: &str,
    position: i64,
) -> (r: ChannelRecord)
    ensures
        r@ == keyed_channel(server_id@, key@, name@, topic@, kind@, position as int),
{
    ChannelRecord {
        id: text::join3(server_id, "-", key),
        server_id: server_id.to_string(),
        name: name.to_string(),
        topic: topic.to_string(),
        kind: kind.to_string(),
        position,
    }
}

/// The channels that a new server starts with.
pub open spec fn first_channels(server_id: Seq<char>) -> Seq<NewChannel> {
    seq![
        keyed_channel(server_id, "general"@, "Общий чат"@, ""@, "text"@, 0),
        keyed_channel(server_id, "announcements"@, "Объявления"@, ""@, "text"@, 1),
    ]
}

/// The channels that a new server starts with.
pub fn default_channels(server_id: &str) -> (r: Vec<ChannelRecord>)
    ensures
        channel_models(r@) == first_channels(server_id@),
{
    let mut out: Vec<ChannelRecord> = Vec::new();
    out.push(make_channel(server_id, "general", "Общий чат", "", "text", 0));
    out.push(make_channel(server_id, "announcements", "Объявления", "", "text", 1));
    proof {
        assert(channel_models(out@) =~= first_channels(server_id@));
    }
    out
}

/// What a client changes of a server.
#[derive(Debug)]
pub struct ServerSettingsPayload {
    pub name: Option<String>,
    pub description: Option<String>,
    pub icon: Option<String>,
    pub color: Option<String>,
    pub join_link: Option<String>,
    pub is_public: Option<bool>,
}

/// A server after a client's changes. A blank text changes nothing, but for the
/// description, which can be emptied.
pub open spec fn changed_server(
    server: ServerModel,
    payload: ServerSettingsPayload,
) -> ServerModel {
    ServerModel {
        id: server.id,
        name: given_or(text::opt_text(payload.name), server.name),
        description: text::trimmed(said_or(text::opt_text(payload.description), server.description)),
        icon: given_or(text::opt_text(payload.icon), server.icon),
        color: given_or(text::opt_text(payload.color), server.color),
        join_link: given_or(text::opt_text(payload.join_link), server.join_link),
        owner: server.owner,
        is_public: match payload.is_public {
            Some(public) => if public {
                1
            } else {
                0
            },
            None => server.is_public,
        },
    }
}

/// Whether a request to change something of a server can go on: the server is
/// there, and the user may manage it.
pub open spec fn managed<T>(server: Lookup<T>, may_manage: bool) -> Result<(), Refusal> {
    match server {
        Lookup::Failed => Err(Refusal::Internal),
        Lookup::Missing => Err(Refusal::NotFound),
        Lookup::Found(_) => if may_manage {
            Ok(())
        } else {
            Err(Refusal::Forbidden)
        },
    }
}

/// Whether a request that only those who manage a server may make can go on.
pub fn check_manager(may_manage: bool) -> (r: Result<(), Refusal>)
    ensures
        r == (if may_manage {
            Ok::<(), Refusal>(())
        } else {
            Err(Refusal::Forbidden)
        }),
{
    if may_manage {
        Ok(())
    } else {
        Err(Refusal::Forbidden)
    }
}

/// Whether a request that anyone may make whom a server is open to can go on. A
/// server that is not there is open to no one.
pub fn check_access(server: &Lookup<ServerRecord>, user: &str, role: &Option<String>) -> (r: Result<
    (),
    Refusal,
>)
    ensures
        r == (match *server {
            Lookup::Failed => Err::<(), Refusal>(Refusal::Internal),
            Lookup::Missing => Err(Refusal::Forbidden),
            Lookup::Found(record) => if access::has_access(record@, user@, text::opt_text(*role)) {
                Ok(())
            } else {
                Err(Refusal::Forbidden)
            },
        }),
{
    match server {
        Lookup::Failed => Err(Refusal::Internal),
        Lookup::Missing => Err(Refusal::Forbidden),
        Lookup::Found(record) => if access::server_access(record, user, role) {
            Ok(())
        } else {
            Err(Refusal::Forbidden)
        },
    }
}

/// A server after a client's changes, where it was looked for and it was decided
/// whether the user may manage it.
pub fn update_server(
    server: &Lookup<ServerRecord>,
    may_manage: bool,
    payload: &ServerSettingsPayload,
) -> (r: Result<ServerRecord, Refusal>)
    ensures
        match r {
            Ok(next) => managed(*server, may_manage) is Ok && server is Found && next@
                == changed_server(server->Found_0@, *payload),
            Err(e) => managed(*server, may_manage) == Err::<(), Refusal>(e),
        },
{
    let server = match server {
        Lookup::Failed => {
            return Err(Refusal::Internal);
        },
        Lookup::Missing => {
            return Err(Refusal::NotFound);
        },
        Lookup::Found(server) => server,
    };
    if !may_manage {
        return Err(Refusal::Forbidden);
    }
    let description = said_or_default(&payload.description, server.description.as_str());
    let is_public: i64 = match payload.is_public {
        Some(public) => if public {
            1
        } else {
            0
        },
        None => server.is_public,
    };
    Ok(
        ServerRecord {
            id: server.id.clone(),
            name: given_or_current(&payload.name, server.name.as_str()),
            description: text::trim(description.as_str()).to_string(),
            icon: given_or_current(&payload.icon, server.icon.as_str()),
            color: given_or_current(&payload.color, server.color.as_str()),
            join_link: given_or_current(&payload.join_link, server.join_link.as_str()),
            owner: server.owner.clone(),
            is_public,
        },
    )
}

/// Whether a user may delete a server: its owner alone.
pub fn check_server_deletion(server: &Lookup<ServerRecord>, user: &str) -> (r: Result<(), Refusal>)
    ensures
        r == managed(*server, server is Found && server->Found_0@.owner == user@),
{
    match server {
        Lookup::Failed => Err(Refusal::Internal),
        Lookup::Missing => Err(Refusal::NotFound),
        Lookup::Found(record) => if text::str_eq(record.owner.as_str(), user) {
            Ok(())
        } else {
            Err(Refusal::Forbidden)
        },
    }
}

// ---------------------------------------------------------------------------
// Channels
// ---------------------------------------------------------------------------

/// What a client says of a new channel.
#[derive(Debug)]
pub struct ChannelPayload {
    pub name: String,
    pub topic: Option<String>,
    pub kind: Option<String>,
    pub can_view: Option<bool>,
    pub can_send: Option<bool>,
}

/// Why a channel cannot be made, if it cannot.
pub open spec fn channel_refusal(
    server: Lookup<ServerRecord>,
    may_manage: bool,
    name: Seq<char>,
    name_taken: bool,
) -> Option<Refusal> {
    match managed(server, may_manage) {
        Err(e) => Some(e),
        Ok(_) => if text::blank(name) {
            Some(Refusal::EmptyChannelName)
        } else if name_taken {
            Some(Refusal::ChannelNameTaken)
        } else {
            None
        },
    }
}

/// A new channel, where `random` makes its id, and `name_taken` says whether the
/// server has a channel of that name.
pub fn make_new_channel(
    server: &Lookup<ServerRecord>,
    may_manage: bool,
    payload: &ChannelPayload,
    name_taken: bool,
    random: &str,
    position: i64,
) -> (r: Result<ChannelRecord, Refusal>)
    ensures
        match r {
            Ok(channel) => channel_refusal(*server, may_manage, payload.name@, name_taken) is None
                && server is Found && channel@ == keyed_channel(
                server->Found_0@.id,
                random@,
                text::trimmed(payload.name@),
                said_or(text::opt_text(payload.topic), ""@),
                roles::channel_kind(text::opt_text(payload.kind)),
                position as int,
            ),
            Err(e) => channel_refusal(*server, may_manage, payload.name@, name_taken) == Some(e),
        },
{
    let server = match server {
        Lookup::Failed => {
            return Err(Refusal::Internal);
        },
        Lookup::Missing => {
            return Err(Refusal::NotFound);
        },
        Lookup::Found(server) => server,
    };
    if !may_manage {
        return Err(Refusal::Forbidden);
    }
    let name = text::trim(payload.name.as_str());
    if name.is_empty() {
        return Err(Refusal::EmptyChannelName);
    }
    if name_taken {
        return Err(Refusal::ChannelNameTaken);
    }
    let topic = said_or_default(&payload.topic, "");
    let kind = match &payload.kind {
        Some(k) => roles::normalize_channel_kind(Some(k.as_str())),
        None => roles::normalize_channel_kind(None),
    };
    Ok(
        make_channel(
            server.id.as_str(),
            random,
            name,
            topic.as_str(),
            kind.as_str(),
            position,
        ),
    )
}

/// A new channel with a new id. Which id is drawn is chance.
pub fn create_channel(
    server: &Lookup<ServerRecord>,
    may_manage: bool,
    payload: &ChannelPayload,
    name_taken: bool,
    position: i64,
) -> (r: Result<ChannelRecord, Refusal>)
    ensures
        match r {
            Ok(channel) => channel_refusal(*server, may_manage, payload.name@, name_taken) is None
                && server is Found && exists|random: Seq<char>| #[trigger]
                ids::uuid_form(random) && channel@ == keyed_channel(
                    server->Found_0@.id,
                    random,
                    text::trimmed(payload.name@),
                    said_or(text::opt_text(payload.topic), ""@),
                    roles::channel_kind(text::opt_text(payload.kind)),
                    position as int,
                ),
            Err(e) => channel_refusal(*server, may_manage, payload.name@, name_taken) == Some(e),
        },
{
    let random = ids::new_uuid();
    make_new_channel(server, may_manage, payload, name_taken, random.as_str(), position)
}

/// Whether a name has to be looked for among the channels of a server: a blank one
/// is in no conflict.
pub fn name_can_conflict(name: &str) -> (r: bool)
    ensures
        r == !text::blank(name@),
{
    !text::is_blank(name)
}

/// What a client changes of a channel.
#[derive(Debug)]
pub struct ChannelUpdatePayload {
    pub name: Option<String>,
    pub topic: Option<String>,
    pub kind: Option<String>,
    pub position: Option<i64>,
}

/// A channel after a client's changes.
pub open spec fn changed_channel(channel: NewChannel, payload: ChannelUpdatePayload) -> NewChannel {
    let position = match payload.position {
        Some(p) => p as int,
        None => channel.position,
    };
    NewChannel {
        id: channel.id,
        server_id: channel.server_id,
        name: given_or(text::opt_text(payload.name), channel.name),
        topic: match payload.topic {
            Some(t) => text::trimmed(t@),
            None => channel.topic,
        },
        kind: match payload.kind {
            Some(k) => roles::channel_kind(Some(k@)),
            None => channel.kind,
        },
        position: if position < 0 {
            0
        } else {
            position
        },
    }
}

/// The name that a channel has after a client's changes.
pub fn next_channel_name(channel: &ChannelRecord, payload: &ChannelUpdatePayload) -> (r: String)
    ensures
        r@ == changed_channel(channel@, *payload).name,
{
    given_or_current(&payload.name, channel.name.as_str())
}

/// Why a channel cannot be changed, if it cannot.
pub open spec fn channel_change_refusal(
    may_manage: bool,
    channel: Lookup<ChannelRecord>,
    payload: ChannelUpdatePayload,
    name_taken: bool,
) -> Option<Refusal> {
    if !may_manage {
        Some(Refusal::Forbidden)
    } else {
        match channel {
            Lookup::Failed => Some(Refusal::Internal),
            Lookup::Missing => Some(Refusal::NotFound),
            Lookup::Found(record) => {
                let name = changed_channel(record@, payload).name;
                if text::blank(name) {
                    Some(Refusal::EmptyChannelName)
                } else if name != record.name@ && name_taken {
                    Some(Refusal::ChannelNameTaken)
                } else {
                    None
                }
            },
        }
    }
}

/// A channel after a client's changes, where `name_taken` says whether the server
/// has another channel of its new name.
pub fn update_channel(
    may_manage: bool,
    channel: &Lookup<ChannelRecord>,
    payload: &ChannelUpdatePayload,
    name_taken: bool,
) -> (r: Result<ChannelRecord, Refusal>)
    ensures
        match r {
            Ok(next) => channel_change_refusal(may_manage, *channel, *payload, name_taken) is None
                && channel is Found && next@ == changed_channel(channel->Found_0@, *payload),
            Err(e) => channel_change_refusal(may_manage, *channel, *payload, name_taken) == Some(e),
        },
{
    if !may_manage {
        return Err(Refusal::Forbidden);
    }
    let channel = match channel {
        Lookup::Failed => {
            return Err(Refusal::Internal);
        },
        Lookup::Missing => {
            return Err(Refusal::NotFound);
        },
        Lookup::Found(channel) => channel,
    };
    let name = next_channel_name(channel, payload);
    if text::is_blank(name.as_str()) {
        return Err(Refusal::EmptyChannelName);
    }
    if !text::str_eq(name.as_str(), channel.name.as_str()) && name_taken {
        return Err(Refusal::ChannelNameTaken);
    }
    let topic = match &payload.topic {
        Some(t) => text::trim(t.as_str()).to_string(),
        None => channel.topic.clone(),
    };
    let kind = match &payload.kind {
        Some(k) => roles::normalize_channel_kind(Some(k.as_str())),
        None => channel.kind.clone(),
    };
    let position: i64 = match payload.position {
        Some(p) => p,
        None => channel.position,
    };
    Ok(
        ChannelRecord {
            id: channel.id.clone(),
            server_id: channel.server_id.clone(),
            name,
            topic,
            kind,
            position: if position < 0 {
                0
            } else {
                position
            },
        },
    )
}

/// Whether a channel can be deleted, where it was looked for and it was decided
/// whether the user may manage the server.
pub fn check_channel_deletion(may_manage: bool, channel: &Lookup<ChannelRecord>) -> (r: Result<
    (),
    Refusal,
>)
    ensures
        r == (if !may_manage {
            Err::<(), Refusal>(Refusal::Forbidden)
        } else {
            managed(*channel, true)
        }),
{
    if !may_manage {
        return Err(Refusal::Forbidden);
    }
    match channel {
        Lookup::Failed => Err(Refusal::Internal),
        Lookup::Missing => Err(Refusal::NotFound),
        Lookup::Found(_) => Ok(()),
    }
}

// ---------------------------------------------------------------------------
// Deletion of channels and servers
// ---------------------------------------------------------------------------

/// What is deleted with all that belongs to it.
#[derive(Debug, Clone, Copy, PartialEq, Eq, Structural)]
pub enum Deleted {
    Channel,
    Server,
}

/// The step of a deletion that is to be done next, or how it ended.
#[derive(Debug, Clone, Copy, PartialEq, Eq, Structural)]
pub enum DeletionStep {
    ListFiles,
    /// Remove the messages' files; one that cannot be removed is passed over.
    RemoveFiles,
    Begin,
    DropReactions,
    DropMessages,
    DropPermissions,
    DropMembers,
    DropChannels,
    DropServer,
    Commit,
    Done,
    /// A step failed; what was begun is undone.
    Undone,
}

/// The step after one that worked.
pub open spec fn following(what: Deleted, step: DeletionStep) -> DeletionStep {
    match step {
        DeletionStep::ListFiles => DeletionStep::RemoveFiles,
        DeletionStep::RemoveFiles => DeletionStep::Begin,
        DeletionStep::Begin => DeletionStep::DropReactions,
        DeletionStep::DropReactions => DeletionStep::DropMessages,
        DeletionStep::DropMessages => if what is Channel {
            DeletionStep::DropPermissions
        } else {
            DeletionStep::DropMembers
        },
        DeletionStep::DropPermissions => DeletionStep::DropChannels,
        DeletionStep::DropMembers => DeletionStep::DropChannels,
        DeletionStep::DropChannels => if what is Channel {
            DeletionStep::Commit
        } else {
            DeletionStep::DropServer
        },
        DeletionStep::DropServer => DeletionStep::Commit,
        DeletionStep::Commit => DeletionStep::Done,
        DeletionStep::Done => DeletionStep::Done,
        DeletionStep::Undone => DeletionStep::Undone,
    }
}

/// The step after one, by whether it worked. Removing files always counts as done.
pub open spec fn after_step(what: Deleted, step: DeletionStep, worked: bool) -> DeletionStep {
    if worked || step is RemoveFiles || step is Done {
        following(what, step)
    } else {
        DeletionStep::Undone
    }
}

/// The step of a deletion after one, by whether that worked.
pub fn next_deletion_step(what: Deleted, step: DeletionStep, worked: bool) -> (r: DeletionStep)
    ensures
        r == after_step(what, step, worked),
{
    match step {
        DeletionStep::Done => {
            return DeletionStep::Done;
        },
        DeletionStep::RemoveFiles => {
            return DeletionStep::Begin;
        },
        _ => {},
    }
    if !worked {
        return DeletionStep::Undone;
    }
    match step {
        DeletionStep::ListFiles => DeletionStep::RemoveFiles,
        DeletionStep::RemoveFiles => DeletionStep::Begin,
        DeletionStep::Begin => DeletionStep::DropReactions,
        DeletionStep::DropReactions => DeletionStep::DropMessages,
        DeletionStep::DropMessages => match what {
            Deleted::Channel => DeletionStep::DropPermissions,
            Deleted::Server => DeletionStep::DropMembers,
        },
        DeletionStep::DropPermissions => DeletionStep::DropChannels,
        DeletionStep::DropMembers => DeletionStep::DropChannels,
        DeletionStep::DropChannels => match what {
            Deleted::Channel => DeletionStep::Commit,
            Deleted::Server => DeletionStep::DropServer,
        },
        DeletionStep::DropServer => DeletionStep::Commit,
        DeletionStep::Commit => DeletionStep::Done,
        DeletionStep::Done => DeletionStep::Done,
        DeletionStep::Undone => DeletionStep::Undone,
    }
}

/// What a client is answered whose deletion ended.
pub fn deletion_answer(step: DeletionStep) -> (r: Option<Result<(), Refusal>>)
    ensures
        r == (match step {
            DeletionStep::Done => Some(Ok::<(), Refusal>(())),
            DeletionStep::Undone => Some(Err(Refusal::Internal)),
            _ => None,
        }),
{
    match step {
        DeletionStep::Done => Some(Ok(())),
        DeletionStep::Undone => Some(Err(Refusal::Internal)),
        _ => None,
    }
}

// ---------------------------------------------------------------------------
// Members
// ---------------------------------------------------------------------------

/// A change of a server's members.
#[derive(Debug, Clone, Copy, PartialEq, Eq, Structural)]
pub enum MemberChange {
    Add,
    SetRole,
    Remove,
}

/// Why a change of a server's members is refused to touch the owner.
pub open spec fn owner_refusal(change: MemberChange) -> Refusal {
    match change {
        MemberChange::Add => Refusal::OwnerIsMember,
        MemberChange::SetRole => Refusal::OwnerRoleFixed,
        MemberChange::Remove => Refusal::OwnerStays,
    }
}

/// Why a change of a server's members is refused, if it is. `role` is the role that
/// the client's words came to, if there is such a role.
pub open spec fn member_refusal(
    change: MemberChange,
    may_manage: bool,
    server: Lookup<ServerRecord>,
    username: Seq<char>,
    role: Option<Seq<char>>,
) -> Option<Refusal> {
    if !may_manage {
        Some(Refusal::Forbidden)
    } else {
        match server {
            Lookup::Failed => Some(Refusal::Internal),
            Lookup::Missing => Some(Refusal::NotFound),
            Lookup::Found(record) => if text::blank(username) {
                Some(Refusal::EmptyMemberName)
            } else if text::trimmed(username) == record.owner@ {
                Some(owner_refusal(change))
            } else if change is Remove {
                None
            } else if role is None {
                Some(Refusal::UnknownRole)
            } else if role->0 == "owner"@ {
                Some(Refusal::OwnerRoleNotGiven)
            } else {
                None
            },
        }
    }
}

/// A change of a server's members that can be made: the user, and the role under
/// which they are kept. For a removal the role means nothing.
pub fn change_member(
    change: MemberChange,
    may_manage: bool,
    server: &Lookup<ServerRecord>,
    username: &str,
    role: &Option<String>,
) -> (r: Result<(String, String), Refusal>)
    ensures
        match r {
            Ok(member) => member_refusal(
                change,
                may_manage,
                *server,
                username@,
                text::opt_text(*role),
            ) is None && member.0@ == text::trimmed(username@) && member.1@ == (match role {
                Some(name) => roles::kept_role(name@),
                None => "member"@,
            }),
            Err(e) => member_refusal(change, may_manage, *server, username@, text::opt_text(*role))
                == Some(e),
        },
{
    if !may_manage {
        return Err(Refusal::Forbidden);
    }
    let server = match server {
        Lookup::Failed => {
            return Err(Refusal::Internal);
        },
        Lookup::Missing => {
            return Err(Refusal::NotFound);
        },
        Lookup::Found(server) => server,
    };
    let name = text::trim(username);
    if name.is_empty() {
        return Err(Refusal::EmptyMemberName);
    }
    if text::str_eq(name, server.owner.as_str()) {
        return Err(
            match change {
                MemberChange::Add => Refusal::OwnerIsMember,
                MemberChange::SetRole => Refusal::OwnerRoleFixed,
                MemberChange::Remove => Refusal::OwnerStays,
            },
        );
    }
    match change {
        MemberChange::Remove => {},
        _ => match role {
            None => {
                return Err(Refusal::UnknownRole);
            },
            Some(given) => {
                if text::str_eq(given.as_str(), "owner") {
                    return Err(Refusal::OwnerRoleNotGiven);
                }
            },
        },
    }
    let kept = match role {
        Some(given) => roles::stored_member_role(given.as_str()),
        None => "member".to_string(),
    };
    Ok((name.to_string(), kept))
}

/// A contact that a user can add: the name without white space at its ends. It has
/// to be another user's.
pub fn add_contact(owner: &str, username: &str, user: &Lookup<String>) -> (r: Result<
    String,
    Refusal,
>)
    ensures
        match r {
            Ok(contact) => contact@ == text::trimmed(username@) && !text::blank(username@)
                && contact@ != owner@ && user is Found,
            Err(e) => if text::blank(username@) {
                e == Refusal::EmptyContact
            } else if text::trimmed(username@) == owner@ {
                e == Refusal::OwnContact
            } else {
                match user {
                    Lookup::Failed => e == Refusal::Internal,
                    Lookup::Missing => e == Refusal::UserNotFound,
                    Lookup::Found(_) => false,
                }
            },
        },
{
    let contact = text::trim(username);
    if contact.is_empty() {
        return Err(Refusal::EmptyContact);
    }
    if text::str_eq(contact, owner) {
        return Err(Refusal::OwnContact);
    }
    match user {
        Lookup::Failed => Err(Refusal::Internal),
        Lookup::Missing => Err(Refusal::UserNotFound),
        Lookup::Found(_) => Ok(contact.to_string()),
    }
}

// ---------------------------------------------------------------------------
// Invites
// ---------------------------------------------------------------------------

/// An invite to a server.
#[derive(Debug)]
pub struct ServerInvite {
    pub code: String,
    pub server_id: String,
    pub created_by: String,
    pub max_uses: i64,
    pub uses: i64,
    pub expires_at: Option<Timestamp>,
    pub created_at: Timestamp,
}

/// The model of an invite.
pub struct InviteModel {
    pub code: Seq<char>,
    pub server_id: Seq<char>,
    pub created_by: Seq<char>,
    pub max_uses: int,
    pub uses: int,
    pub expires_at: Option<Timestamp>,
    pub created_at: Timestamp,
}

impl View for ServerInvite {
    type V = InviteModel;

    open spec fn view(&self) -> InviteModel {
        InviteModel {
            code: self.code@,
            server_id: self.server_id@,
            created_by: self.created_by@,
            max_uses: self.max_uses as int,
            uses: self.uses as int,
            expires_at: self.expires_at,
            created_at: self.created_at,
        }
    }
}

/// Whether an invite can hold for so many hours from a point in time on.
pub open spec fn expiry_fits(now: Timestamp, hours: Option<i64>) -> bool {
    hours is None || hours->0 <= 0 || now.secs + hours->0 * 3600 <= LAST_SECOND
}

/// When an invite ends that holds for so many hours; never, for none above zero.
pub open spec fn expiry(now: Timestamp, hours: Option<i64>) -> Option<Timestamp> {
    if hours is Some && hours->0 > 0 {
        Some(Timestamp { secs: (now.secs + hours->0 * 3600) as i64, nanos: now.nanos })
    } else {
        None
    }
}

/// Whether an invite can hold for so many hours from a point in time on.
pub fn expiry_is_possible(now: Timestamp, hours: Option<i64>) -> (r: bool)
    ensures
        r == expiry_fits(now, hours),
{
    match hours {
        Some(h) => h <= 0 || now.secs as i128 + h as i128 * 3600 <= LAST_SECOND as i128,
        None => true,
    }
}

/// A new invite, where `random` makes its code.
pub open spec fn new_invite(
    server_id: Seq<char>,
    created_by: Seq<char>,
    max_uses: Option<i64>,
    hours: Option<i64>,
    now: Timestamp,
    random: Seq<char>,
) -> InviteModel {
    InviteModel {
        code: random.take(8),
        server_id,
        created_by,
        max_uses: if max_uses is Some && max_uses->0 > 0 {
            max_uses->0 as int
        } else {
            0
        },
        uses: 0,
        expires_at: expiry(now, hours),
        created_at: now,
    }
}

/// A new invite, where `random` makes its code.
pub fn make_invite(
    server_id: &str,
    created_by: &str,
    max_uses: Option<i64>,
    hours: Option<i64>,
    now: Timestamp,
    random: &str,
) -> (r: ServerInvite)
    requires
        expiry_fits(now, hours),
        random@.len() >= 8,
    ensures
        r@ == new_invite(server_id@, created_by@, max_uses, hours, now, random@),
{
    let expires_at = match hours {
        Some(h) => if h > 0 {
            let end: i128 = now.secs as i128 + h as i128 * 3600;
            Some(Timestamp { secs: end as i64, nanos: now.nanos })
        } else {
            None
        },
        None => None,
    };
    let max_uses: i64 = match max_uses {
        Some(n) => if n > 0 {
            n
        } else {
            0
        },
        None => 0,
    };
    ServerInvite {
        code: text::prefix(random, 8),
        server_id: server_id.to_string(),
        created_by: created_by.to_string(),
        max_uses,
        uses: 0,
        expires_at,
        created_at: now,
    }
}

/// A new invite with a random code. Which code is drawn is chance.
pub fn create_server_invite_record(
    server_id: &str,
    created_by: &str,
    max_uses: Option<i64>,
    hours: Option<i64>,
    now: Timestamp,
) -> (r: ServerInvite)
    requires
        expiry_fits(now, hours),
    ensures
        r@.code.len() == 8,
        exists|random: Seq<char>| #[trigger]
            ids::simple_uuid(random) && r@ == new_invite(
                server_id@,
                created_by@,
                max_uses,
                hours,
                now,
                random,
            ),
{
    let random = ids::new_simple_uuid();
    make_invite(server_id, created_by, max_uses, hours, now, random.as_str())
}

/// The address of an invite.
pub fn invite_url(code: &str) -> (r: String)
    ensures
        r@ == "zali://invite/"@ + code@,
{
    text::join2("zali://invite/", code)
}

/// Whether a point in time comes before another.
pub open spec fn earlier(a: Timestamp, b: Timestamp) -> bool {
    a.secs < b.secs || (a.secs == b.secs && a.nanos < b.nanos)
}

/// Why an invite no longer lets anyone in, if it does not.
pub open spec fn invite_refusal(invite: InviteModel, now: Timestamp) -> Option<Refusal> {
    if invite.expires_at is Some && earlier(invite.expires_at->0, now) {
        Some(Refusal::InviteExpired)
    } else if invite.max_uses > 0 && invite.uses >= invite.max_uses {
        Some(Refusal::InviteUsedUp)
    } else {
        None
    }
}

/// Joining by an invite: the server to join, if the code names an invite that still
/// lets users in.
pub fn join_by_invite(code: &str, invite: &Lookup<ServerInvite>, now: Timestamp) -> (r: Result<
    String,
    Refusal,
>)
    ensures
        match r {
            Ok(server_id) => !text::blank(code@) && invite is Found && invite_refusal(
                invite->Found_0@,
                now,
            ) is None && server_id@ == invite->Found_0@.server_id,
            Err(e) => if text::blank(code@) {
                e == Refusal::InviteCodeMissing
            } else {
                match invite {
                    Lookup::Failed => e == Refusal::Internal,
                    Lookup::Missing => e == Refusal::NotFound,
                    Lookup::Found(found) => invite_refusal(found@, now) == Some(e),
                }
            },
        },
{
    if text::is_blank(code) {
        return Err(Refusal::InviteCodeMissing);
    }
    let invite = match invite {
        Lookup::Failed => {
            return Err(Refusal::Internal);
        },
        Lookup::Missing => {
            return Err(Refusal::NotFound);
        },
        Lookup::Found(invite) => invite,
    };
    if let Some(end) = invite.expires_at {
        if end.secs < now.secs || (end.secs == now.secs && end.nanos < now.nanos) {
            return Err(Refusal::InviteExpired);
        }
    }
    if invite.max_uses > 0 && invite.uses >= invite.max_uses {
        return Err(Refusal::InviteUsedUp);
    }
    Ok(invite.server_id.clone())
}

/// The server id that a link names: what follows `zali://server/` or `server/`, or
/// all of it.
pub open spec fn linked_id(link: Seq<char>) -> Seq<char> {
    let raw = text::trimmed(link);
    if "zali://server/"@.is_prefix_of(raw) {
        text::trimmed(raw.skip("zali://server/"@.len() as int))
    } else if "server/"@.is_prefix_of(raw) {
        text::trimmed(raw.skip("server/"@.len() as int))
    } else {
        text::trimmed(raw)
    }
}

/// What a server is looked for by, given a link: the link without white space at its
/// ends, and the server id that it names.
pub fn read_server_link(link: &str) -> (r: Result<(String, String), Refusal>)
    ensures
        match r {
            Ok(keys) => !text::blank(link@) && keys.0@ == text::trimmed(link@) && keys.1@
                == linked_id(link@),
            Err(e) => text::blank(link@) && e == Refusal::ServerLinkMissing,
        },
{
    let raw = text::trim(link);
    if raw.is_empty() {
        return Err(Refusal::ServerLinkMissing);
    }
    let id = match text::strip_prefix(raw, "zali://server/") {
        Some(rest) => {
            proof {
                text::prefix_then_skip("zali://server/"@, rest@);
            }
            rest
        },
        None => match text::strip_prefix(raw, "server/") {
            Some(rest) => {
                proof {
                    text::prefix_then_skip("server/"@, rest@);
                }
                rest
            },
            None => raw,
        },
    };
    Ok((raw.to_string(), text::trim(id).to_string()))
}

// ---------------------------------------------------------------------------
// Laws
// ---------------------------------------------------------------------------

/// A change of a server never touches its id and its owner.
pub proof fn server_change_keeps_identity(server: ServerModel, payload: ServerSettingsPayload)
    ensures
        changed_server(server, payload).id == server.id,
        changed_server(server, payload).owner == server.owner,
{
}

/// A change that says nothing leaves a server as it is, but for white space at the
/// ends of its description.
pub proof fn empty_server_change(server: ServerModel, payload: ServerSettingsPayload)
    requires
        payload.name is None,
        payload.description is None,
        payload.icon is None,
        payload.color is None,
        payload.join_link is None,
        payload.is_public is None,
    ensures
        changed_server(server, payload) == (ServerModel {
            description: text::trimmed(server.description),
            ..server
        }),
{
}

/// A change of a server is final: making it a second time changes nothing more.
pub proof fn server_change_idempotent(server: ServerModel, payload: ServerSettingsPayload)
    ensures
        changed_server(changed_server(server, payload), payload) == changed_server(server, payload),
{
    text::trimmed_idempotent(server.description);
}

/// A change of a channel is final, keeps its id and server, and never puts it before
/// the start.
pub proof fn channel_change_idempotent(channel: NewChannel, payload: ChannelUpdatePayload)
    ensures
        changed_channel(changed_channel(channel, payload), payload) == changed_channel(
            channel,
            payload,
        ),
        changed_channel(channel, payload).id == channel.id,
        changed_channel(channel, payload).server_id == channel.server_id,
        changed_channel(channel, payload).position >= 0,
{
}

/// The owner of a new server may manage it and do anything in it.
pub proof fn creators_own_their_server(payload: ServerPayload, id: Seq<char>, owner: Seq<char>)
    ensures
        new_server(payload, id, owner).owner == owner,
        new_server(payload, id, owner).id == id,
        access::may_manage(new_server(payload, id, owner), owner, None, None),
{
}

/// The link that a new server gets where none is given leads to its id.
pub proof fn default_links_lead_home(id: Seq<char>)
    requires
        ids::uuid_form(id),
    ensures
        text::trimmed(default_link(id)) == default_link(id),
        linked_id(default_link(id)) == id,
        !text::blank(default_link(id)),
{
    reveal_strlit("zali://server/");
    let link = default_link(id);
    assert(link[0] == 'z');
    assert(link.last() == id[35]);
    text::trimmed_of_tight(link);
    text::prefix_then_skip("zali://server/"@, id);
    text::trimmed_of_tight(id);
}

/// A series of steps of a deletion, by whether each worked.
pub open spec fn deletion_run(what: Deleted, worked: Seq<bool>) -> DeletionStep
    decreases worked.len(),
{
    if worked.len() == 0 {
        DeletionStep::ListFiles
    } else {
        after_step(what, deletion_run(what, worked.drop_last()), worked.last())
    }
}

/// How many steps a deletion has before a step.
pub open spec fn rank(what: Deleted, step: DeletionStep) -> nat {
    match step {
        DeletionStep::ListFiles => 0,
        DeletionStep::RemoveFiles => 1,
        DeletionStep::Begin => 2,
        DeletionStep::DropReactions => 3,
        DeletionStep::DropMessages => 4,
        DeletionStep::DropPermissions => 5,
        DeletionStep::DropMembers => 5,
        DeletionStep::DropChannels => 6,
        DeletionStep::DropServer => 7,
        DeletionStep::Commit => if what is Channel {
            7
        } else {
            8
        },
        DeletionStep::Done => if what is Channel {
            8
        } else {
            9
        },
        DeletionStep::Undone => 0,
    }
}

/// A deletion is committed only after every step before it worked, but for the
/// removal of files; once one failed, it is never committed.
pub proof fn deletion_is_all_or_nothing(what: Deleted, worked: Seq<bool>)
    ensures
        ({
            let step = deletion_run(what, worked);
            !(step is Undone) ==> worked.len() >= rank(what, step) && (step is Done || worked.len()
                == rank(what, step)) && forall|i: int|
                0 <= i < rank(what, step) && i != 1 ==> #[trigger] worked[i]
        }),
    decreases worked.len(),
{
    if worked.len() > 0 {
        deletion_is_all_or_nothing(what, worked.drop_last());
        let before = deletion_run(what, worked.drop_last());
        let step = deletion_run(what, worked);
        if !(step is Undone) {
            assert(!(before is Undone));
            deletion_steps_are_known(what, worked.drop_last());
            assert forall|i: int| 0 <= i < rank(what, step) && i != 1 implies #[trigger] worked[i] by {
                if i < rank(what, before) {
                    assert(worked.drop_last()[i] == worked[i]);
                } else {
                    assert(i == worked.len() - 1);
                }
            }
        }
    }
}

proof fn deletion_steps_are_known(what: Deleted, worked: Seq<bool>)
    ensures
        what is Channel ==> !(deletion_run(what, worked) is DropServer) && !(deletion_run(
            what,
            worked,
        ) is DropMembers),
        what is Server ==> !(deletion_run(what, worked) is DropPermissions),
    decreases worked.len(),
{
    if worked.len() > 0 {
        deletion_steps_are_known(what, worked.drop_last());
    }
}

proof fn working_steps_are_not_undone(what: Deleted, worked: Seq<bool>)
    requires
        forall|i: int| 0 <= i < worked.len() ==> #[trigger] worked[i],
    ensures
        !(deletion_run(what, worked) is Undone),
    decreases worked.len(),
{
    if worked.len() > 0 {
        assert(worked[worked.len() - 1]);
        assert(forall|i: int| 0 <= i < worked.drop_last().len() ==> worked.drop_last()[i] == worked[i]);
        working_steps_are_not_undone(what, worked.drop_last());
    }
}

/// A deletion whose steps all work ends, and with success.
pub proof fn deletion_succeeds(what: Deleted, worked: Seq<bool>)
    requires
        worked.len() >= rank(what, DeletionStep::Done),
        forall|i: int| 0 <= i < worked.len() ==> #[trigger] worked[i],
    ensures
        deletion_run(what, worked) is Done,
{
    working_steps_are_not_undone(what, worked);
    deletion_is_all_or_nothing(what, worked);
    deletion_steps_are_known(what, worked);
}

/// No change of members makes anyone an owner, or touches the owner.
pub proof fn ownership_is_not_given(
    change: MemberChange,
    may_manage: bool,
    server: ServerRecord,
    username: Seq<char>,
    role: Option<Seq<char>>,
)
    requires
        member_refusal(change, may_manage, Lookup::Found(server), username, role) is None,
    ensures
        may_manage,
        text::trimmed(username) != server.owner@,
        !(change is Remove) ==> role is Some && role->0 != "owner"@,
{
}

/// A role that came of a client's words is kept as `owner` only if it is `owner`,
/// which no change gives.
pub proof fn resolved_roles_keep_no_owner(role: Option<Seq<char>>, custom: Option<Seq<char>>)
    requires
        roles::resolved_role(role, custom) is Some,
        roles::resolved_role(role, custom)->0 != "owner"@,
        custom is Some ==> roles::builtin_role(custom) is None,
    ensures
        roles::kept_role(roles::resolved_role(role, custom)->0) != "owner"@,
{
    reveal_strlit("owner");
    reveal_strlit("member");
    reveal_strlit("admin");
    assert("member"@.len() != "owner"@.len());
    assert("admin"@[0] != "owner"@[0]);
    let raw = match role {
        Some(name) => text::trimmed(name),
        None => "member"@,
    };
    text::trimmed_of_tight("member"@);
    text::lowercase_of_lower("member"@);
    if raw.len() > 0 && roles::builtin_role(Some(raw)) is Some {
        roles::builtin_role_idempotent(Some(raw));
    }
}

/// An invite after it let a user in.
pub open spec fn used_once(invite: InviteModel) -> InviteModel {
    InviteModel { uses: invite.uses + 1, ..invite }
}

/// An invite after it let so many users in.
pub open spec fn used(invite: InviteModel, times: nat) -> InviteModel
    decreases times,
{
    if times == 0 {
        invite
    } else {
        used_once(used(invite, (times - 1) as nat))
    }
}

proof fn used_counts(invite: InviteModel, times: nat)
    ensures
        used(invite, times).uses == invite.uses + times,
        used(invite, times).max_uses == invite.max_uses,
        used(invite, times).expires_at == invite.expires_at,
    decreases times,
{
    if times > 0 {
        used_counts(invite, (times - 1) as nat);
    }
}

/// A new invite with a limit lets in as many users as that and no more; one without
/// lets in any number. Both only while it holds.
pub proof fn invites_let_in_their_number(
    server_id: Seq<char>,
    created_by: Seq<char>,
    max_uses: Option<i64>,
    hours: Option<i64>,
    created: Timestamp,
    random: Seq<char>,
    times: nat,
    now: Timestamp,
)
    ensures
        ({
            let invite = new_invite(server_id, created_by, max_uses, hours, created, random);
            let limited = max_uses is Some && max_uses->0 > 0;
            invite_refusal(used(invite, times), now) is None <==> (!limited || times < max_uses->0)
                && !(expiry(created, hours) is Some && earlier(expiry(created, hours)->0, now))
        }),
{
    used_counts(new_invite(server_id, created_by, max_uses, hours, created, random), times);
}

/// An invite that is made for some hours holds for exactly that long.
pub proof fn invites_hold_their_hours(made: Timestamp, hours: i64, now: Timestamp)
    requires
        hours > 0,
        expiry_fits(made, Some(hours)),
    ensures
        expiry(made, Some(hours)) is Some,
        earlier(expiry(made, Some(hours))->0, now) <==> now.secs - made.secs > hours * 3600 || (
        now.secs - made.secs == hours * 3600 && now.nanos > made.nanos),
{
}

/// A text counts as given exactly if it is there and not blank, without white space at its
/// ends; where none is given, what was there stays.
pub proof fn what_counts_as_given(s: Seq<char>, current: Seq<char>)
    ensures
        given(None) is None,
        text::blank(s) ==> given(Some(s)) is None,
        !text::blank(s) ==> given(Some(s)) == Some(text::trimmed(s)),
        given_or(None, current) == current,
        text::blank(s) ==> given_or(Some(s), current) == current,
        !text::blank(s) ==> given_or(Some(s), current) == text::trimmed(s),
{
}

/// A new server has what is given of it; its name without white space at its ends; where
/// nothing is given, no description, the first letter of its name as its icon, the usual
/// colour and a link of its own. It is public unless it is said not to be.
pub proof fn new_servers_are_as_given(
    payload: ServerPayload,
    id: Seq<char>,
    owner: Seq<char>,
    r: ServerRecord,
)
    requires
        r@ == new_server(payload, id, owner),
    ensures
        r.id@ == id,
        r.owner@ == owner,
        r.name@ == text::trimmed(payload.name@),
        payload.description is Some ==> r.description@ == payload.description->0@,
        payload.description is None ==> r.description@.len() == 0,
        payload.icon is Some ==> r.icon@ == payload.icon->0@,
        payload.icon is None && !text::blank(payload.name@) ==> r.icon@ == seq![
            text::trimmed(payload.name@)[0],
        ],
        payload.color is Some ==> r.color@ == payload.color->0@,
        payload.color is None ==> r.color@ == "#cbff00"@,
        payload.join_link is Some && !text::blank(payload.join_link->0@) ==> r.join_link@
            == text::trimmed(payload.join_link->0@),
        payload.join_link is None || text::blank(payload.join_link->0@) ==> r.join_link@
            == "zali://server/"@ + id,
        payload.is_public == Some(false) ==> r.is_public == 0,
        payload.is_public != Some(false) ==> r.is_public == 1,
{
    if !text::blank(payload.name@) {
        let name = text::trimmed(payload.name@);
        assert(name.take(1) =~= seq![name[0]]);
    }
}

/// Whether a text is what was said, without white space at its ends, or, where nothing or
/// only blanks were said, what it was.
pub open spec fn settles_text(said: Option<String>, before: Seq<char>, after: Seq<char>) -> bool {
    if said is Some && !text::blank(said->0@) {
        after == text::trimmed(said->0@)
    } else {
        after == before
    }
}

/// A server after a change has what was said, and of all that was not said what it had; it
/// stays the same server of the same owner.
pub proof fn changed_servers_are_as_said(
    server: ServerRecord,
    payload: ServerSettingsPayload,
    r: ServerRecord,
)
    requires
        r@ == changed_server(server@, payload),
    ensures
        r.id@ == server.id@,
        r.owner@ == server.owner@,
        settles_text(payload.name, server.name@, r.name@),
        settles_text(payload.icon, server.icon@, r.icon@),
        settles_text(payload.color, server.color@, r.color@),
        settles_text(payload.join_link, server.join_link@, r.join_link@),
        payload.description is Some ==> r.description@ == text::trimmed(payload.description->0@),
        payload.description is None ==> r.description@ == text::trimmed(server.description@),
        payload.is_public == Some(true) ==> r.is_public == 1,
        payload.is_public == Some(false) ==> r.is_public == 0,
        payload.is_public is None ==> r.is_public == server.is_public,
{
}

/// A request on something goes on exactly if it is there and the user may make it; what is
/// not there is not found, and what cannot be looked for is an internal error.
pub proof fn when_a_request_goes_on(found: ServerRecord, may_manage: bool)
    ensures
        managed(Lookup::Found(found), true) == Ok::<(), Refusal>(()),
        managed(Lookup::Found(found), false) == Err::<(), Refusal>(Refusal::Forbidden),
        managed(Lookup::<ServerRecord>::Missing, may_manage) == Err::<(), Refusal>(
            Refusal::NotFound,
        ),
        managed(Lookup::<ServerRecord>::Failed, may_manage) == Err::<(), Refusal>(
            Refusal::Internal,
        ),
{
}

/// A channel is made exactly if its server is there, the user may manage that, and the
/// channel has a name that is not taken; and is refused for the first of these that fails.
pub proof fn when_a_channel_is_made(
    server: ServerRecord,
    may_manage: bool,
    name: Seq<char>,
    taken: bool,
)
    ensures
        may_manage && !text::blank(name) && !taken ==> channel_refusal(
            Lookup::Found(server),
            may_manage,
            name,
            taken,
        ) is None,
        !may_manage ==> channel_refusal(Lookup::Found(server), may_manage, name, taken) == Some(
            Refusal::Forbidden,
        ),
        may_manage && text::blank(name) ==> channel_refusal(
            Lookup::Found(server),
            may_manage,
            name,
            taken,
        ) == Some(Refusal::EmptyChannelName),
        may_manage && !text::blank(name) && taken ==> channel_refusal(
            Lookup::Found(server),
            may_manage,
            name,
            taken,
        ) == Some(Refusal::ChannelNameTaken),
        channel_refusal(Lookup::Missing, may_manage, name, taken) == Some(Refusal::NotFound),
        channel_refusal(Lookup::Failed, may_manage, name, taken) == Some(Refusal::Internal),
{
}

/// A channel is made as it is given: in its server, under an id that begins with the
/// server's, with its own name, topic, kind and place.
pub proof fn new_channels_are_as_given(
    server_id: Seq<char>,
    key: Seq<char>,
    name: Seq<char>,
    topic: Seq<char>,
    kind: Seq<char>,
    position: int,
    r: ChannelRecord,
)
    requires
        r@ == keyed_channel(server_id, key, name, topic, kind, position),
    ensures
        r.id@ == server_id + "-"@ + key,
        r.server_id@ == server_id,
        r.name@ == name,
        r.topic@ == topic,
        r.kind@ == kind,
        r.position == position,
{
}

/// A channel after a change has what was said, and of all that was not said what it had; it
/// stays the same channel of the same server, and never stands before the first place.
pub proof fn changed_channels_are_as_said(
    channel: ChannelRecord,
    payload: ChannelUpdatePayload,
    r: ChannelRecord,
)
    requires
        r@ == changed_channel(channel@, payload),
    ensures
        r.id@ == channel.id@,
        r.server_id@ == channel.server_id@,
        settles_text(payload.name, channel.name@, r.name@),
        payload.topic is Some ==> r.topic@ == text::trimmed(payload.topic->0@),
        payload.topic is None ==> r.topic@ == channel.topic@,
        payload.kind is Some && text::lowercase(text::trimmed(payload.kind->0@)) == "voice"@
            ==> r.kind@ == "voice"@,
        payload.kind is Some && text::lowercase(text::trimmed(payload.kind->0@)) != "voice"@
            ==> r.kind@ == "text"@,
        payload.kind is None ==> r.kind@ == channel.kind@,
        payload.position is Some && payload.position->0 >= 0 ==> r.position == payload.position->0,
        payload.position is None && channel.position >= 0 ==> r.position == channel.position,
        payload.position is Some && payload.position->0 < 0 ==> r.position == 0,
        payload.position is None && channel.position < 0 ==> r.position == 0,
{
}

/// A channel is changed exactly if the user may manage the server, the channel is there, and
/// the name that it then has is not blank and, if it is another, not taken.
pub proof fn when_a_channel_is_changed(
    may_manage: bool,
    channel: ChannelRecord,
    payload: ChannelUpdatePayload,
    taken: bool,
)
    ensures
        channel_change_refusal(false, Lookup::Found(channel), payload, taken) == Some(
            Refusal::Forbidden,
        ),
        channel_change_refusal(true, Lookup::Missing, payload, taken) == Some(Refusal::NotFound),
        channel_change_refusal(true, Lookup::Failed, payload, taken) == Some(Refusal::Internal),
        ({
            let named = payload.name is Some && !text::blank(payload.name->0@);
            let name = if named {
                text::trimmed(payload.name->0@)
            } else {
                channel.name@
            };
            let r = channel_change_refusal(true, Lookup::Found(channel), payload, taken);
            &&& text::blank(name) ==> r == Some(Refusal::EmptyChannelName)
            &&& !text::blank(name) && name != channel.name@ && taken ==> r == Some(
                Refusal::ChannelNameTaken,
            )
            &&& !text::blank(name) && (name == channel.name@ || !taken) ==> r is None
        }),
{
}

/// A new server starts with two text channels of its own, in this order.
pub proof fn what_the_first_channels_are(server_id: Seq<char>)
    ensures
        first_channels(server_id).len() == 2,
        ({
            let general = first_channels(server_id)[0];
            let news = first_channels(server_id)[1];
            &&& general.id == server_id + "-"@ + "general"@
            &&& general.server_id == server_id
            &&& general.name == "Общий чат"@
            &&& general.topic == ""@
            &&& general.kind == "text"@
            &&& general.position == 0
            &&& news.id == server_id + "-"@ + "announcements"@
            &&& news.server_id == server_id
            &&& news.name == "Объявления"@
            &&& news.topic == ""@
            &&& news.kind == "text"@
            &&& news.position == 1
        }),
{
}

/// Of the roles given with a new server those are made that come before the first without
/// a name: each of them has one, and it has none.
pub proof fn roles_are_made_up_to_the_first_without_name(list: Seq<ServerRolePayload>)
    ensures
        named_roles(list) <= list.len(),
        forall|i: int|
            0 <= i < named_roles(list) ==> !text::blank((#[trigger] list[i]).name@),
        named_roles(list) < list.len() ==> text::blank(list[named_roles(list) as int].name@),
    decreases list.len(),
{
    if list.len() > 0 {
        let rest = list.drop_first();
        roles_are_made_up_to_the_first_without_name(rest);
        assert forall|i: int| 0 <= i < named_roles(list) implies !text::blank(
            (#[trigger] list[i]).name@,
        ) by {
            if i > 0 {
                assert(rest[i - 1] == list[i]);
            }
        }
    }
}

proof fn one_step_more(what: Deleted, worked: Seq<bool>, n: int)
    requires
        0 < n <= worked.len(),
        worked[n - 1],
    ensures
        deletion_run(what, worked.take(n)) == following(
            what,
            deletion_run(what, worked.take(n - 1)),
        ),
{
    assert(worked.take(n).drop_last() =~= worked.take(n - 1));
    assert(worked.take(n).last() == worked[n - 1]);
}

/// The deletion of a channel takes its steps in one order: the files are listed and removed,
/// and then, between beginning and committing, the reactions, the messages, the permissions
/// and the channel go. No server and no member does.
pub proof fn channel_deletion_goes_step_by_step(worked: Seq<bool>)
    requires
        worked.len() == 8,
        forall|i: int| 0 <= i < worked.len() ==> #[trigger] worked[i],
    ensures
        deletion_run(Deleted::Channel, worked.take(0)) is ListFiles,
        deletion_run(Deleted::Channel, worked.take(1)) is RemoveFiles,
        deletion_run(Deleted::Channel, worked.take(2)) is Begin,
        deletion_run(Deleted::Channel, worked.take(3)) is DropReactions,
        deletion_run(Deleted::Channel, worked.take(4)) is DropMessages,
        deletion_run(Deleted::Channel, worked.take(5)) is DropPermissions,
        deletion_run(Deleted::Channel, worked.take(6)) is DropChannels,
        deletion_run(Deleted::Channel, worked.take(7)) is Commit,
        deletion_run(Deleted::Channel, worked.take(8)) is Done,
{
    assert(worked.take(0).len() == 0);
    one_step_more(Deleted::Channel, worked, 1);
    one_step_more(Deleted::Channel, worked, 2);
    one_step_more(Deleted::Channel, worked, 3);
    one_step_more(Deleted::Channel, worked, 4);
    one_step_more(Deleted::Channel, worked, 5);
    one_step_more(Deleted::Channel, worked, 6);
    one_step_more(Deleted::Channel, worked, 7);
    one_step_more(Deleted::Channel, worked, 8);
}

/// The deletion of a server takes its steps in one order: the files are listed and removed,
/// and then, between beginning and committing, the reactions, the messages, the members, the
/// channels and the server go.
pub proof fn server_deletion_goes_step_by_step(worked: Seq<bool>)
    requires
        worked.len() == 9,
        forall|i: int| 0 <= i < worked.len() ==> #[trigger] worked[i],
    ensures
        deletion_run(Deleted::Server, worked.take(0)) is ListFiles,
        deletion_run(Deleted::Server, worked.take(1)) is RemoveFiles,
        deletion_run(Deleted::Server, worked.take(2)) is Begin,
        deletion_run(Deleted::Server, worked.take(3)) is DropReactions,
        deletion_run(Deleted::Server, worked.take(4)) is DropMessages,
        deletion_run(Deleted::Server, worked.take(5)) is DropMembers,
        deletion_run(Deleted::Server, worked.take(6)) is DropChannels,
        deletion_run(Deleted::Server, worked.take(7)) is DropServer,
        deletion_run(Deleted::Server, worked.take(8)) is Commit,
        deletion_run(Deleted::Server, worked.take(9)) is Done,
{
    assert(worked.take(0).len() == 0);
    one_step_more(Deleted::Server, worked, 1);
    one_step_more(Deleted::Server, worked, 2);
    one_step_more(Deleted::Server, worked, 3);
    one_step_more(Deleted::Server, worked, 4);
    one_step_more(Deleted::Server, worked, 5);
    one_step_more(Deleted::Server, worked, 6);
    one_step_more(Deleted::Server, worked, 7);
    one_step_more(Deleted::Server, worked, 8);
    one_step_more(Deleted::Server, worked, 9);
}

/// A step that fails undoes the deletion, but for the removal of files, which is passed
/// over; what ended stays as it ended.
pub proof fn failed_steps_undo_the_deletion(what: Deleted, step: DeletionStep, worked: bool)
    ensures
        !(step is RemoveFiles) && !(step is Done) ==> after_step(what, step, false) is Undone,
        after_step(what, DeletionStep::RemoveFiles, worked) is Begin,
        after_step(what, DeletionStep::Done, worked) is Done,
        after_step(what, DeletionStep::Undone, worked) is Undone,
{
}

/// A change of a server's members is made exactly if the user may manage the server, it is
/// there, the name is not blank and not the owner's, and, but for a removal, the role is
/// one of the server's and not `owner`; and is refused for the first of these that fails.
pub proof fn when_members_are_changed(
    change: MemberChange,
    server: ServerRecord,
    found: Lookup<ServerRecord>,
    username: Seq<char>,
    role: Option<Seq<char>>,
)
    ensures
        member_refusal(change, false, found, username, role) == Some(Refusal::Forbidden),
        member_refusal(change, true, Lookup::Missing, username, role) == Some(Refusal::NotFound),
        member_refusal(change, true, Lookup::Failed, username, role) == Some(Refusal::Internal),
        ({
            let r = member_refusal(change, true, Lookup::Found(server), username, role);
            let is_owner = text::trimmed(username) == server.owner@;
            let named = !text::blank(username);
            &&& !named ==> r == Some(Refusal::EmptyMemberName)
            &&& named && is_owner && change is Add ==> r == Some(Refusal::OwnerIsMember)
            &&& named && is_owner && change is SetRole ==> r == Some(Refusal::OwnerRoleFixed)
            &&& named && is_owner && change is Remove ==> r == Some(Refusal::OwnerStays)
            &&& named && !is_owner && change is Remove ==> r is None
            &&& named && !is_owner && !(change is Remove) && role is None ==> r == Some(
                Refusal::UnknownRole,
            )
            &&& named && !is_owner && !(change is Remove) && role == Some("owner"@) ==> r == Some(
                Refusal::OwnerRoleNotGiven,
            )
            &&& named && !is_owner && !(change is Remove) && role is Some && role->0 != "owner"@
                ==> r is None
        }),
{
}

/// A new invite is for the server and by the user given, with a code of eight characters of
/// the random text; it was used by no one, and may be by as many as are given, or by any
/// number.
pub proof fn new_invites_are_as_given(
    server_id: Seq<char>,
    created_by: Seq<char>,
    max_uses: Option<i64>,
    hours: Option<i64>,
    now: Timestamp,
    random: Seq<char>,
    r: ServerInvite,
)
    requires
        random.len() >= 8,
        expiry_fits(now, hours),
        r@ == new_invite(server_id, created_by, max_uses, hours, now, random),
    ensures
        r.code@ == random.take(8),
        r.server_id@ == server_id,
        r.created_by@ == created_by,
        r.uses == 0,
        r.created_at == now,
        max_uses is Some && max_uses->0 > 0 ==> r.max_uses == max_uses->0,
        max_uses is None || max_uses->0 <= 0 ==> r.max_uses == 0,
        hours is None || hours->0 <= 0 ==> r.expires_at is None,
        hours is Some && hours->0 > 0 ==> r.expires_at is Some && r.expires_at->0.nanos == now.nanos
            && r.expires_at->0.secs == now.secs + hours->0 * 3600,
{
}

/// An invite lets users in exactly while it has not ended and is not used up; the end counts
/// first, and without a limit it is never used up.
pub proof fn when_an_invite_lets_in(invite: ServerInvite, now: Timestamp)
    ensures
        ({
            let ended = invite.expires_at is Some && (invite.expires_at->0.secs < now.secs || (
            invite.expires_at->0.secs == now.secs && invite.expires_at->0.nanos < now.nanos));
            let used_up = invite.max_uses > 0 && invite.uses >= invite.max_uses;
            &&& ended ==> invite_refusal(invite@, now) == Some(Refusal::InviteExpired)
            &&& !ended && used_up ==> invite_refusal(invite@, now) == Some(Refusal::InviteUsedUp)
            &&& !ended && !used_up ==> invite_refusal(invite@, now) is None
        }),
{
}

/// A link names the server whose id follows `zali://server/` or `server/`; any other text
/// names the server of that id.
pub proof fn links_name_their_server(id: Seq<char>)
    requires
        id.len() > 0,
        !text::white_space(id[0]),
        !text::white_space(id.last()),
    ensures
        linked_id("zali://server/"@ + id) == id,
        linked_id("server/"@ + id) == id,
        !"zali://server/"@.is_prefix_of(id) && !"server/"@.is_prefix_of(id) ==> linked_id(id) == id,
{
    reveal_strlit("zali://server/");
    reveal_strlit("server/");
    text::trimmed_of_tight(id);
    let full = "zali://server/"@ + id;
    assert(full[0] == 'z');
    assert(full.last() == id.last());
    text::trimmed_of_tight(full);
    text::prefix_then_skip("zali://server/"@, id);
    let short = "server/"@ + id;
    assert(short[0] == 's');
    assert(short.last() == id.last());
    text::trimmed_of_tight(short);
    text::prefix_then_skip("server/"@, id);
    assert(!"zali://server/"@.is_prefix_of(short)) by {
        if "zali://server/"@.is_prefix_of(short) {
            assert("zali://server/"@[0] == short[0]);
        }
    }
}

/// Whether a new server is as it was given.
pub open spec fn server_as_given(
    payload: ServerPayload,
    id: Seq<char>,
    owner: Seq<char>,
    r: ServerRecord,
) -> bool {
    let name = text::trimmed(payload.name@);
    let linked = payload.join_link is Some && text::trimmed(payload.join_link->0@).len() > 0;
    &&& r.id@ == id
    &&& r.owner@ == owner
    &&& r.name@ == name
    &&& payload.description is Some ==> r.description@ == payload.description->0@
    &&& payload.description is None ==> r.description@.len() == 0
    &&& payload.icon is Some ==> r.icon@ == payload.icon->0@
    &&& payload.icon is None ==> r.icon@ == seq![name[0]]
    &&& payload.color is Some ==> r.color@ == payload.color->0@
    &&& payload.color is None ==> r.color@ == "#cbff00"@
    &&& linked ==> r.join_link@ == text::trimmed(payload.join_link->0@)
    &&& !linked ==> r.join_link@ == "zali://server/"@ + id
    &&& payload.is_public == Some(false) ==> r.is_public == 0
    &&& payload.is_public != Some(false) ==> r.is_public == 1
}

/// A server is made exactly if it has a name, and then as it is given, for who asks.
pub proof fn which_servers_are_made(
    payload: &ServerPayload,
    id: &str,
    owner: &str,
    r: Result<ServerRecord, Refusal>,
)
    requires
        call_ensures(make_server, (payload, id, owner), r),
    ensures
        r is Ok <==> text::trimmed(payload.name@).len() > 0,
        r is Ok ==> server_as_given(*payload, id@, owner@, r->Ok_0),
        r is Err ==> r->Err_0 == Refusal::EmptyServerName,
{
    if r is Ok {
        new_servers_are_as_given(*payload, id@, owner@, r->Ok_0);
    }
}

/// A server that is created is made so, under the id that is drawn for it.
pub proof fn how_servers_are_created(
    payload: &ServerPayload,
    owner: &str,
    r: Result<ServerRecord, Refusal>,
)
    requires
        call_ensures(create_server, (payload, owner), r),
    ensures
        r is Ok <==> text::trimmed(payload.name@).len() > 0,
        r is Ok ==> ids::uuid_form(r->Ok_0.id@) && server_as_given(
            *payload,
            r->Ok_0.id@,
            owner@,
            r->Ok_0,
        ),
        r is Err ==> r->Err_0 == Refusal::EmptyServerName,
{
    if r is Ok {
        new_servers_are_as_given(*payload, r->Ok_0.id@, owner@, r->Ok_0);
    }
}

/// The first member of a server is its owner, as `owner`.
pub proof fn who_is_the_first_member(server: &ServerRecord, r: Membership)
    requires
        call_ensures(first_member, (server,), r),
    ensures
        r.server_id@ == server.id@,
        r.username@ == server.owner@,
        r.role@ == "owner"@,
{
}

/// Of the roles that are given with a server, those before the first without a name are made;
/// all of them exactly if each has one.
pub proof fn how_many_roles_are_made(
    list: &Vec<ServerRolePayload>,
    r: (usize, Result<(), Refusal>),
    n: int,
)
    requires
        call_ensures(roles_to_make, (list,), r),
        0 <= n <= list@.len(),
        forall|i: int| 0 <= i < n ==> text::trimmed((#[trigger] list@[i]).name@).len() > 0,
        n < list@.len() ==> text::trimmed(list@[n].name@).len() == 0,
    ensures
        r.0 == n,
        r.1 is Ok <==> n == list@.len(),
        r.1 is Err ==> r.1->Err_0 == Refusal::EmptyRoleName,
{
    let m = named_roles(list@) as int;
    roles_are_made_up_to_the_first_without_name(list@);
    if m < n {
        assert(text::trimmed(list@[m].name@).len() > 0);
    }
    if n < m {
        assert(!text::blank(list@[n].name@));
    }
}

/// A channel is made as it is given, under an id that begins with its server's.
pub proof fn how_channels_are_made(
    server_id: &str,
    key: &str,
    name: &str,
    topic: &str,
    kind: &str,
    position: i64,
    r: ChannelRecord,
)
    requires
        call_ensures(make_channel, (server_id, key, name, topic, kind, position), r),
    ensures
        r.id@ == server_id@ + "-"@ + key@,
        r.server_id@ == server_id@,
        r.name@ == name@,
        r.topic@ == topic@,
        r.kind@ == kind@,
        r.position == position,
{
    new_channels_are_as_given(server_id@, key@, name@, topic@, kind@, position as int, r);
}

/// A server starts with a channel to talk in and one for news, both for text.
pub proof fn which_channels_a_server_starts_with(server_id: &str, r: Vec<ChannelRecord>)
    requires
        call_ensures(default_channels, (server_id,), r),
    ensures
        r@.len() == 2,
        r@[0].id@ == server_id@ + "-"@ + "general"@,
        r@[0].server_id@ == server_id@,
        r@[0].name@ == "Общий чат"@,
        r@[0].topic@ == ""@,
        r@[0].kind@ == "text"@,
        r@[0].position == 0,
        r@[1].id@ == server_id@ + "-"@ + "announcements"@,
        r@[1].server_id@ == server_id@,
        r@[1].name@ == "Объявления"@,
        r@[1].topic@ == ""@,
        r@[1].kind@ == "text"@,
        r@[1].position == 1,
{
    what_the_first_channels_are(server_id@);
    assert(channel_models(r@).len() == r@.len());
    assert(channel_models(r@)[0] == r@[0]@);
    assert(channel_models(r@)[1] == r@[1]@);
}

/// A manager goes on and anyone else is refused; a server is shown to those whom it is open
/// to, and one that is not there to no one.
pub proof fn who_goes_on(
    may_manage: bool,
    r: Result<(), Refusal>,
    server: &Lookup<ServerRecord>,
    user: &str,
    role: &Option<String>,
    shown: Result<(), Refusal>,
)
    requires
        call_ensures(check_manager, (may_manage,), r),
        call_ensures(check_access, (server, user, role), shown),
    ensures
        r is Ok <==> may_manage,
        r is Err ==> r->Err_0 == Refusal::Forbidden,
        shown is Ok <==> server is Found && (server->Found_0.is_public != 0
            || server->Found_0.owner@ == user@ || role is Some),
        server is Failed ==> shown->Err_0 == Refusal::Internal,
        shown is Err && !(server is Failed) ==> shown->Err_0 == Refusal::Forbidden,
{
}

/// A server is changed by who may manage it: it has what was said, and of all that was not
/// said what it had, and stays the same server of the same owner.
pub proof fn how_servers_are_changed(
    server: &Lookup<ServerRecord>,
    may_manage: bool,
    payload: &ServerSettingsPayload,
    r: Result<ServerRecord, Refusal>,
)
    requires
        call_ensures(update_server, (server, may_manage, payload), r),
    ensures
        r is Ok <==> server is Found && may_manage,
        server is Failed ==> r->Err_0 == Refusal::Internal,
        server is Missing ==> r->Err_0 == Refusal::NotFound,
        server is Found && !may_manage ==> r->Err_0 == Refusal::Forbidden,
        r is Ok ==> {
            let old_server = server->Found_0;
            let new_server = r->Ok_0;
            &&& new_server.id@ == old_server.id@
            &&& new_server.owner@ == old_server.owner@
            &&& settles_text(payload.name, old_server.name@, new_server.name@)
            &&& settles_text(payload.icon, old_server.icon@, new_server.icon@)
            &&& settles_text(payload.color, old_server.color@, new_server.color@)
            &&& settles_text(payload.join_link, old_server.join_link@, new_server.join_link@)
            &&& payload.description is Some ==> new_server.description@ == text::trimmed(
                payload.description->0@,
            )
            &&& payload.description is None ==> new_server.description@ == text::trimmed(
                old_server.description@,
            )
            &&& payload.is_public == Some(true) ==> new_server.is_public == 1
            &&& payload.is_public == Some(false) ==> new_server.is_public == 0
            &&& payload.is_public is None ==> new_server.is_public == old_server.is_public
        },
{
    if r is Ok {
        changed_servers_are_as_said(server->Found_0, *payload, r->Ok_0);
    }
}

/// A server is deleted by its owner alone, and a channel by who may manage the server.
pub proof fn who_deletes(
    server: &Lookup<ServerRecord>,
    user: &str,
    r: Result<(), Refusal>,
    may_manage: bool,
    channel: &Lookup<ChannelRecord>,
    of_channel: Result<(), Refusal>,
)
    requires
        call_ensures(check_server_deletion, (server, user), r),
        call_ensures(check_channel_deletion, (may_manage, channel), of_channel),
    ensures
        r is Ok <==> server is Found && server->Found_0.owner@ == user@,
        server is Found && server->Found_0.owner@ != user@ ==> r->Err_0 == Refusal::Forbidden,
        server is Missing ==> r->Err_0 == Refusal::NotFound,
        server is Failed ==> r->Err_0 == Refusal::Internal,
        of_channel is Ok <==> may_manage && channel is Found,
        !may_manage ==> of_channel->Err_0 == Refusal::Forbidden,
        may_manage && channel is Missing ==> of_channel->Err_0 == Refusal::NotFound,
        may_manage && channel is Failed ==> of_channel->Err_0 == Refusal::Internal,
{
}

/// A channel is made in a server that is there, by who may manage it, under a name that is
/// not taken; as it is given, in that server.
pub proof fn which_channels_are_made(
    server: &Lookup<ServerRecord>,
    may_manage: bool,
    payload: &ChannelPayload,
    name_taken: bool,
    random: &str,
    position: i64,
    r: Result<ChannelRecord, Refusal>,
)
    requires
        call_ensures(
            make_new_channel,
            (server, may_manage, payload, name_taken, random, position),
            r,
        ),
    ensures
        ({
            let named = text::trimmed(payload.name@).len() > 0;
            let voice = payload.kind is Some && text::lowercase(text::trimmed(payload.kind->0@))
                == "voice"@;
            let made = r->Ok_0;
            &&& r is Ok <==> server is Found && may_manage && named && !name_taken
            &&& server is Failed ==> r->Err_0 == Refusal::Internal
            &&& server is Missing ==> r->Err_0 == Refusal::NotFound
            &&& server is Found && !may_manage ==> r->Err_0 == Refusal::Forbidden
            &&& server is Found && may_manage && !named ==> r->Err_0 == Refusal::EmptyChannelName
            &&& server is Found && may_manage && named && name_taken ==> r->Err_0
                == Refusal::ChannelNameTaken
            &&& r is Ok ==> {
                &&& made.id@ == server->Found_0.id@ + "-"@ + random@
                &&& made.server_id@ == server->Found_0.id@
                &&& made.name@ == text::trimmed(payload.name@)
                &&& payload.topic is Some ==> made.topic@ == payload.topic->0@
                &&& payload.topic is None ==> made.topic@ == ""@
                &&& voice ==> made.kind@ == "voice"@
                &&& !voice ==> made.kind@ == "text"@
                &&& made.position == position
            }
        }),
{
}

/// A channel is changed by who may manage the server: it has what was said, and of all that
/// was not said what it had.
pub proof fn how_channels_are_changed(
    may_manage: bool,
    channel: &Lookup<ChannelRecord>,
    payload: &ChannelUpdatePayload,
    name_taken: bool,
    r: Result<ChannelRecord, Refusal>,
    name: String,
)
    requires
        call_ensures(update_channel, (may_manage, channel, payload, name_taken), r),
        channel is Found ==> call_ensures(next_channel_name, (&channel->Found_0, payload), name),
    ensures
        channel is Found ==> settles_text(payload.name, channel->Found_0.name@, name@),
        !may_manage ==> r is Err && r->Err_0 == Refusal::Forbidden,
        may_manage && channel is Missing ==> r is Err && r->Err_0 == Refusal::NotFound,
        may_manage && channel is Failed ==> r is Err && r->Err_0 == Refusal::Internal,
        may_manage && channel is Found ==> {
            let before = channel->Found_0;
            let after = r->Ok_0;
            let named = text::trimmed(name@).len() > 0;
            let clashes = name@ != before.name@ && name_taken;
            let voice = payload.kind is Some && text::lowercase(text::trimmed(payload.kind->0@))
                == "voice"@;
            &&& r is Ok <==> named && !clashes
            &&& !named ==> r->Err_0 == Refusal::EmptyChannelName
            &&& named && clashes ==> r->Err_0 == Refusal::ChannelNameTaken
            &&& r is Ok ==> {
                &&& after.id@ == before.id@
                &&& after.server_id@ == before.server_id@
                &&& after.name@ == name@
                &&& payload.topic is Some ==> after.topic@ == text::trimmed(payload.topic->0@)
                &&& payload.topic is None ==> after.topic@ == before.topic@
                &&& voice ==> after.kind@ == "voice"@
                &&& payload.kind is Some && !voice ==> after.kind@ == "text"@
                &&& payload.kind is None ==> after.kind@ == before.kind@
                &&& payload.position is Some && payload.position->0 >= 0 ==> after.position
                    == payload.position->0
                &&& payload.position is Some && payload.position->0 < 0 ==> after.position == 0
                &&& payload.position is None && before.position >= 0 ==> after.position
                    == before.position
            }
        },
{
    if channel is Found {
        when_a_channel_is_changed(may_manage, channel->Found_0, *payload, name_taken);
        if r is Ok {
            changed_channels_are_as_said(channel->Found_0, *payload, r->Ok_0);
        }
    }
}

/// A deletion goes from step to step, and is answered at its end.
pub proof fn how_deletions_go(
    what: Deleted,
    step: DeletionStep,
    worked: bool,
    r: DeletionStep,
    answer: Option<Result<(), Refusal>>,
)
    requires
        call_ensures(next_deletion_step, (what, step, worked), r),
        call_ensures(deletion_answer, (step,), answer),
    ensures
        !worked && !(step is RemoveFiles) && !(step is Done) ==> r is Undone,
        step is RemoveFiles ==> r is Begin,
        step is Done ==> r is Done,
        step is Undone ==> r is Undone,
        worked && step is ListFiles ==> r is RemoveFiles,
        worked && step is Begin ==> r is DropReactions,
        worked && step is DropReactions ==> r is DropMessages,
        worked && step is DropMessages && what is Channel ==> r is DropPermissions,
        worked && step is DropPermissions ==> r is DropChannels,
        worked && step is DropMessages && what is Server ==> r is DropMembers,
        worked && step is DropMembers ==> r is DropChannels,
        worked && step is DropChannels && what is Channel ==> r is Commit,
        worked && step is DropChannels && what is Server ==> r is DropServer,
        worked && step is DropServer ==> r is Commit,
        worked && step is Commit ==> r is Done,
        answer is Some <==> step is Done || step is Undone,
        step is Done ==> answer->0 is Ok,
        step is Undone ==> answer->0 == Err::<(), Refusal>(Refusal::Internal),
{
}

/// A change of members is made for the name given, with the role given or as `member`.
pub proof fn how_members_are_changed(
    change: MemberChange,
    may_manage: bool,
    server: &Lookup<ServerRecord>,
    username: &str,
    role: &Option<String>,
    r: Result<(String, String), Refusal>,
)
    requires
        call_ensures(change_member, (change, may_manage, server, username, role), r),
    ensures
        ({
            let name = text::trimmed(username@);
            let is_owner = server is Found && name == server->Found_0.owner@;
            let has_role = role is Some && role->0@ != "owner"@;
            let (member, given_role) = r->Ok_0;
            &&& r is Ok <==> may_manage && server is Found && name.len() > 0 && !is_owner && (change
                is Remove || has_role)
            &&& r is Ok ==> member@ == name
            &&& r is Ok && role is None ==> given_role@ == "member"@
            &&& r is Ok && role is Some ==> given_role@ == roles::kept_role(role->0@)
        }),
{
}

/// A contact is added under the name given, if it is another user's who is there.
pub proof fn who_becomes_a_contact(
    owner: &str,
    username: &str,
    user: &Lookup<String>,
    r: Result<String, Refusal>,
)
    requires
        call_ensures(add_contact, (owner, username, user), r),
    ensures
        ({
            let name = text::trimmed(username@);
            &&& r is Ok <==> name.len() > 0 && name != owner@ && user is Found
            &&& r is Ok ==> r->Ok_0@ == name
            &&& name.len() == 0 ==> r->Err_0 == Refusal::EmptyContact
            &&& name.len() > 0 && name == owner@ ==> r->Err_0 == Refusal::OwnContact
            &&& name.len() > 0 && name != owner@ && user is Missing ==> r->Err_0
                == Refusal::UserNotFound
            &&& name.len() > 0 && name != owner@ && user is Failed ==> r->Err_0
                == Refusal::Internal
        }),
{
}

/// An invite is made for the server and by the user given, with a code of eight characters
/// of the random text, for as many uses and hours as are given.
pub proof fn how_invites_are_made(
    server_id: &str,
    created_by: &str,
    max_uses: Option<i64>,
    hours: Option<i64>,
    now: Timestamp,
    random: &str,
    r: ServerInvite,
)
    requires
        call_ensures(
            make_invite,
            (server_id, created_by, max_uses, hours, now, random),
            r,
        ),
        expiry_fits(now, hours),
        random@.len() >= 8,
    ensures
        r.code@ == random@.take(8),
        r.server_id@ == server_id@,
        r.created_by@ == created_by@,
        r.uses == 0,
        r.created_at == now,
        max_uses is Some && max_uses->0 > 0 ==> r.max_uses == max_uses->0,
        max_uses is None || max_uses->0 <= 0 ==> r.max_uses == 0,
        hours is None || hours->0 <= 0 ==> r.expires_at is None,
        hours is Some && hours->0 > 0 ==> r.expires_at is Some && r.expires_at->0.nanos == now.nanos
            && r.expires_at->0.secs == now.secs + hours->0 * 3600,
{
    new_invites_are_as_given(server_id@, created_by@, max_uses, hours, now, random@, r);
}

/// Who joins by an invite joins its server, if the invite is there, has not ended and is not
/// used up.
pub proof fn who_joins_by_an_invite(
    code: &str,
    invite: &Lookup<ServerInvite>,
    now: Timestamp,
    r: Result<String, Refusal>,
)
    requires
        call_ensures(join_by_invite, (code, invite, now), r),
    ensures
        ({
            let given = text::trimmed(code@).len() > 0;
            let found = invite->Found_0;
            let ended = found.expires_at is Some && (found.expires_at->0.secs < now.secs || (
            found.expires_at->0.secs == now.secs && found.expires_at->0.nanos < now.nanos));
            let used_up = found.max_uses > 0 && found.uses >= found.max_uses;
            &&& r is Ok <==> given && invite is Found && !ended && !used_up
            &&& r is Ok ==> r->Ok_0@ == found.server_id@
            &&& !given ==> r->Err_0 == Refusal::InviteCodeMissing
            &&& given && invite is Missing ==> r->Err_0 == Refusal::NotFound
            &&& given && invite is Failed ==> r->Err_0 == Refusal::Internal
            &&& given && invite is Found && ended ==> r->Err_0 == Refusal::InviteExpired
            &&& given && invite is Found && !ended && used_up ==> r->Err_0 == Refusal::InviteUsedUp
        }),
{
    if invite is Found {
        when_an_invite_lets_in(invite->Found_0, now);
    }
}

/// An invite's address holds its code, and a link is read as itself and as the server that it
/// names.
pub proof fn how_links_are_read(
    code: &str,
    url: String,
    link: &str,
    r: Result<(String, String), Refusal>,
)
    requires
        call_ensures(invite_url, (code,), url),
        call_ensures(read_server_link, (link,), r),
    ensures
        url@ == "zali://invite/"@ + code@,
        r is Ok <==> text::trimmed(link@).len() > 0,
        r is Ok ==> {
            let (whole, id) = r->Ok_0;
            whole@ == text::trimmed(link@) && id@ == linked_id(link@)
        },
        r is Err ==> r->Err_0 == Refusal::ServerLinkMissing,
{
}

/// A channel that is created is made so, whatever text is drawn for its id.
pub proof fn how_channels_are_created(
    server: &Lookup<ServerRecord>,
    may_manage: bool,
    payload: &ChannelPayload,
    name_taken: bool,
    position: i64,
    r: Result<ChannelRecord, Refusal>,
)
    requires
        call_ensures(create_channel, (server, may_manage, payload, name_taken, position), r),
    ensures
        r is Ok <==> server is Found && may_manage && text::trimmed(payload.name@).len() > 0
            && !name_taken,
        r is Ok ==> {
            let made = r->Ok_0;
            let voice = payload.kind is Some && text::lowercase(text::trimmed(payload.kind->0@))
                == "voice"@;
            &&& exists|random: Seq<char>| #[trigger]
                ids::uuid_form(random) && made.id@ == server->Found_0.id@ + "-"@ + random
            &&& made.server_id@ == server->Found_0.id@
            &&& made.name@ == text::trimmed(payload.name@)
            &&& payload.topic is Some ==> made.topic@ == payload.topic->0@
            &&& payload.topic is None ==> made.topic@ == ""@
            &&& voice ==> made.kind@ == "voice"@
            &&& !voice ==> made.kind@ == "text"@
            &&& made.position == position
        },
{
    if r is Ok {
        let random = choose|random: Seq<char>| #[trigger]
            ids::uuid_form(random) && r->Ok_0@ == keyed_channel(
                server->Found_0@.id,
                random,
                text::trimmed(payload.name@),
                said_or(text::opt_text(payload.topic), ""@),
                roles::channel_kind(text::opt_text(payload.kind)),
                position as int,
            );
        assert(ids::uuid_form(random) && r->Ok_0.id@ == server->Found_0.id@ + "-"@ + random);
    }
}

/// An invite that is created is made so, whatever text is drawn for its code.
pub proof fn how_invites_are_created(
    server_id: &str,
    created_by: &str,
    max_uses: Option<i64>,
    hours: Option<i64>,
    now: Timestamp,
    r: ServerInvite,
    possible: bool,
)
    requires
        call_ensures(
            create_server_invite_record,
            (server_id, created_by, max_uses, hours, now),
            r,
        ),
        call_ensures(expiry_is_possible, (now, hours), possible),
        possible,
    ensures
        r.code@.len() == 8,
        r.server_id@ == server_id@,
        r.created_by@ == created_by@,
        r.uses == 0,
        r.created_at == now,
        max_uses is Some && max_uses->0 > 0 ==> r.max_uses == max_uses->0,
        max_uses is None || max_uses->0 <= 0 ==> r.max_uses == 0,
        hours is None || hours->0 <= 0 ==> r.expires_at is None,
        hours is Some && hours->0 > 0 ==> r.expires_at is Some && r.expires_at->0.nanos == now.nanos
            && r.expires_at->0.secs == now.secs + hours->0 * 3600,
{
    let random = choose|random: Seq<char>| #[trigger]
        ids::simple_uuid(random) && r@ == new_invite(
            server_id@,
            created_by@,
            max_uses,
            hours,
            now,
            random,
        );
    new_invites_are_as_given(server_id@, created_by@, max_uses, hours, now, random, r);
}

/// An invite can hold for any number of hours that ends within the time that can be told.
pub proof fn how_long_invites_can_hold(now: Timestamp, hours: Option<i64>, r: bool)
    requires
        call_ensures(expiry_is_possible, (now, hours), r),
    ensures
        r <==> hours is None || hours->0 <= 0 || now.secs + hours->0 * 3600 <= 8_210_266_876_799,
{
}

/// A name can be taken only if it is not blank.
pub proof fn which_names_can_be_taken(name: &str, r: bool)
    requires
        call_ensures(name_can_conflict, (name,), r),
    ensures
        r <==> text::trimmed(name@).len() > 0,
{
}

/// What refuses a change of members: first that the user may not, then that the server is not
/// there, then the name, then the role.
pub proof fn why_members_are_not_changed(
    change: MemberChange,
    may_manage: bool,
    server: &Lookup<ServerRecord>,
    username: &str,
    role: &Option<String>,
    r: Result<(String, String), Refusal>,
)
    requires
        call_ensures(change_member, (change, may_manage, server, username, role), r),
        r is Err,
    ensures
        ({
            let name = text::trimmed(username@);
            let is_owner = server is Found && name == server->Found_0.owner@;
            let ready = may_manage && server is Found && name.len() > 0;
            &&& !may_manage ==> r->Err_0 == Refusal::Forbidden
            &&& may_manage && server is Failed ==> r->Err_0 == Refusal::Internal
            &&& may_manage && server is Missing ==> r->Err_0 == Refusal::NotFound
            &&& may_manage && server is Found && name.len() == 0 ==> r->Err_0
                == Refusal::EmptyMemberName
            &&& ready && is_owner && change is Add ==> r->Err_0 == Refusal::OwnerIsMember
            &&& ready && is_owner && change is SetRole ==> r->Err_0 == Refusal::OwnerRoleFixed
            &&& ready && is_owner && change is Remove ==> r->Err_0 == Refusal::OwnerStays
            &&& ready && !is_owner && role is None ==> r->Err_0 == Refusal::UnknownRole
            &&& ready && !is_owner && role is Some ==> r->Err_0 == Refusal::OwnerRoleNotGiven
        }),
{
}

/// The server that a link names is what follows `zali://server/` or `server/`, and else the
/// whole of it, without white space at the ends.
pub proof fn which_server_a_link_names(
    link: &str,
    r: Result<(String, String), Refusal>,
    rest: Seq<char>,
)
    requires
        call_ensures(read_server_link, (link,), r),
        r is Ok,
    ensures
        ({
            let whole = text::trimmed(link@);
            let (_, id) = r->Ok_0;
            &&& whole == "zali://server/"@ + rest ==> id@ == text::trimmed(rest)
            &&& whole == "server/"@ + rest ==> id@ == text::trimmed(rest)
            &&& !"zali://server/"@.is_prefix_of(whole) && !"server/"@.is_prefix_of(whole) ==> id@
                == whole
        }),
{
    reveal_strlit("zali://server/");
    reveal_strlit("server/");
    text::trimmed_idempotent(link@);
    text::prefix_then_skip("zali://server/"@, rest);
    text::prefix_then_skip("server/"@, rest);
    let short = "server/"@ + rest;
    assert(short[0] == 's');
    assert(!"zali://server/"@.is_prefix_of(short)) by {
        if "zali://server/"@.is_prefix_of(short) {
            assert("zali://server/"@[0] == short[0]);
        }
    }
}

} // verus!
