//! Who may see, write to and manage what.

use crate::records;
use crate::records::ChannelModel;
use crate::records::ChannelRecord;
use crate::records::ChannelResponse;
use crate::records::Message;
use crate::records::MessageModel;
use crate::records::ServerModel;
use crate::records::ServerRecord;
use crate::records::ServerResponse;
use crate::records::ServerView;
use crate::refusal::Lookup;
use crate::refusal::Refusal;
use crate::text;
use vstd::hash_map::StringHashMap;
use vstd::prelude::*;

verus! {

// ---------------------------------------------------------------------------
// Rights
// ---------------------------------------------------------------------------

/// The rights to view, to send and to manage.
pub type Rights = (bool, bool, bool);

/// Whether rights cover an action. Only three actions are known.
pub open spec fn covers(rights: Rights, action: Seq<char>) -> bool {
    ||| action == "view"@ && rights.0
    ||| action == "send"@ && rights.1
    ||| action == "manage"@ && rights.2
}

proof fn actions_differ()
    ensures
        "view"@ != "send"@,
        "view"@ != "manage"@,
        "send"@ != "manage"@,
{
    reveal_strlit("view");
    reveal_strlit("send");
    reveal_strlit("manage");
    assert("view"@[0] != "send"@[0]);
    assert("view"@[0] != "manage"@[0]);
    assert("send"@[0] != "manage"@[0]);
}

/// Whether rights cover an action.
pub fn role_permissions_for_view(
    action: &str,
    can_view: bool,
    can_send: bool,
    can_manage: bool,
) -> (r: bool)
    ensures
        r == covers((can_view, can_send, can_manage), action@),
{
    proof {
        actions_differ();
    }
    if text::str_eq(action, "view") {
        can_view
    } else if text::str_eq(action, "send") {
        can_send
    } else if text::str_eq(action, "manage") {
        can_manage
    } else {
        false
    }
}

/// The rights of a role that nothing is recorded of.
pub open spec fn fallback_rights(role: Seq<char>) -> Rights {
    (true, true, role == "owner"@ || role == "admin"@)
}

/// The rights of a role that nothing is recorded of.
pub fn fallback_role_permissions(role_id: &str) -> (r: (bool, bool, bool))
    ensures
        r == fallback_rights(role_id@),
{
    (true, true, text::str_eq(role_id, "owner") || text::str_eq(role_id, "admin"))
}

/// Whether a role manages a server by itself.
pub open spec fn manages_by_role(role: Option<Seq<char>>) -> bool {
    role == Some("owner"@) || role == Some("admin"@)
}

/// Whether a role manages a server by itself.
pub fn can_manage_by_role(role: Option<&str>) -> (r: bool)
    ensures
        r == manages_by_role(text::opt_str(role)),
{
    match role {
        Some(name) => text::str_eq(name, "owner") || text::str_eq(name, "admin"),
        None => false,
    }
}

// ---------------------------------------------------------------------------
// Recorded rights
// ---------------------------------------------------------------------------

/// The rights of a role of a server, as they are kept.
#[derive(Debug)]
pub struct RoleRow {
    pub server_id: String,
    pub role_id: String,
    pub can_view: i64,
    pub can_send: i64,
    pub can_manage: i64,
}

impl RoleRow {
    pub open spec fn rights(&self) -> Rights {
        (self.can_view != 0, self.can_send != 0, self.can_manage != 0)
    }
}

/// The rights of a role in a channel of a server, as they are kept.
#[derive(Debug)]
pub struct ChannelRow {
    pub server_id: String,
    pub channel_id: String,
    pub role: String,
    pub can_view: i64,
    pub can_send: i64,
    pub can_manage: i64,
}

impl ChannelRow {
    pub open spec fn rights(&self) -> Rights {
        (self.can_view != 0, self.can_send != 0, self.can_manage != 0)
    }
}

/// The rights that rows record for the roles of a server; a later row counts.
pub open spec fn role_rights(rows: Seq<RoleRow>, server_id: Seq<char>) -> Map<Seq<char>, Rights>
    decreases rows.len(),
{
    if rows.len() == 0 {
        Map::empty()
    } else {
        let rest = role_rights(rows.drop_last(), server_id);
        if rows.last().server_id@ == server_id {
            rest.insert(rows.last().role_id@, rows.last().rights())
        } else {
            rest
        }
    }
}

/// The same, with the built-in roles where no row is for them.
pub open spec fn with_builtin(m: Map<Seq<char>, Rights>) -> Map<Seq<char>, Rights> {
    map![
        "admin"@ => (true, true, true),
        "member"@ => (true, true, false),
        "owner"@ => (true, true, true),
    ].union_prefer_right(m)
}

/// The rights that rows record for the roles in a channel of a server; a later
/// row counts.
pub open spec fn channel_rights(
    rows: Seq<ChannelRow>,
    server_id: Seq<char>,
    channel_id: Seq<char>,
) -> Map<Seq<char>, Rights>
    decreases rows.len(),
{
    if rows.len() == 0 {
        Map::empty()
    } else {
        let rest = channel_rights(rows.drop_last(), server_id, channel_id);
        if rows.last().server_id@ == server_id && rows.last().channel_id@ == channel_id {
            rest.insert(rows.last().role@, rows.last().rights())
        } else {
            rest
        }
    }
}

fn collect_role_rights(rows: &Vec<RoleRow>, server_id: &str) -> (r: StringHashMap<Rights>)
    ensures
        r@ == role_rights(rows@, server_id@),
{
    let mut map: StringHashMap<Rights> = StringHashMap::new();
    let mut i: usize = 0;
    while i < rows.len()
        invariant
            i <= rows@.len(),
            map@ == role_rights(rows@.take(i as int), server_id@),
        decreases rows@.len() - i,
    {
        proof {
            assert(rows@.take(i as int + 1).drop_last() =~= rows@.take(i as int));
        }
        let row = &rows[i];
        if text::str_eq(row.server_id.as_str(), server_id) {
            map.insert(
                row.role_id.clone(),
                (row.can_view != 0, row.can_send != 0, row.can_manage != 0),
            );
        }
        i += 1;
    }
    proof {
        assert(rows@.take(rows@.len() as int) == rows@);
    }
    map
}

fn insert_absent(map: &mut StringHashMap<Rights>, role: &str, rights: Rights)
    ensures
        final(map)@ == (if old(map)@.contains_key(role@) {
            old(map)@
        } else {
            old(map)@.insert(role@, rights)
        }),
{
    if !map.contains_key(role) {
        map.insert(role.to_string(), rights);
    }
}

proof fn builtin_differ()
    ensures
        "admin"@ != "member"@,
        "admin"@ != "owner"@,
        "member"@ != "owner"@,
{
    reveal_strlit("admin");
    reveal_strlit("member");
    reveal_strlit("owner");
    assert("admin"@[0] != "member"@[0]);
    assert("admin"@[0] != "owner"@[0]);
    assert("member"@[0] != "owner"@[0]);
}

/// The rights of every role of a server: the recorded ones, and those of the
/// built-in roles where none are recorded.
pub fn server_role_permissions_map(rows: &Vec<RoleRow>, server_id: &str) -> (r: StringHashMap<
    (bool, bool, bool),
>)
    ensures
        r@ == with_builtin(role_rights(rows@, server_id@)),
{
    let mut map = collect_role_rights(rows, server_id);
    insert_absent(&mut map, "admin", (true, true, true));
    insert_absent(&mut map, "member", (true, true, false));
    insert_absent(&mut map, "owner", (true, true, true));
    proof {
        builtin_differ();
        assert(map@ =~= with_builtin(role_rights(rows@, server_id@)));
    }
    map
}

fn collect_channel_rights(rows: &Vec<ChannelRow>, server_id: &str, channel_id: &str) -> (r:
    StringHashMap<Rights>)
    ensures
        r@ == channel_rights(rows@, server_id@, channel_id@),
{
    let mut map: StringHashMap<Rights> = StringHashMap::new();
    let mut i: usize = 0;
    while i < rows.len()
        invariant
            i <= rows@.len(),
            map@ == channel_rights(rows@.take(i as int), server_id@, channel_id@),
        decreases rows@.len() - i,
    {
        proof {
            assert(rows@.take(i as int + 1).drop_last() =~= rows@.take(i as int));
        }
        let row = &rows[i];
        if text::str_eq(row.server_id.as_str(), server_id) && text::str_eq(
            row.channel_id.as_str(),
            channel_id,
        ) {
            map.insert(
                row.role.clone(),
                (row.can_view != 0, row.can_send != 0, row.can_manage != 0),
            );
        }
        i += 1;
    }
    proof {
        assert(rows@.take(rows@.len() as int) == rows@);
    }
    map
}

/// What a map of maps says of a role in a channel.
pub open spec fn channel_entry(
    m: Map<Seq<char>, StringHashMap<Rights>>,
    channel_id: Seq<char>,
) -> Map<Seq<char>, Rights> {
    if m.contains_key(channel_id) {
        m[channel_id]@
    } else {
        Map::empty()
    }
}

proof fn channel_rights_of_others(
    rows: Seq<ChannelRow>,
    server_id: Seq<char>,
    channel_id: Seq<char>,
)
    requires
        forall|i: int|
            0 <= i < rows.len() ==> !((#[trigger] rows[i]).server_id@ == server_id
                && rows[i].channel_id@ == channel_id),
    ensures
        channel_rights(rows, server_id, channel_id) == Map::<Seq<char>, Rights>::empty(),
    decreases rows.len(),
{
    if rows.len() > 0 {
        assert(rows[rows.len() - 1] == rows.last());
        assert(forall|i: int|
            0 <= i < rows.drop_last().len() ==> rows.drop_last()[i] == rows[i]);
        channel_rights_of_others(rows.drop_last(), server_id, channel_id);
    }
}

/// The rights of roles in the channels of a server.
pub fn channel_permissions_map(rows: &Vec<ChannelRow>, server_id: &str) -> (r: StringHashMap<
    StringHashMap<(bool, bool, bool)>,
>)
    ensures
        forall|channel_id: Seq<char>| #[trigger]
            channel_entry(r@, channel_id) == channel_rights(rows@, server_id@, channel_id),
{
    let mut map: StringHashMap<StringHashMap<Rights>> = StringHashMap::new();
    let mut i: usize = 0;
    while i < rows.len()
        invariant
            i <= rows@.len(),
            forall|c: Seq<char>| #[trigger]
                map@.contains_key(c) ==> map@[c]@ == channel_rights(rows@, server_id@, c),
            forall|j: int|
                0 <= j < i && (#[trigger] rows@[j]).server_id@ == server_id@ ==> map@.contains_key(
                    rows@[j].channel_id@,
                ),
        decreases rows@.len() - i,
    {
        let row = &rows[i];
        if text::str_eq(row.server_id.as_str(), server_id) && !map.contains_key(
            row.channel_id.as_str(),
        ) {
            let inner = collect_channel_rights(rows, server_id, row.channel_id.as_str());
            map.insert(row.channel_id.clone(), inner);
        }
        i += 1;
    }
    proof {
        assert forall|c: Seq<char>| #[trigger] channel_entry(map@, c) == channel_rights(
            rows@,
            server_id@,
            c,
        ) by {
            if !map@.contains_key(c) {
                channel_rights_of_others(rows@, server_id@, c);
            }
        }
    }
    map
}

/// The rights of a role: what is recorded of it, else what is recorded of
/// members, else to view and to send.
pub open spec fn rights_or_member(m: Map<Seq<char>, Rights>, role: Seq<char>) -> Rights {
    if m.contains_key(role) {
        m[role]
    } else if m.contains_key("member"@) {
        m["member"@]
    } else {
        (true, true, false)
    }
}

/// Whether a role may act in a channel: the channel's own rights count before
/// those of the server.
pub open spec fn role_may(
    in_channel: Map<Seq<char>, Rights>,
    in_server: Map<Seq<char>, Rights>,
    role: Seq<char>,
    action: Seq<char>,
) -> bool {
    if in_channel.contains_key(role) {
        covers(in_channel[role], action)
    } else {
        covers(rights_or_member(in_server, role), action)
    }
}

/// Whether a role may act in a channel.
pub fn channel_allows_action(
    channel_permissions: &StringHashMap<StringHashMap<(bool, bool, bool)>>,
    server_permissions: &StringHashMap<(bool, bool, bool)>,
    role: &str,
    channel_id: &str,
    action: &str,
) -> (r: bool)
    ensures
        r == role_may(
            channel_entry(channel_permissions@, channel_id@),
            server_permissions@,
            role@,
            action@,
        ),
{
    if let Some(perms) = channel_permissions.get(channel_id) {
        if let Some(rights) = perms.get(role) {
            return role_permissions_for_view(action, rights.0, rights.1, rights.2);
        }
    }
    let fallback: Rights = match server_permissions.get(role) {
        Some(rights) => *rights,
        None => match server_permissions.get("member") {
            Some(rights) => *rights,
            None => (true, true, false),
        },
    };
    role_permissions_for_view(action, fallback.0, fallback.1, fallback.2)
}

// ---------------------------------------------------------------------------
// Roles of users
// ---------------------------------------------------------------------------

/// The role of a user in a server: the owner's is `owner`, whatever membership
/// says; a blank name has none.
pub open spec fn user_role(
    owner: Option<Seq<char>>,
    username: Seq<char>,
    membership: Option<Seq<char>>,
) -> Option<Seq<char>> {
    if text::blank(username) {
        None
    } else if owner == Some(username) {
        Some("owner"@)
    } else {
        membership
    }
}

/// The role of a user in a server.
pub fn server_member_role(
    owner: Option<&str>,
    username: &str,
    membership: Option<String>,
) -> (r: Option<String>)
    ensures
        text::opt_text(r) == user_role(text::opt_str(owner), username@, text::opt_text(membership)),
{
    if text::is_blank(username) {
        return None;
    }
    if let Some(name) = owner {
        if text::str_eq(name, username) {
            return Some("owner".to_string());
        }
    }
    membership
}

/// Whether a server is open to a user: it is public, or theirs, or they are a
/// member.
pub open spec fn has_access(
    server: ServerModel,
    username: Seq<char>,
    role: Option<Seq<char>>,
) -> bool {
    server.is_public != 0 || server.owner == username || role is Some
}

/// Whether a server is open to a user.
pub fn server_access(server: &ServerRecord, username: &str, role: &Option<String>) -> (r: bool)
    ensures
        r == has_access(server@, username@, text::opt_text(*role)),
{
    server.is_public != 0 || text::str_eq(server.owner.as_str(), username) || role.is_some()
}

/// The rights of a role of a server, where `recorded` is what is recorded of it.
pub open spec fn effective_rights(role: Seq<char>, recorded: Option<Rights>) -> Rights {
    if role == "owner"@ {
        (true, true, true)
    } else {
        match recorded {
            Some(rights) => rights,
            None => fallback_rights(role),
        }
    }
}

/// The rights of a role of a server, where `recorded` is what is recorded of it.
pub fn server_role_permissions(role_id: &str, recorded: Option<(bool, bool, bool)>) -> (r: (
    bool,
    bool,
    bool,
))
    ensures
        r == effective_rights(role_id@, recorded),
{
    if text::str_eq(role_id, "owner") {
        return (true, true, true);
    }
    match recorded {
        Some(rights) => rights,
        None => fallback_role_permissions(role_id),
    }
}

/// Whether a user may manage a server: its owner, an admin, or a member whose
/// role has that right.
pub open spec fn may_manage(
    server: ServerModel,
    username: Seq<char>,
    role: Option<Seq<char>>,
    recorded: Option<Rights>,
) -> bool {
    ||| server.owner == username
    ||| manages_by_role(role)
    ||| role is Some && effective_rights(role->0, recorded).2
}

/// Whether a user may manage a server. No one manages a server that is not there.
pub fn can_manage_server(
    server: Option<&ServerRecord>,
    username: &str,
    role: &Option<String>,
    recorded: Option<(bool, bool, bool)>,
) -> (r: bool)
    ensures
        r == (server is Some && may_manage(
            server->0@,
            username@,
            text::opt_text(*role),
            recorded,
        )),
{
    match server {
        Some(record) => {
            if text::str_eq(record.owner.as_str(), username) {
                return true;
            }
            match role {
                Some(name) => {
                    if can_manage_by_role(Some(name.as_str())) {
                        true
                    } else {
                        server_role_permissions(name.as_str(), recorded).2
                    }
                },
                None => false,
            }
        },
        None => false,
    }
}

/// Whether a user may act in a channel. The owner may do anything; who has no
/// role may view a public server; for the rest, the channel's rights for their
/// role count before those of the server.
pub open spec fn may_act(
    server: ServerModel,
    user: Seq<char>,
    role: Option<Seq<char>>,
    in_channel: Option<Rights>,
    recorded: Option<Rights>,
    action: Seq<char>,
) -> bool {
    if server.owner == user {
        true
    } else {
        match role {
            None => server.is_public != 0 && action == "view"@,
            Some(name) => match in_channel {
                Some(rights) => covers(rights, action),
                None => covers(effective_rights(name, recorded), action),
            },
        }
    }
}

/// Whether a user may act in a channel. No one may in a server that is not there.
pub fn can_access_channel(
    server: Option<&ServerRecord>,
    user: &str,
    role: &Option<String>,
    in_channel: Option<(bool, bool, bool)>,
    recorded: Option<(bool, bool, bool)>,
    action: &str,
) -> (r: bool)
    ensures
        r == (server is Some && may_act(
            server->0@,
            user@,
            text::opt_text(*role),
            in_channel,
            recorded,
            action@,
        )),
{
    let record = match server {
        Some(record) => record,
        None => {
            return false;
        },
    };
    if text::str_eq(record.owner.as_str(), user) {
        return true;
    }
    match role {
        None => record.is_public != 0 && text::str_eq(action, "view"),
        Some(name) => {
            let rights = match in_channel {
                Some(rights) => rights,
                None => server_role_permissions(name.as_str(), recorded),
            };
            role_permissions_for_view(action, rights.0, rights.1, rights.2)
        },
    }
}

// ---------------------------------------------------------------------------
// Channels that a user sees
// ---------------------------------------------------------------------------

/// The channels of a list in which a role may view.
pub open spec fn viewable(
    channels: Seq<ChannelModel>,
    rows: Seq<ChannelRow>,
    server_id: Seq<char>,
    in_server: Map<Seq<char>, Rights>,
    role: Seq<char>,
) -> Seq<ChannelModel>
    decreases channels.len(),
{
    if channels.len() == 0 {
        channels
    } else {
        let rest = viewable(channels.drop_last(), rows, server_id, in_server, role);
        let c = channels.last();
        if role_may(channel_rights(rows, server_id, c.id), in_server, role, "view"@) {
            rest.push(c)
        } else {
            rest
        }
    }
}

/// The channels that a user sees in a server: all of them as owner; as a
/// stranger, all or none by whether it is public; as a member, those in which
/// their role may view.
pub open spec fn visible_channels(
    server: ServerModel,
    viewer: Seq<char>,
    role: Option<Seq<char>>,
    channels: Seq<ChannelModel>,
    channel_rows: Seq<ChannelRow>,
    role_rows: Seq<RoleRow>,
) -> Seq<ChannelModel> {
    if server.owner == viewer {
        channels
    } else {
        match role {
            None => if server.is_public != 0 {
                channels
            } else {
                Seq::empty()
            },
            Some(name) => viewable(
                channels,
                channel_rows,
                server.id,
                with_builtin(role_rights(role_rows, server.id)),
                name,
            ),
        }
    }
}

fn keep_viewable(
    channels: Vec<ChannelResponse>,
    channel_rows: &Vec<ChannelRow>,
    role_rows: &Vec<RoleRow>,
    server_id: &str,
    role: &str,
) -> (r: Vec<ChannelResponse>)
    ensures
        records::channels_model(r@) == viewable(
            records::channels_model(channels@),
            channel_rows@,
            server_id@,
            with_builtin(role_rights(role_rows@, server_id@)),
            role@,
        ),
{
    let by_channel = channel_permissions_map(channel_rows, server_id);
    let by_role = server_role_permissions_map(role_rows, server_id);
    let mut out: Vec<ChannelResponse> = Vec::new();
    let ghost all = records::channels_model(channels@);
    let mut i: usize = 0;
    proof {
        assert(records::channels_model(out@) =~= viewable(
            all.take(0),
            channel_rows@,
            server_id@,
            by_role@,
            role@,
        ));
    }
    while i < channels.len()
        invariant
            i <= channels@.len(),
            all == records::channels_model(channels@),
            forall|c: Seq<char>| #[trigger]
                channel_entry(by_channel@, c) == channel_rights(channel_rows@, server_id@, c),
            records::channels_model(out@) == viewable(
                all.take(i as int),
                channel_rows@,
                server_id@,
                by_role@,
                role@,
            ),
        decreases channels@.len() - i,
    {
        proof {
            assert(all.take(i as int + 1).drop_last() =~= all.take(i as int));
            assert(all[i as int] == channels@[i as int]@);
        }
        let channel = &channels[i];
        let ghost before = records::channels_model(out@);
        if channel_allows_action(&by_channel, &by_role, role, channel.id.as_str(), "view") {
            out.push(copy_channel(channel));
            proof {
                assert(records::channels_model(out@) =~= before.push(all[i as int]));
            }
        }
        i += 1;
    }
    proof {
        assert(all.take(all.len() as int) == all);
    }
    out
}

fn copy_channel(c: &ChannelResponse) -> (r: ChannelResponse)
    ensures
        r@ == c@,
{
    ChannelResponse {
        id: c.id.clone(),
        name: c.name.clone(),
        topic: c.topic.clone(),
        kind: c.kind.clone(),
        position: c.position,
    }
}

/// The channels that a user sees in a server; none in a server that is not there.
pub fn visible_channels_for_server(
    server: Option<&ServerRecord>,
    viewer: &str,
    role: &Option<String>,
    channels: Vec<ChannelResponse>,
    channel_rows: &Vec<ChannelRow>,
    role_rows: &Vec<RoleRow>,
) -> (r: Vec<ChannelResponse>)
    ensures
        records::channels_model(r@) == (match server {
            Some(record) => visible_channels(
                record@,
                viewer@,
                text::opt_text(*role),
                records::channels_model(channels@),
                channel_rows@,
                role_rows@,
            ),
            None => Seq::empty(),
        }),
{
    let none: Vec<ChannelResponse> = Vec::new();
    proof {
        assert(records::channels_model(none@) =~= Seq::empty());
    }
    let record = match server {
        Some(record) => record,
        None => {
            return none;
        },
    };
    if text::str_eq(record.owner.as_str(), viewer) {
        return channels;
    }
    match role {
        None => if record.is_public != 0 {
            channels
        } else {
            none
        },
        Some(name) => keep_viewable(
            channels,
            channel_rows,
            role_rows,
            record.id.as_str(),
            name.as_str(),
        ),
    }
}

// ---------------------------------------------------------------------------
// Servers as a user sees them
// ---------------------------------------------------------------------------

/// What rows record of a role of a server.
pub open spec fn recorded_rights(
    rows: Seq<RoleRow>,
    server_id: Seq<char>,
    role: Option<Seq<char>>,
) -> Option<Rights> {
    match role {
        Some(name) => if role_rights(rows, server_id).contains_key(name) {
            Some(role_rights(rows, server_id)[name])
        } else {
            None
        },
        None => None,
    }
}

fn find_role_rights(rows: &Vec<RoleRow>, server_id: &str, role: &Option<String>) -> (r: Option<
    Rights,
>)
    ensures
        r == recorded_rights(rows@, server_id@, text::opt_text(*role)),
{
    match role {
        Some(name) => {
            let map = collect_role_rights(rows, server_id);
            match map.get(name.as_str()) {
                Some(rights) => Some(*rights),
                None => None,
            }
        },
        None => None,
    }
}

/// One server as a user sees it: with every channel if they may manage it, else
/// with those that they see.
pub open spec fn response_for(
    server: ServerModel,
    viewer: Seq<char>,
    membership: Option<Seq<char>>,
    channels: Seq<ChannelModel>,
    channel_rows: Seq<ChannelRow>,
    role_rows: Seq<RoleRow>,
    member_count: int,
) -> ServerView {
    let role = user_role(Some(server.owner), viewer, membership);
    let recorded = recorded_rights(role_rows, server.id, role);
    let shown = if may_manage(server, viewer, role, recorded) {
        channels
    } else {
        visible_channels(server, viewer, role, channels, channel_rows, role_rows)
    };
    records::server_shown(server, role, member_count, shown)
}

/// One server as a user sees it.
pub fn build_server_response(
    server: &ServerRecord,
    viewer: &str,
    membership: Option<String>,
    channels: Vec<ChannelResponse>,
    channel_rows: &Vec<ChannelRow>,
    role_rows: &Vec<RoleRow>,
    member_count: i64,
) -> (r: ServerResponse)
    ensures
        r@ == response_for(
            server@,
            viewer@,
            text::opt_text(membership),
            records::channels_model(channels@),
            channel_rows@,
            role_rows@,
            member_count as int,
        ),
{
    let role = server_member_role(Some(server.owner.as_str()), viewer, membership);
    let recorded = find_role_rights(role_rows, server.id.as_str(), &role);
    let shown = if can_manage_server(Some(server), viewer, &role, recorded) {
        channels
    } else {
        visible_channels_for_server(
            Some(server),
            viewer,
            &role,
            channels,
            channel_rows,
            role_rows,
        )
    };
    server.to_response(role, member_count, shown)
}

/// The channels of a server as a user sees them, where the server was looked for. It
/// has to be open to the user.
pub fn list_channels(
    server: &Lookup<ServerRecord>,
    viewer: &str,
    membership: Option<String>,
    channels: Vec<ChannelResponse>,
    channel_rows: &Vec<ChannelRow>,
    role_rows: &Vec<RoleRow>,
) -> (r: Result<Vec<ChannelResponse>, Refusal>)
    ensures
        match *server {
            Lookup::Failed => r == Err::<Vec<ChannelResponse>, Refusal>(Refusal::Internal),
            Lookup::Missing => r == Err::<Vec<ChannelResponse>, Refusal>(Refusal::Forbidden),
            Lookup::Found(record) => {
                let role = user_role(Some(record.owner@), viewer@, text::opt_text(membership));
                match r {
                    Ok(shown) => has_access(record@, viewer@, role) && records::channels_model(
                        shown@,
                    ) == response_for(
                        record@,
                        viewer@,
                        text::opt_text(membership),
                        records::channels_model(channels@),
                        channel_rows@,
                        role_rows@,
                        0,
                    ).channels,
                    Err(e) => !has_access(record@, viewer@, role) && e == Refusal::Forbidden,
                }
            },
        },
{
    let record = match server {
        Lookup::Failed => {
            return Err(Refusal::Internal);
        },
        Lookup::Missing => {
            return Err(Refusal::Forbidden);
        },
        Lookup::Found(record) => record,
    };
    let role = server_member_role(
        Some(record.owner.as_str()),
        viewer,
        text::clone_opt(&membership),
    );
    if !server_access(record, viewer, &role) {
        return Err(Refusal::Forbidden);
    }
    let response = build_server_response(
        record,
        viewer,
        membership,
        channels,
        channel_rows,
        role_rows,
        0,
    );
    Ok(response.channels)
}

/// How many members a server has.
#[derive(Debug)]
pub struct CountRow {
    pub server_id: String,
    pub count: i64,
}

/// The role that a user has in a server as a member.
#[derive(Debug)]
pub struct MembershipRow {
    pub server_id: String,
    pub role: String,
}

/// The count that rows give for a server, a later row before an earlier one; zero
/// where there is none.
pub open spec fn count_of(rows: Seq<CountRow>, server_id: Seq<char>) -> int
    decreases rows.len(),
{
    if rows.len() == 0 {
        0
    } else if rows.last().server_id@ == server_id {
        rows.last().count as int
    } else {
        count_of(rows.drop_last(), server_id)
    }
}

/// The membership that rows give for a server, an earlier row before a later one.
pub open spec fn membership_of(rows: Seq<MembershipRow>, server_id: Seq<char>) -> Option<Seq<char>>
    decreases rows.len(),
{
    if rows.len() == 0 {
        None
    } else if rows[0].server_id@ == server_id {
        Some(rows[0].role@)
    } else {
        membership_of(rows.drop_first(), server_id)
    }
}

/// Whether a list of servers names a user as the owner of one.
pub open spec fn owns(records: Seq<ServerRecord>, viewer: Seq<char>, server_id: Seq<char>) -> bool {
    exists|i: int|
        0 <= i < records.len() && (#[trigger] records[i]).id@ == server_id && records[i].owner@
            == viewer
}

/// The role of a user in a server of a list.
pub open spec fn role_in_list(
    records: Seq<ServerRecord>,
    viewer: Seq<char>,
    memberships: Seq<MembershipRow>,
    server_id: Seq<char>,
) -> Option<Seq<char>> {
    if owns(records, viewer, server_id) {
        Some("owner"@)
    } else {
        membership_of(memberships, server_id)
    }
}

/// Whether a server of a list has the same id as one before it.
pub open spec fn repeated(records: Seq<ServerRecord>, i: int) -> bool {
    exists|j: int| 0 <= j < i && (#[trigger] records[j]).id@ == records[i].id@
}

/// One server of a list as a user sees it. Where an id is repeated, the first
/// server with it has the channels.
pub open spec fn listed_response(
    records: Seq<ServerRecord>,
    i: int,
    viewer: Seq<char>,
    counts: Seq<CountRow>,
    memberships: Seq<MembershipRow>,
    channels: Seq<ChannelRecord>,
    channel_rows: Seq<ChannelRow>,
    role_rows: Seq<RoleRow>,
) -> ServerView {
    let server = records[i]@;
    let role = role_in_list(records, viewer, memberships, server.id);
    let in_server = with_builtin(role_rights(role_rows, server.id));
    let manages = manages_by_role(role) || (role is Some && in_server.contains_key(role->0)
        && in_server[role->0].2);
    let all = if repeated(records, i) {
        Seq::empty()
    } else {
        records::channels_of(channels, server.id)
    };
    let shown = if manages || server.owner == viewer || (role is None && server.is_public != 0) {
        all
    } else {
        match role {
            Some(name) => viewable(all, channel_rows, server.id, in_server, name),
            None => Seq::empty(),
        }
    };
    records::server_shown(server, role, count_of(counts, server.id), shown)
}

/// The servers of a list as a user sees them.
pub open spec fn listed_responses(
    records: Seq<ServerRecord>,
    viewer: Seq<char>,
    counts: Seq<CountRow>,
    memberships: Seq<MembershipRow>,
    channels: Seq<ChannelRecord>,
    channel_rows: Seq<ChannelRow>,
    role_rows: Seq<RoleRow>,
) -> Seq<ServerView> {
    Seq::new(
        records.len(),
        |i: int|
            listed_response(
                records,
                i,
                viewer,
                counts,
                memberships,
                channels,
                channel_rows,
                role_rows,
            ),
    )
}

fn find_count(rows: &Vec<CountRow>, server_id: &str) -> (r: i64)
    ensures
        r == count_of(rows@, server_id@),
{
    let mut i: usize = rows.len();
    proof {
        assert(rows@.take(rows@.len() as int) == rows@);
    }
    while i > 0
        invariant
            i <= rows@.len(),
            count_of(rows@, server_id@) == count_of(rows@.take(i as int), server_id@),
        decreases i,
    {
        i -= 1;
        proof {
            assert(rows@.take(i as int + 1).drop_last() =~= rows@.take(i as int));
            assert(rows@.take(i as int + 1).last() == rows@[i as int]);
        }
        if text::str_eq(rows[i].server_id.as_str(), server_id) {
            return rows[i].count;
        }
    }
    0
}

fn find_membership(rows: &Vec<MembershipRow>, server_id: &str) -> (r: Option<String>)
    ensures
        text::opt_text(r) == membership_of(rows@, server_id@),
{
    let mut i: usize = 0;
    proof {
        assert(rows@.skip(0) == rows@);
    }
    while i < rows.len()
        invariant
            i <= rows@.len(),
            membership_of(rows@, server_id@) == membership_of(rows@.skip(i as int), server_id@),
        decreases rows@.len() - i,
    {
        proof {
            assert(rows@.skip(i as int).drop_first() =~= rows@.skip(i as int + 1));
            assert(rows@.skip(i as int)[0] == rows@[i as int]);
        }
        if text::str_eq(rows[i].server_id.as_str(), server_id) {
            return Some(rows[i].role.clone());
        }
        i += 1;
    }
    None
}

fn owns_server(records: &Vec<ServerRecord>, viewer: &str, server_id: &str) -> (r: bool)
    ensures
        r == owns(records@, viewer@, server_id@),
{
    let mut i: usize = 0;
    while i < records.len()
        invariant
            i <= records@.len(),
            forall|j: int|
                0 <= j < i ==> !((#[trigger] records@[j]).id@ == server_id@ && records@[j].owner@
                    == viewer@),
        decreases records@.len() - i,
    {
        if text::str_eq(records[i].id.as_str(), server_id) && text::str_eq(
            records[i].owner.as_str(),
            viewer,
        ) {
            return true;
        }
        i += 1;
    }
    false
}

fn is_repeated(records: &Vec<ServerRecord>, at: usize) -> (r: bool)
    requires
        at < records@.len(),
    ensures
        r == repeated(records@, at as int),
{
    let mut i: usize = 0;
    while i < at
        invariant
            i <= at < records@.len(),
            forall|j: int| 0 <= j < i ==> (#[trigger] records@[j]).id@ != records@[at as int].id@,
        decreases at - i,
    {
        if text::str_eq(records[i].id.as_str(), records[at].id.as_str()) {
            return true;
        }
        i += 1;
    }
    false
}

fn listed_server(
    records: &Vec<ServerRecord>,
    at: usize,
    viewer: &str,
    counts: &Vec<CountRow>,
    memberships: &Vec<MembershipRow>,
    channels: &Vec<ChannelRecord>,
    channel_rows: &Vec<ChannelRow>,
    role_rows: &Vec<RoleRow>,
) -> (r: ServerResponse)
    requires
        at < records@.len(),
    ensures
        r@ == listed_response(
            records@,
            at as int,
            viewer@,
            counts@,
            memberships@,
            channels@,
            channel_rows@,
            role_rows@,
        ),
{
    let server = &records[at];
    let server_id = server.id.as_str();
    let role = if owns_server(records, viewer, server_id) {
        Some("owner".to_string())
    } else {
        find_membership(memberships, server_id)
    };
    let by_role = server_role_permissions_map(role_rows, server_id);
    let manages = match &role {
        Some(name) => can_manage_by_role(Some(name.as_str())) || (match by_role.get(
            name.as_str(),
        ) {
            Some(rights) => rights.2,
            None => false,
        }),
        None => false,
    };
    let all = if is_repeated(records, at) {
        let none: Vec<ChannelResponse> = Vec::new();
        proof {
            assert(records::channels_model(none@) =~= Seq::empty());
        }
        none
    } else {
        records::select_channels(channels, server_id)
    };
    let shown = if manages || text::str_eq(server.owner.as_str(), viewer) || (role.is_none()
        && server.is_public != 0) {
        all
    } else {
        match &role {
            Some(name) => keep_viewable(all, channel_rows, role_rows, server_id, name.as_str()),
            None => {
                let none: Vec<ChannelResponse> = Vec::new();
                proof {
                    assert(records::channels_model(none@) =~= Seq::empty());
                }
                none
            },
        }
    };
    server.to_response(role, find_count(counts, server_id), shown)
}

/// The servers of a list as a user sees them.
pub fn build_server_responses_batch(
    records: &Vec<ServerRecord>,
    viewer: &str,
    counts: &Vec<CountRow>,
    memberships: &Vec<MembershipRow>,
    channels: &Vec<ChannelRecord>,
    channel_rows: &Vec<ChannelRow>,
    role_rows: &Vec<RoleRow>,
) -> (r: Vec<ServerResponse>)
    ensures
        records::servers_model(r@) == listed_responses(
            records@,
            viewer@,
            counts@,
            memberships@,
            channels@,
            channel_rows@,
            role_rows@,
        ),
{
    let mut out: Vec<ServerResponse> = Vec::new();
    let ghost all = listed_responses(
        records@,
        viewer@,
        counts@,
        memberships@,
        channels@,
        channel_rows@,
        role_rows@,
    );
    let mut i: usize = 0;
    while i < records.len()
        invariant
            i <= records@.len(),
            all == listed_responses(
                records@,
                viewer@,
                counts@,
                memberships@,
                channels@,
                channel_rows@,
                role_rows@,
            ),
            records::servers_model(out@) =~= all.take(i as int),
        decreases records@.len() - i,
    {
        let ghost before = records::servers_model(out@);
        out.push(
            listed_server(
                records,
                i,
                viewer,
                counts,
                memberships,
                channels,
                channel_rows,
                role_rows,
            ),
        );
        i += 1;
        proof {
            assert(records::servers_model(out@) =~= before.push(all[i as int - 1]));
            assert(all.take(i as int) =~= before.push(all[i as int - 1]));
        }
    }
    proof {
        assert(all.take(all.len() as int) == all);
    }
    out
}

// ---------------------------------------------------------------------------
// Messages
// ---------------------------------------------------------------------------

/// A member of a server.
#[derive(Debug)]
pub struct MemberRow {
    pub username: String,
    pub role: String,
}

/// The roles that rows give to users; a later row counts.
pub open spec fn member_roles(rows: Seq<MemberRow>) -> Map<Seq<char>, Seq<char>>
    decreases rows.len(),
{
    if rows.len() == 0 {
        Map::empty()
    } else {
        member_roles(rows.drop_last()).insert(rows.last().username@, rows.last().role@)
    }
}

fn collect_member_roles(rows: &Vec<MemberRow>) -> (r: StringHashMap<String>)
    ensures
        r@.dom() == member_roles(rows@).dom(),
        forall|u: Seq<char>| #[trigger] r@.contains_key(u) ==> r@[u]@ == member_roles(rows@)[u],
{
    let mut map: StringHashMap<String> = StringHashMap::new();
    let mut i: usize = 0;
    proof {
        assert(map@.dom() =~= member_roles(rows@.take(0)).dom());
    }
    while i < rows.len()
        invariant
            i <= rows@.len(),
            map@.dom() == member_roles(rows@.take(i as int)).dom(),
            forall|u: Seq<char>| #[trigger]
                map@.contains_key(u) ==> map@[u]@ == member_roles(rows@.take(i as int))[u],
        decreases rows@.len() - i,
    {
        proof {
            assert(rows@.take(i as int + 1).drop_last() =~= rows@.take(i as int));
        }
        map.insert(rows[i].username.clone(), rows[i].role.clone());
        i += 1;
        proof {
            assert(map@.dom() =~= member_roles(rows@.take(i as int)).dom());
        }
    }
    proof {
        assert(rows@.take(rows@.len() as int) == rows@);
    }
    map
}

/// The rights that count for who gets a channel's messages: the channel's, else
/// the server's, else those of a role that nothing is recorded of.
pub open spec fn viewer_rights(
    in_channel: Map<Seq<char>, Rights>,
    in_server: Map<Seq<char>, Rights>,
    role: Seq<char>,
) -> Rights {
    if in_channel.contains_key(role) {
        in_channel[role]
    } else if in_server.contains_key(role) {
        in_server[role]
    } else {
        fallback_rights(role)
    }
}

/// Whether a user gets the messages of a channel as they are sent.
pub open spec fn may_receive(
    server: ServerModel,
    viewer: Seq<char>,
    members: Map<Seq<char>, Seq<char>>,
    in_channel: Map<Seq<char>, Rights>,
    in_server: Map<Seq<char>, Rights>,
) -> bool {
    if viewer == server.owner {
        true
    } else if members.contains_key(viewer) {
        covers(viewer_rights(in_channel, in_server, members[viewer]), "view"@)
    } else {
        server.is_public != 0
    }
}

/// The users of a list who get the messages of a channel, in their order.
pub open spec fn receivers(
    server: ServerModel,
    viewers: Seq<Seq<char>>,
    members: Map<Seq<char>, Seq<char>>,
    in_channel: Map<Seq<char>, Rights>,
    in_server: Map<Seq<char>, Rights>,
) -> Seq<Seq<char>>
    decreases viewers.len(),
{
    if viewers.len() == 0 {
        viewers
    } else {
        let rest = receivers(server, viewers.drop_last(), members, in_channel, in_server);
        if may_receive(server, viewers.last(), members, in_channel, in_server) {
            rest.push(viewers.last())
        } else {
            rest
        }
    }
}

/// The users of a list who get the messages of a channel.
pub fn resolve_server_message_viewers(
    server: &ServerRecord,
    channel_id: &str,
    viewers: &Vec<String>,
    channel_rows: &Vec<ChannelRow>,
    role_rows: &Vec<RoleRow>,
    member_rows: &Vec<MemberRow>,
) -> (r: Vec<String>)
    ensures
        text::texts(r@) == receivers(
            server@,
            text::texts(viewers@),
            member_roles(member_rows@),
            channel_rights(channel_rows@, server.id@, channel_id@),
            role_rights(role_rows@, server.id@),
        ),
{
    let in_channel = collect_channel_rights(channel_rows, server.id.as_str(), channel_id);
    let in_server = collect_role_rights(role_rows, server.id.as_str());
    let members = collect_member_roles(member_rows);
    let ghost all = text::texts(viewers@);
    let ghost roles = member_roles(member_rows@);
    let mut allowed: Vec<String> = Vec::new();
    let mut i: usize = 0;
    proof {
        assert(text::texts(allowed@) =~= receivers(
            server@,
            all.take(0),
            roles,
            in_channel@,
            in_server@,
        ));
        actions_differ();
    }
    while i < viewers.len()
        invariant
            i <= viewers@.len(),
            all == text::texts(viewers@),
            members@.dom() == roles.dom(),
            forall|u: Seq<char>| #[trigger] members@.contains_key(u) ==> members@[u]@ == roles[u],
            text::texts(allowed@) == receivers(
                server@,
                all.take(i as int),
                roles,
                in_channel@,
                in_server@,
            ),
        decreases viewers@.len() - i,
    {
        proof {
            assert(all.take(i as int + 1).drop_last() =~= all.take(i as int));
        }
        let viewer = viewers[i].as_str();
        let goes = if text::str_eq(viewer, server.owner.as_str()) {
            true
        } else {
            match members.get(viewer) {
                None => {
                    proof {
                        assert(!roles.dom().contains(viewer@));
                    }
                    server.is_public != 0
                },
                Some(role) => {
                    proof {
                        assert(roles.dom().contains(viewer@));
                    }
                    let rights: Rights = match in_channel.get(role.as_str()) {
                        Some(rights) => *rights,
                        None => match in_server.get(role.as_str()) {
                            Some(rights) => *rights,
                            None => fallback_role_permissions(role.as_str()),
                        },
                    };
                    role_permissions_for_view("view", rights.0, rights.1, rights.2)
                },
            }
        };
        let ghost before = text::texts(allowed@);
        if goes {
            allowed.push(viewers[i].clone());
            proof {
                assert(text::texts(allowed@) =~= before.push(all[i as int]));
            }
        }
        i += 1;
    }
    proof {
        assert(all.take(all.len() as int) == all);
    }
    allowed
}

/// Whether a user may read a message. One outside any server is for its sender
/// and receiver. One in a server is for users that the server is open to: its
/// owner and the sender; in a channel, who may view that; else anyone, if the
/// server is public.
pub open spec fn may_read(
    msg: MessageModel,
    user: Seq<char>,
    server: Option<ServerModel>,
    role: Option<Seq<char>>,
    in_channel: Option<Rights>,
    recorded: Option<Rights>,
) -> bool {
    if msg.server_id is None {
        msg.sender == user || msg.receiver == user
    } else {
        match server {
            None => false,
            Some(s) => has_access(s, user, role) && (s.owner == user || msg.sender == user || (
            if msg.channel_id is Some {
                may_act(s, user, role, in_channel, recorded, "view"@)
            } else {
                s.is_public != 0
            })),
        }
    }
}

/// Whether a user may read a message.
pub fn can_access_message(
    msg: &Message,
    user: &str,
    server: Option<&ServerRecord>,
    role: &Option<String>,
    in_channel: Option<(bool, bool, bool)>,
    recorded: Option<(bool, bool, bool)>,
) -> (r: bool)
    ensures
        r == may_read(
            msg@,
            user@,
            (match server {
                Some(s) => Some(s@),
                None => None,
            }),
            text::opt_text(*role),
            in_channel,
            recorded,
        ),
{
    if msg.server_id.is_none() {
        return text::str_eq(msg.sender.as_str(), user) || text::str_eq(
            msg.receiver.as_str(),
            user,
        );
    }
    match server {
        Some(record) => {
            if !server_access(record, user, role) {
                return false;
            }
            if text::str_eq(record.owner.as_str(), user) || text::str_eq(
                msg.sender.as_str(),
                user,
            ) {
                return true;
            }
            if msg.channel_id.is_some() {
                can_access_channel(Some(record), user, role, in_channel, recorded, "view")
            } else {
                record.is_public != 0
            }
        },
        None => false,
    }
}

/// Whether a user may delete a message: its sender; in a server that is there,
/// the owner, an admin, and who may manage the channel.
pub open spec fn may_delete(
    msg: MessageModel,
    user: Seq<char>,
    server: Option<ServerModel>,
    role: Option<Seq<char>>,
    in_channel: Option<Rights>,
    recorded: Option<Rights>,
) -> bool {
    ||| msg.sender == user
    ||| msg.server_id is Some && server is Some && {
        ||| server->0.owner == user
        ||| manages_by_role(role)
        ||| msg.channel_id is Some && may_act(
            server->0,
            user,
            role,
            in_channel,
            recorded,
            "manage"@,
        )
    }
}

/// Whether a user may delete a message.
pub fn can_delete_message(
    msg: &Message,
    user: &str,
    server: Option<&ServerRecord>,
    role: &Option<String>,
    in_channel: Option<(bool, bool, bool)>,
    recorded: Option<(bool, bool, bool)>,
) -> (r: bool)
    ensures
        r == may_delete(
            msg@,
            user@,
            (match server {
                Some(s) => Some(s@),
                None => None,
            }),
            text::opt_text(*role),
            in_channel,
            recorded,
        ),
{
    if text::str_eq(msg.sender.as_str(), user) {
        return true;
    }
    if msg.server_id.is_some() {
        if let Some(record) = server {
            if text::str_eq(record.owner.as_str(), user) {
                return true;
            }
            if let Some(name) = role {
                if can_manage_by_role(Some(name.as_str())) {
                    return true;
                }
            }
            if msg.channel_id.is_some() {
                return can_access_channel(
                    Some(record),
                    user,
                    role,
                    in_channel,
                    recorded,
                    "manage",
                );
            }
        }
    }
    false
}

// ---------------------------------------------------------------------------
// Laws
// ---------------------------------------------------------------------------

/// The owner of a server may do anything in it, and sees every channel.
pub proof fn owner_may_do_anything(
    server: ServerModel,
    role: Option<Seq<char>>,
    in_channel: Option<Rights>,
    recorded: Option<Rights>,
    action: Seq<char>,
    channels: Seq<ChannelModel>,
    channel_rows: Seq<ChannelRow>,
    role_rows: Seq<RoleRow>,
)
    ensures
        may_act(server, server.owner, role, in_channel, recorded, action),
        may_manage(server, server.owner, role, recorded),
        has_access(server, server.owner, role),
        visible_channels(server, server.owner, role, channels, channel_rows, role_rows) == channels,
{
}

/// Who has no role in a server that is not theirs may at most look, and only if
/// the server is public.
pub proof fn strangers_may_only_look(
    server: ServerModel,
    user: Seq<char>,
    in_channel: Option<Rights>,
    recorded: Option<Rights>,
    action: Seq<char>,
)
    requires
        user != server.owner,
    ensures
        may_act(server, user, None, in_channel, recorded, action) <==> server.is_public != 0
            && action == "view"@,
        !may_manage(server, user, None, recorded),
        !may_act(server, user, None, in_channel, recorded, "send"@),
        !may_act(server, user, None, in_channel, recorded, "manage"@),
{
    actions_differ();
}

/// An action that is none of the three known ones is open to the owner alone.
pub proof fn unknown_actions_are_refused(
    server: ServerModel,
    user: Seq<char>,
    role: Option<Seq<char>>,
    in_channel: Option<Rights>,
    recorded: Option<Rights>,
    action: Seq<char>,
)
    requires
        user != server.owner,
        action != "view"@,
        action != "send"@,
        action != "manage"@,
    ensures
        !may_act(server, user, role, in_channel, recorded, action),
{
}

/// A channel that a member sees is one of the server's, and one in which their
/// role may view; the order is the server's.
pub proof fn viewable_facts(
    channels: Seq<ChannelModel>,
    rows: Seq<ChannelRow>,
    server_id: Seq<char>,
    in_server: Map<Seq<char>, Rights>,
    role: Seq<char>,
)
    ensures
        viewable(channels, rows, server_id, in_server, role).len() <= channels.len(),
        forall|c: ChannelModel| #[trigger]
            viewable(channels, rows, server_id, in_server, role).contains(c) <==> channels.contains(
                c,
            ) && role_may(channel_rights(rows, server_id, c.id), in_server, role, "view"@),
    decreases channels.len(),
{
    let result = viewable(channels, rows, server_id, in_server, role);
    if channels.len() > 0 {
        let init = channels.drop_last();
        let rest = viewable(init, rows, server_id, in_server, role);
        viewable_facts(init, rows, server_id, in_server, role);
        assert(channels =~= init.push(channels.last()));
        assert forall|c: ChannelModel| #[trigger] result.contains(c) <==> channels.contains(c)
            && role_may(channel_rights(rows, server_id, c.id), in_server, role, "view"@) by {
            if channels.contains(c) && role_may(
                channel_rights(rows, server_id, c.id),
                in_server,
                role,
                "view"@,
            ) {
                let i = choose|i: int| 0 <= i < channels.len() && channels[i] == c;
                if i < init.len() {
                    assert(init[i] == c);
                    assert(init.contains(c));
                    assert(rest.contains(c));
                    let j = choose|j: int| 0 <= j < rest.len() && rest[j] == c;
                    assert(result[j] == c);
                } else {
                    assert(result[result.len() - 1] == c);
                }
            }
            if result.contains(c) {
                let j = choose|j: int| 0 <= j < result.len() && result[j] == c;
                if j < rest.len() {
                    assert(rest[j] == c);
                    assert(rest.contains(c));
                    assert(init.contains(c));
                    let i = choose|i: int| 0 <= i < init.len() && init[i] == c;
                    assert(channels[i] == c);
                } else {
                    assert(channels[channels.len() - 1] == c);
                }
            }
        }
    }
}

/// A list of servers, each with its own id, shows each of them as it is shown alone.
/// A blank name that the list or the memberships give a role is left out: alone, a
/// server is shown to a blank name as to a stranger.
pub proof fn list_agrees_with_single(
    records: Seq<ServerRecord>,
    i: int,
    viewer: Seq<char>,
    counts: Seq<CountRow>,
    memberships: Seq<MembershipRow>,
    channels: Seq<ChannelRecord>,
    channel_rows: Seq<ChannelRow>,
    role_rows: Seq<RoleRow>,
)
    requires
        0 <= i < records.len(),
        text::blank(viewer) ==> role_in_list(records, viewer, memberships, records[i].id@) is None,
        forall|a: int, b: int|
            0 <= a < b < records.len() ==> (#[trigger] records[a]).id@ != (
            #[trigger] records[b]).id@,
    ensures
        listed_responses(
            records,
            viewer,
            counts,
            memberships,
            channels,
            channel_rows,
            role_rows,
        )[i] == response_for(
            records[i]@,
            viewer,
            membership_of(memberships, records[i].id@),
            records::channels_of(channels, records[i].id@),
            channel_rows,
            role_rows,
            count_of(counts, records[i].id@),
        ),
{
    let server = records[i]@;
    builtin_differ();
    assert(owns(records, viewer, server.id) <==> server.owner == viewer) by {
        if owns(records, viewer, server.id) {
            let j = choose|j: int|
                0 <= j < records.len() && (#[trigger] records[j]).id@ == server.id
                    && records[j].owner@ == viewer;
            assert(j == i);
        }
        if server.owner == viewer {
            assert(records[i].id@ == server.id && records[i].owner@ == viewer);
        }
    }
    assert(!repeated(records, i));
    let role = role_in_list(records, viewer, memberships, server.id);
    assert(role == user_role(
        Some(server.owner),
        viewer,
        membership_of(memberships, server.id),
    ));
    let in_server = with_builtin(role_rights(role_rows, server.id));
    if role is Some {
        let name = role->0;
        let recorded = recorded_rights(role_rows, server.id, role);
        if recorded is Some {
            assert(in_server.contains_key(name) && in_server[name] == recorded->0);
        } else {
            assert(in_server.contains_key(name) ==> name == "admin"@ || name == "member"@ || name
                == "owner"@);
        }
    }
}

/// The rights that rows record for a role in a channel.
pub open spec fn recorded_in_channel(
    rows: Seq<ChannelRow>,
    server_id: Seq<char>,
    channel_id: Seq<char>,
    role: Option<Seq<char>>,
) -> Option<Rights> {
    match role {
        Some(name) => if channel_rights(rows, server_id, channel_id).contains_key(name) {
            Some(channel_rights(rows, server_id, channel_id)[name])
        } else {
            None
        },
        None => None,
    }
}

/// A user sees exactly the channels of a server that the access rule lets them view.
/// Left out are roles that the channel says nothing of, where the server's list
/// does not let view what the access rule does: a member recorded as `owner` of a
/// server that is not theirs, and a role that nothing is recorded of.
pub proof fn seen_channels_may_be_viewed(
    server: ServerModel,
    user: Seq<char>,
    role: Option<Seq<char>>,
    channels: Seq<ChannelModel>,
    c: ChannelModel,
    channel_rows: Seq<ChannelRow>,
    role_rows: Seq<RoleRow>,
)
    requires
        user != server.owner && role is Some ==> {
            let in_server = with_builtin(role_rights(role_rows, server.id));
            ||| channel_rights(channel_rows, server.id, c.id).contains_key(role->0)
            ||| role->0 != "owner"@ && in_server.contains_key(role->0)
            ||| covers(rights_or_member(in_server, role->0), "view"@)
        },
    ensures
        visible_channels(server, user, role, channels, channel_rows, role_rows).contains(c)
            <==> channels.contains(c) && may_act(
            server,
            user,
            role,
            recorded_in_channel(channel_rows, server.id, c.id, role),
            recorded_rights(role_rows, server.id, role),
            "view"@,
        ),
{
    builtin_differ();
    actions_differ();
    if user != server.owner && role is Some {
        viewable_facts(
            channels,
            channel_rows,
            server.id,
            with_builtin(role_rights(role_rows, server.id)),
            role->0,
        );
    }
}

/// A user gets a channel's messages as they are sent exactly if they may view
/// the channel. Left out are members whom delivery and the access rule treat apart:
/// a blank name, and a member recorded as `owner` of a server that is not theirs,
/// where the rights on record do not let view.
pub proof fn delivery_agrees_with_access(
    server: ServerModel,
    viewer: Seq<char>,
    members: Map<Seq<char>, Seq<char>>,
    in_channel: Map<Seq<char>, Rights>,
    role_rows: Seq<RoleRow>,
)
    requires
        viewer != server.owner && members.contains_key(viewer) ==> {
            let lets_view = covers(
                viewer_rights(in_channel, role_rights(role_rows, server.id), members[viewer]),
                "view"@,
            );
            &&& text::blank(viewer) ==> lets_view == (server.is_public != 0)
            &&& !text::blank(viewer) && members[viewer] == "owner"@ && !in_channel.contains_key(
                "owner"@,
            ) ==> lets_view
        },
    ensures
        ({
            let membership = if members.contains_key(viewer) {
                Some(members[viewer])
            } else {
                None
            };
            let role = user_role(Some(server.owner), viewer, membership);
            may_receive(
                server,
                viewer,
                members,
                in_channel,
                role_rights(role_rows, server.id),
            ) == may_act(
                server,
                viewer,
                role,
                if role is Some && in_channel.contains_key(role->0) {
                    Some(in_channel[role->0])
                } else {
                    None
                },
                recorded_rights(role_rows, server.id, role),
                "view"@,
            )
        }),
{
    actions_differ();
}

/// Who gets messages is one of those asked about, each in their place, and every
/// one of those who may receive.
pub proof fn receivers_facts(
    server: ServerModel,
    viewers: Seq<Seq<char>>,
    members: Map<Seq<char>, Seq<char>>,
    in_channel: Map<Seq<char>, Rights>,
    in_server: Map<Seq<char>, Rights>,
)
    ensures
        forall|u: Seq<char>| #[trigger]
            receivers(server, viewers, members, in_channel, in_server).contains(u)
                <==> viewers.contains(u) && may_receive(
                server,
                u,
                members,
                in_channel,
                in_server,
            ),
    decreases viewers.len(),
{
    let result = receivers(server, viewers, members, in_channel, in_server);
    if viewers.len() > 0 {
        let init = viewers.drop_last();
        let rest = receivers(server, init, members, in_channel, in_server);
        receivers_facts(server, init, members, in_channel, in_server);
        assert(viewers =~= init.push(viewers.last()));
        assert forall|u: Seq<char>| #[trigger] result.contains(u) <==> viewers.contains(u)
            && may_receive(server, u, members, in_channel, in_server) by {
            if viewers.contains(u) && may_receive(server, u, members, in_channel, in_server) {
                let i = choose|i: int| 0 <= i < viewers.len() && viewers[i] == u;
                if i < init.len() {
                    assert(init[i] == u);
                    assert(init.contains(u));
                    assert(rest.contains(u));
                    let j = choose|j: int| 0 <= j < rest.len() && rest[j] == u;
                    assert(result[j] == u);
                } else {
                    assert(result[result.len() - 1] == u);
                }
            }
            if result.contains(u) {
                let j = choose|j: int| 0 <= j < result.len() && result[j] == u;
                if j < rest.len() {
                    assert(rest[j] == u);
                    assert(rest.contains(u));
                    assert(init.contains(u));
                    let i = choose|i: int| 0 <= i < init.len() && init[i] == u;
                    assert(viewers[i] == u);
                } else {
                    assert(viewers[viewers.len() - 1] == u);
                }
            }
        }
    }
}

/// A message outside any server is for its two ends alone.
pub proof fn direct_messages_are_private(
    msg: MessageModel,
    user: Seq<char>,
    server: Option<ServerModel>,
    role: Option<Seq<char>>,
    in_channel: Option<Rights>,
    recorded: Option<Rights>,
)
    requires
        msg.server_id is None,
    ensures
        may_read(msg, user, server, role, in_channel, recorded) <==> user == msg.sender || user
            == msg.receiver,
        may_delete(msg, user, server, role, in_channel, recorded) <==> user == msg.sender,
{
}

/// The sender may always delete their message; the owner of the server may read
/// and delete every message in it.
pub proof fn senders_and_owners_may_delete(
    msg: MessageModel,
    server: ServerModel,
    role: Option<Seq<char>>,
    in_channel: Option<Rights>,
    recorded: Option<Rights>,
)
    ensures
        may_delete(msg, msg.sender, Some(server), role, in_channel, recorded),
        may_delete(msg, msg.sender, None, role, in_channel, recorded),
        msg.server_id is Some ==> may_delete(
            msg,
            server.owner,
            Some(server),
            role,
            in_channel,
            recorded,
        ),
        msg.server_id is Some ==> may_read(
            msg,
            server.owner,
            Some(server),
            role,
            in_channel,
            recorded,
        ),
{
}

/// A message of a server that is not open to a user is not theirs to read, and a
/// message in a channel that they may not view neither, unless they sent it.
pub proof fn unseen_channels_stay_unread(
    msg: MessageModel,
    user: Seq<char>,
    server: ServerModel,
    role: Option<Seq<char>>,
    in_channel: Option<Rights>,
    recorded: Option<Rights>,
)
    requires
        msg.server_id is Some,
    ensures
        !has_access(server, user, role) ==> !may_read(
            msg,
            user,
            Some(server),
            role,
            in_channel,
            recorded,
        ),
        msg.channel_id is Some && user != msg.sender && !may_act(
            server,
            user,
            role,
            in_channel,
            recorded,
            "view"@,
        ) ==> !may_read(msg, user, Some(server), role, in_channel, recorded),
{
}

/// What a role may do is what is recorded of it, right by right. A user who does not own
/// the server may view, send and manage exactly as the channel records for their role;
/// where it records nothing, exactly as the server does.
pub proof fn rights_are_as_recorded(
    server: ServerModel,
    user: Seq<char>,
    role: Seq<char>,
    recorded: Option<Rights>,
    view: bool,
    send: bool,
    manage: bool,
)
    requires
        user != server.owner,
    ensures
        may_act(server, user, Some(role), Some((view, send, manage)), recorded, "view"@) == view,
        may_act(server, user, Some(role), Some((view, send, manage)), recorded, "send"@) == send,
        may_act(server, user, Some(role), Some((view, send, manage)), recorded, "manage"@)
            == manage,
        role != "owner"@ ==> {
            &&& may_act(server, user, Some(role), None, Some((view, send, manage)), "view"@)
                == view
            &&& may_act(server, user, Some(role), None, Some((view, send, manage)), "send"@)
                == send
            &&& may_act(server, user, Some(role), None, Some((view, send, manage)), "manage"@)
                == manage
            &&& effective_rights(role, Some((view, send, manage))) == (view, send, manage)
        },
        covers((view, send, manage), "view"@) == view,
        covers((view, send, manage), "send"@) == send,
        covers((view, send, manage), "manage"@) == manage,
{
    actions_differ();
}

/// Where nothing is recorded of a role, a member may view and send, and may manage only
/// as `owner` or `admin`.
pub proof fn unrecorded_roles_view_and_send(
    server: ServerModel,
    user: Seq<char>,
    role: Seq<char>,
)
    requires
        user != server.owner,
    ensures
        may_act(server, user, Some(role), None, None, "view"@),
        may_act(server, user, Some(role), None, None, "send"@),
        may_act(server, user, Some(role), None, None, "manage"@) <==> role == "owner"@ || role
            == "admin"@,
        fallback_rights(role).0,
        fallback_rights(role).1,
        fallback_rights(role).2 <==> role == "owner"@ || role == "admin"@,
{
    actions_differ();
}

/// A member recorded as `owner` has every right in the server, whatever is recorded of
/// that role.
pub proof fn the_owner_role_has_every_right(
    server: ServerModel,
    user: Seq<char>,
    recorded: Option<Rights>,
)
    ensures
        effective_rights("owner"@, recorded) == (true, true, true),
        may_act(server, user, Some("owner"@), None, recorded, "view"@),
        may_act(server, user, Some("owner"@), None, recorded, "send"@),
        may_act(server, user, Some("owner"@), None, recorded, "manage"@),
        may_manage(server, user, Some("owner"@), recorded),
{
    actions_differ();
}

/// A server is managed by its owner, by members who are `owner` or `admin`, and by those
/// whose role is recorded with the right to manage; by no one else. The other two rights
/// do not count.
pub proof fn who_manages_a_server(
    server: ServerModel,
    user: Seq<char>,
    role: Seq<char>,
    view: bool,
    send: bool,
    manage: bool,
)
    ensures
        may_manage(server, user, Some(role), Some((view, send, manage))) <==> user == server.owner
            || role == "owner"@ || role == "admin"@ || manage,
        may_manage(server, user, Some(role), None) <==> user == server.owner || role == "owner"@
            || role == "admin"@,
        may_manage(server, user, None, Some((view, send, manage))) <==> user == server.owner,
        may_manage(server, user, None, None) <==> user == server.owner,
        manages_by_role(Some(role)) <==> role == "owner"@ || role == "admin"@,
        !manages_by_role(None),
{
}

/// A server is open to everyone if it is public, else to its owner and to who has a role.
pub proof fn who_a_server_is_open_to(
    server: ServerModel,
    user: Seq<char>,
    role: Option<Seq<char>>,
)
    ensures
        server.is_public != 0 ==> has_access(server, user, role),
        role is Some ==> has_access(server, user, role),
        has_access(server, server.owner, role),
        server.is_public == 0 && role is None && user != server.owner ==> !has_access(
            server,
            user,
            role,
        ),
{
}

/// The role of a user is `owner` in a server of their own, else the one they have as a
/// member, if they are one; a blank name has none.
pub proof fn roles_of_users(
    owner: Seq<char>,
    user: Seq<char>,
    membership: Option<Seq<char>>,
)
    ensures
        text::blank(user) ==> user_role(Some(owner), user, membership) is None,
        !text::blank(user) ==> user_role(Some(user), user, membership) == Some("owner"@),
        !text::blank(user) && user != owner ==> user_role(Some(owner), user, membership)
            == membership,
        !text::blank(user) ==> user_role(None, user, membership) == membership,
{
}

/// A message in a channel is deleted by its sender, by the server's owner, by `owner` and
/// `admin`, and by who may manage the channel: with the channel's rights on record for
/// their role, exactly where the third is set; without, exactly where the server's is.
pub proof fn who_deletes_a_channel_message(
    msg: MessageModel,
    user: Seq<char>,
    server: ServerModel,
    role: Seq<char>,
    recorded: Option<Rights>,
    view: bool,
    send: bool,
    manage: bool,
)
    requires
        msg.server_id is Some,
        msg.channel_id is Some,
    ensures
        may_delete(msg, user, Some(server), Some(role), Some((view, send, manage)), recorded)
            <==> user == msg.sender || user == server.owner || role == "owner"@ || role == "admin"@
            || manage,
        may_delete(msg, user, Some(server), Some(role), None, Some((view, send, manage))) <==> user
            == msg.sender || user == server.owner || role == "owner"@ || role == "admin"@ || manage,
        may_delete(msg, user, Some(server), Some(role), None, None) <==> user == msg.sender || user
            == server.owner || role == "owner"@ || role == "admin"@,
        may_delete(msg, user, Some(server), None, Some((view, send, manage)), recorded) <==> user
            == msg.sender || user == server.owner,
        may_delete(msg, user, None, Some(role), Some((view, send, manage)), recorded) <==> user
            == msg.sender,
{
    actions_differ();
    builtin_differ();
}

/// A message of a server that names no channel is deleted by its sender, by the server's
/// owner, and by `owner` and `admin`, whatever rights are recorded.
pub proof fn who_deletes_a_message_without_channel(
    msg: MessageModel,
    user: Seq<char>,
    server: ServerModel,
    role: Option<Seq<char>>,
    in_channel: Option<Rights>,
    recorded: Option<Rights>,
)
    requires
        msg.server_id is Some,
        msg.channel_id is None,
    ensures
        may_delete(msg, user, Some(server), role, in_channel, recorded) <==> user == msg.sender
            || user == server.owner || role == Some("owner"@) || role == Some("admin"@),
        may_delete(msg, user, None, role, in_channel, recorded) <==> user == msg.sender,
{
}

/// A message in a channel is read by the server's owner, and of those whom the server is
/// open to, by its sender and by who may view the channel: a member exactly as the
/// channel records for their role, else as the server does; a stranger where the server
/// is public.
pub proof fn who_reads_a_channel_message(
    msg: MessageModel,
    user: Seq<char>,
    server: ServerModel,
    role: Seq<char>,
    recorded: Option<Rights>,
    view: bool,
    send: bool,
    manage: bool,
)
    requires
        msg.server_id is Some,
        msg.channel_id is Some,
    ensures
        may_read(msg, user, Some(server), Some(role), Some((view, send, manage)), recorded)
            <==> user == msg.sender || user == server.owner || view,
        role != "owner"@ ==> (may_read(
            msg,
            user,
            Some(server),
            Some(role),
            None,
            Some((view, send, manage)),
        ) <==> user == msg.sender || user == server.owner || view),
        may_read(msg, user, Some(server), Some(role), None, None),
        may_read(msg, user, Some(server), None, Some((view, send, manage)), recorded) <==> user
            == server.owner || server.is_public != 0,
        !may_read(msg, user, None, Some(role), Some((view, send, manage)), recorded),
{
    actions_differ();
}

/// A message of a server that names no channel is read by everyone if the server is
/// public, else by its owner, and by its sender while they have a role.
pub proof fn who_reads_a_message_without_channel(
    msg: MessageModel,
    user: Seq<char>,
    server: ServerModel,
    role: Option<Seq<char>>,
    in_channel: Option<Rights>,
    recorded: Option<Rights>,
)
    requires
        msg.server_id is Some,
        msg.channel_id is None,
    ensures
        may_read(msg, user, Some(server), role, in_channel, recorded) <==> server.is_public != 0
            || user == server.owner || (user == msg.sender && role is Some),
        !may_read(msg, user, None, role, in_channel, recorded),
{
}

/// Whether a row is for a role of a server.
pub open spec fn role_row(row: RoleRow, server_id: Seq<char>, role: Seq<char>) -> bool {
    row.server_id@ == server_id && row.role_id@ == role
}

/// Whether a row is for a role of a server, and no later one is.
pub open spec fn last_role_row(
    rows: Seq<RoleRow>,
    k: int,
    server_id: Seq<char>,
    role: Seq<char>,
) -> bool {
    &&& 0 <= k < rows.len()
    &&& role_row(rows[k], server_id, role)
    &&& forall|j: int| k < j < rows.len() ==> !role_row(#[trigger] rows[j], server_id, role)
}

/// What is recorded of a role of a server is what the last row for it says, right by right,
/// and nothing where there is none; rows for anything else do not count.
pub proof fn the_last_role_row_counts(rows: Seq<RoleRow>, server_id: Seq<char>, role: Seq<char>)
    ensures
        (forall|j: int| 0 <= j < rows.len() ==> !role_row(#[trigger] rows[j], server_id, role))
            ==> !role_rights(rows, server_id).contains_key(role),
        forall|k: int| #[trigger]
            last_role_row(rows, k, server_id, role) ==> {
                let rights = role_rights(rows, server_id);
                rights.contains_key(role) && rights[role] == (
                    rows[k].can_view != 0,
                    rows[k].can_send != 0,
                    rows[k].can_manage != 0,
                )
            },
    decreases rows.len(),
{
    if rows.len() > 0 {
        let init = rows.drop_last();
        let last = rows.len() - 1;
        the_last_role_row_counts(init, server_id, role);
        if forall|j: int| 0 <= j < rows.len() ==> !role_row(#[trigger] rows[j], server_id, role) {
            assert(!role_row(rows[last], server_id, role));
            assert forall|j: int| 0 <= j < init.len() implies !role_row(
                #[trigger] init[j],
                server_id,
                role,
            ) by {
                assert(!role_row(rows[j], server_id, role));
            }
        }
        let rights = role_rights(rows, server_id);
        assert forall|k: int| #[trigger]
            last_role_row(rows, k, server_id, role) implies rights.contains_key(role)
            && rights[role] == (
            rows[k].can_view != 0,
            rows[k].can_send != 0,
            rows[k].can_manage != 0,
        ) by {
            if k < last {
                assert(!role_row(rows[last], server_id, role));
                assert forall|j: int| k < j < init.len() implies !role_row(
                    #[trigger] init[j],
                    server_id,
                    role,
                ) by {
                    assert(!role_row(rows[j], server_id, role));
                }
                assert(last_role_row(init, k, server_id, role));
            }
        }
    }
}

/// Whether a row is for a role in a channel.
pub open spec fn channel_row(
    row: ChannelRow,
    server_id: Seq<char>,
    channel_id: Seq<char>,
    role: Seq<char>,
) -> bool {
    row.server_id@ == server_id && row.channel_id@ == channel_id && row.role@ == role
}

/// Whether a row is for a role in a channel, and no later one is.
pub open spec fn last_channel_row(
    rows: Seq<ChannelRow>,
    k: int,
    server_id: Seq<char>,
    channel_id: Seq<char>,
    role: Seq<char>,
) -> bool {
    &&& 0 <= k < rows.len()
    &&& channel_row(rows[k], server_id, channel_id, role)
    &&& forall|j: int|
        k < j < rows.len() ==> !channel_row(#[trigger] rows[j], server_id, channel_id, role)
}

/// What is recorded of a role in a channel is what the last row for it says, right by right,
/// and nothing where there is none; rows for anything else do not count.
pub proof fn the_last_channel_row_counts(
    rows: Seq<ChannelRow>,
    server_id: Seq<char>,
    channel_id: Seq<char>,
    role: Seq<char>,
)
    ensures
        (forall|j: int|
            0 <= j < rows.len() ==> !channel_row(#[trigger] rows[j], server_id, channel_id, role))
            ==> !channel_rights(rows, server_id, channel_id).contains_key(role),
        forall|k: int| #[trigger]
            last_channel_row(rows, k, server_id, channel_id, role) ==> {
                let rights = channel_rights(rows, server_id, channel_id);
                rights.contains_key(role) && rights[role] == (
                    rows[k].can_view != 0,
                    rows[k].can_send != 0,
                    rows[k].can_manage != 0,
                )
            },
    decreases rows.len(),
{
    if rows.len() > 0 {
        let init = rows.drop_last();
        let last = rows.len() - 1;
        the_last_channel_row_counts(init, server_id, channel_id, role);
        if forall|j: int|
            0 <= j < rows.len() ==> !channel_row(#[trigger] rows[j], server_id, channel_id, role) {
            assert(!channel_row(rows[last], server_id, channel_id, role));
            assert forall|j: int| 0 <= j < init.len() implies !channel_row(
                #[trigger] init[j],
                server_id,
                channel_id,
                role,
            ) by {
                assert(!channel_row(rows[j], server_id, channel_id, role));
            }
        }
        let rights = channel_rights(rows, server_id, channel_id);
        assert forall|k: int| #[trigger]
            last_channel_row(rows, k, server_id, channel_id, role) implies rights.contains_key(role)
            && rights[role] == (
            rows[k].can_view != 0,
            rows[k].can_send != 0,
            rows[k].can_manage != 0,
        ) by {
            if k < last {
                assert(!channel_row(rows[last], server_id, channel_id, role));
                assert forall|j: int| k < j < init.len() implies !channel_row(
                    #[trigger] init[j],
                    server_id,
                    channel_id,
                    role,
                ) by {
                    assert(!channel_row(rows[j], server_id, channel_id, role));
                }
                assert(last_channel_row(init, k, server_id, channel_id, role));
            }
        }
    }
}

/// The built-in roles have their usual rights where nothing is recorded of them; what is
/// recorded stays as it is, and no other role gets rights.
pub proof fn builtin_roles_fill_in(recorded: Map<Seq<char>, Rights>, role: Seq<char>)
    ensures
        recorded.contains_key(role) ==> with_builtin(recorded).contains_key(role)
            && with_builtin(recorded)[role] == recorded[role],
        !recorded.contains_key("admin"@) ==> with_builtin(recorded).contains_key("admin"@)
            && with_builtin(recorded)["admin"@] == (true, true, true),
        !recorded.contains_key("owner"@) ==> with_builtin(recorded).contains_key("owner"@)
            && with_builtin(recorded)["owner"@] == (true, true, true),
        !recorded.contains_key("member"@) ==> with_builtin(recorded).contains_key("member"@)
            && with_builtin(recorded)["member"@] == (true, true, false),
        with_builtin(recorded).contains_key(role) ==> recorded.contains_key(role) || role
            == "admin"@ || role == "owner"@ || role == "member"@,
{
    builtin_differ();
}

/// In the list of channels a role may do what the channel records for it; where it
/// records nothing, what the server does; where that has nothing either, what members
/// may. The rights count one by one.
pub proof fn channel_rights_come_first(
    in_channel: Map<Seq<char>, Rights>,
    in_server: Map<Seq<char>, Rights>,
    role: Seq<char>,
)
    ensures
        ({
            let rights = if in_channel.contains_key(role) {
                in_channel[role]
            } else if in_server.contains_key(role) {
                in_server[role]
            } else if in_server.contains_key("member"@) {
                in_server["member"@]
            } else {
                (true, true, false)
            };
            &&& role_may(in_channel, in_server, role, "view"@) == rights.0
            &&& role_may(in_channel, in_server, role, "send"@) == rights.1
            &&& role_may(in_channel, in_server, role, "manage"@) == rights.2
        }),
{
    actions_differ();
}

/// The channels that a member sees are those of the server, in their order, left out
/// exactly those in which their role may not view.
pub proof fn seen_channels_keep_their_order(
    channels: Seq<ChannelModel>,
    rows: Seq<ChannelRow>,
    server_id: Seq<char>,
    in_server: Map<Seq<char>, Rights>,
    role: Seq<char>,
)
    ensures
        viewable(channels, rows, server_id, in_server, role) == channels.filter(
            |c: ChannelModel|
                role_may(channel_rights(rows, server_id, c.id), in_server, role, "view"@),
        ),
    decreases channels.len(),
{
    reveal(Seq::filter);
    if channels.len() > 0 {
        seen_channels_keep_their_order(channels.drop_last(), rows, server_id, in_server, role);
    } else {
        assert(channels =~= Seq::empty());
    }
}

/// Who gets a channel's messages, one viewer at a time: the owner; a member exactly if
/// the channel records the right to view for their role, or else the server does, or
/// else nothing is recorded; anyone else if the server is public.
pub proof fn who_receives(
    server: ServerModel,
    viewer: Seq<char>,
    members: Map<Seq<char>, Seq<char>>,
    in_channel: Map<Seq<char>, Rights>,
    in_server: Map<Seq<char>, Rights>,
)
    ensures
        may_receive(server, server.owner, members, in_channel, in_server),
        viewer != server.owner && !members.contains_key(viewer) ==> (may_receive(
            server,
            viewer,
            members,
            in_channel,
            in_server,
        ) <==> server.is_public != 0),
        viewer != server.owner && members.contains_key(viewer) ==> ({
            let role = members[viewer];
            let gets = may_receive(server, viewer, members, in_channel, in_server);
            &&& in_channel.contains_key(role) ==> gets == in_channel[role].0
            &&& !in_channel.contains_key(role) && in_server.contains_key(role) ==> gets
                == in_server[role].0
            &&& !in_channel.contains_key(role) && !in_server.contains_key(role) ==> gets
        }),
{
    actions_differ();
}

/// Those who get a channel's messages are the users asked about, in their order, left
/// out exactly those who may not.
pub proof fn receivers_keep_their_order(
    server: ServerModel,
    viewers: Seq<Seq<char>>,
    members: Map<Seq<char>, Seq<char>>,
    in_channel: Map<Seq<char>, Rights>,
    in_server: Map<Seq<char>, Rights>,
)
    ensures
        receivers(server, viewers, members, in_channel, in_server) == viewers.filter(
            |v: Seq<char>| may_receive(server, v, members, in_channel, in_server),
        ),
    decreases viewers.len(),
{
    reveal(Seq::filter);
    if viewers.len() > 0 {
        receivers_keep_their_order(server, viewers.drop_last(), members, in_channel, in_server);
    } else {
        assert(viewers =~= Seq::empty());
    }
}

/// The role of a member is what the last row for their name says; who has no row has
/// none.
pub proof fn the_last_member_row_counts(rows: Seq<MemberRow>, user: Seq<char>)
    ensures
        (forall|j: int| 0 <= j < rows.len() ==> (#[trigger] rows[j]).username@ != user)
            ==> !member_roles(rows).contains_key(user),
        forall|k: int| #[trigger]
            last_row_of(rows, k, user) ==> member_roles(rows).contains_key(user)
                && member_roles(rows)[user] == rows[k].role@,
    decreases rows.len(),
{
    if rows.len() > 0 {
        let init = rows.drop_last();
        let last = rows.len() - 1;
        the_last_member_row_counts(init, user);
        if forall|j: int| 0 <= j < rows.len() ==> (#[trigger] rows[j]).username@ != user {
            assert(rows[last].username@ != user);
            assert forall|j: int| 0 <= j < init.len() implies (#[trigger] init[j]).username@
                != user by {
                assert(rows[j].username@ != user);
            }
        }
        assert forall|k: int| #[trigger] last_row_of(rows, k, user) implies member_roles(
            rows,
        ).contains_key(user) && member_roles(rows)[user] == rows[k].role@ by {
            if k < last {
                assert(rows[last].username@ != user);
                assert forall|j: int| k < j < init.len() implies (#[trigger] init[j]).username@
                    != user by {
                    assert(rows[j].username@ != user);
                }
                assert(last_row_of(init, k, user));
            }
        }
    }
}

/// Whether a row is for a user, and no later one is.
pub open spec fn last_row_of(rows: Seq<MemberRow>, k: int, user: Seq<char>) -> bool {
    &&& 0 <= k < rows.len()
    &&& rows[k].username@ == user
    &&& forall|j: int| k < j < rows.len() ==> (#[trigger] rows[j]).username@ != user
}

/// The member count of a server is what a row for it says, and none is zero; a
/// membership is what the first row for the server says.
pub proof fn rows_of_one_server(
    counts: Seq<CountRow>,
    memberships: Seq<MembershipRow>,
    server_id: Seq<char>,
)
    ensures
        (forall|k: int| 0 <= k < counts.len() ==> (#[trigger] counts[k]).server_id@ != server_id)
            ==> count_of(counts, server_id) == 0,
        forall|k: int|
            0 <= k < counts.len() && (#[trigger] counts[k]).server_id@ == server_id && (forall|
                j: int,
            |
                k < j < counts.len() ==> (#[trigger] counts[j]).server_id@ != server_id)
                ==> count_of(counts, server_id) == counts[k].count,
        (forall|k: int|
            0 <= k < memberships.len() ==> (#[trigger] memberships[k]).server_id@ != server_id)
            ==> membership_of(memberships, server_id) is None,
        forall|k: int|
            0 <= k < memberships.len() && (#[trigger] memberships[k]).server_id@ == server_id && (
            forall|j: int|
                0 <= j < k ==> (#[trigger] memberships[j]).server_id@ != server_id)
                ==> membership_of(memberships, server_id) == Some(memberships[k].role@),
    decreases counts.len() + memberships.len(),
{
    if counts.len() > 0 {
        let init = counts.drop_last();
        rows_of_one_server(init, memberships, server_id);
        assert(forall|k: int| 0 <= k < init.len() ==> init[k] == counts[k]);
        let last = counts.len() - 1;
        assert(counts[last] == counts.last());
        assert forall|k: int|
            0 <= k < counts.len() && (#[trigger] counts[k]).server_id@ == server_id && (forall|
                j: int,
            |
                k < j < counts.len() ==> (
                #[trigger] counts[j]).server_id@ != server_id) implies count_of(counts, server_id)
            == counts[k].count by {
            if k < last {
                assert(counts[last].server_id@ != server_id);
                assert(init[k].server_id@ == server_id);
                assert forall|j: int| k < j < init.len() implies (#[trigger] init[j]).server_id@
                    != server_id by {
                    assert(counts[j].server_id@ != server_id);
                }
            }
        }
        if forall|k: int|
            0 <= k < counts.len() ==> (#[trigger] counts[k]).server_id@ != server_id {
            assert(counts[last].server_id@ != server_id);
            assert forall|k: int| 0 <= k < init.len() implies (#[trigger] init[k]).server_id@
                != server_id by {
                assert(counts[k].server_id@ != server_id);
            }
        }
    } else if memberships.len() > 0 {
        let rest = memberships.drop_first();
        rows_of_one_server(counts, rest, server_id);
        assert(forall|k: int| 0 <= k < rest.len() ==> rest[k] == memberships[k + 1]);
        assert forall|k: int|
            0 <= k < memberships.len() && (#[trigger] memberships[k]).server_id@ == server_id && (
            forall|j: int|
                0 <= j < k ==> (
                #[trigger] memberships[j]).server_id@ != server_id) implies membership_of(
            memberships,
            server_id,
        ) == Some(memberships[k].role@) by {
            if k > 0 {
                assert(memberships[0].server_id@ != server_id);
                assert(rest[k - 1].server_id@ == server_id);
                assert forall|j: int| 0 <= j < k - 1 implies (#[trigger] rest[j]).server_id@
                    != server_id by {
                    assert(memberships[j + 1].server_id@ != server_id);
                }
            }
        }
        if forall|k: int|
            0 <= k < memberships.len() ==> (#[trigger] memberships[k]).server_id@ != server_id {
            assert(memberships[0].server_id@ != server_id);
            assert forall|k: int| 0 <= k < rest.len() implies (#[trigger] rest[k]).server_id@
                != server_id by {
                assert(memberships[k + 1].server_id@ != server_id);
            }
        }
    }
}

/// A server is shown as it is kept, field by field, with the user's own role and the
/// number of members.
pub proof fn servers_are_shown_as_kept(
    server: ServerRecord,
    viewer: Seq<char>,
    membership: Option<Seq<char>>,
    channels: Seq<ChannelModel>,
    channel_rows: Seq<ChannelRow>,
    role_rows: Seq<RoleRow>,
    member_count: int,
    r: ServerResponse,
)
    requires
        r@ == response_for(
            server@,
            viewer,
            membership,
            channels,
            channel_rows,
            role_rows,
            member_count,
        ),
    ensures
        r.id@ == server.id@,
        r.name@ == server.name@,
        r.description@ == server.description@,
        r.icon@ == server.icon@,
        r.color@ == server.color@,
        r.join_link@ == server.join_link@,
        r.owner@ == server.owner@,
        r.is_public <==> server.is_public != 0,
        r.member_count == member_count,
        text::blank(viewer) ==> r.my_role is None,
        !text::blank(viewer) && viewer == server.owner@ ==> r.my_role is Some && r.my_role->0@
            == "owner"@,
        !text::blank(viewer) && viewer != server.owner@ ==> text::opt_text(r.my_role)
            == membership,
{
}

/// Who may manage a server is shown all of its channels; so is everyone without a role in
/// a public one, and no one without a role in another.
pub proof fn managers_are_shown_every_channel(
    server: ServerModel,
    viewer: Seq<char>,
    membership: Option<Seq<char>>,
    channels: Seq<ChannelModel>,
    channel_rows: Seq<ChannelRow>,
    role_rows: Seq<RoleRow>,
    member_count: int,
)
    ensures
        ({
            let shown = response_for(
                server,
                viewer,
                membership,
                channels,
                channel_rows,
                role_rows,
                member_count,
            ).channels;
            &&& viewer == server.owner ==> shown == channels
            &&& !text::blank(viewer) && (membership == Some("admin"@) || membership == Some(
                "owner"@,
            )) ==> shown == channels
            &&& membership is None && viewer != server.owner ==> shown == (if server.is_public
                != 0 {
                channels
            } else {
                Seq::empty()
            })
        }),
{
}

/// A member who does not own the server is shown every channel if their role manages it,
/// else exactly the channels in which their role may view, in the server's order.
pub proof fn members_are_shown_what_they_may_view(
    server: ServerModel,
    viewer: Seq<char>,
    role: Seq<char>,
    channels: Seq<ChannelModel>,
    channel_rows: Seq<ChannelRow>,
    role_rows: Seq<RoleRow>,
    member_count: int,
)
    requires
        !text::blank(viewer),
        viewer != server.owner,
    ensures
        ({
            let recorded = role_rights(role_rows, server.id);
            let seen = channels.filter(
                |c: ChannelModel|
                    role_may(
                        channel_rights(channel_rows, server.id, c.id),
                        with_builtin(recorded),
                        role,
                        "view"@,
                    ),
            );
            let shown = response_for(
                server,
                viewer,
                Some(role),
                channels,
                channel_rows,
                role_rows,
                member_count,
            ).channels;
            &&& role == "owner"@ || role == "admin"@ || (recorded.contains_key(role)
                && recorded[role].2) ==> shown == channels
            &&& role != "owner"@ && role != "admin"@ && !(recorded.contains_key(role)
                && recorded[role].2) ==> shown == seen
            &&& visible_channels(server, viewer, Some(role), channels, channel_rows, role_rows)
                == seen
        }),
{
    seen_channels_keep_their_order(
        channels,
        channel_rows,
        server.id,
        with_builtin(role_rights(role_rows, server.id)),
        role,
    );
}

/// Each action asks for its own right, and an unknown one is refused.
pub proof fn actions_ask_for_their_right(
    action: &str,
    view: bool,
    send: bool,
    manage: bool,
    r: bool,
)
    requires
        call_ensures(role_permissions_for_view, (action, view, send, manage), r),
    ensures
        action@ == "view"@ ==> r == view,
        action@ == "send"@ ==> r == send,
        action@ == "manage"@ ==> r == manage,
        action@ != "view"@ && action@ != "send"@ && action@ != "manage"@ ==> !r,
{
    actions_differ();
}

/// A role of which nothing is recorded views and sends, and manages as `owner` or `admin`.
pub proof fn what_unrecorded_roles_may(role_id: &str, r: (bool, bool, bool))
    requires
        call_ensures(fallback_role_permissions, (role_id,), r),
    ensures
        r.0,
        r.1,
        r.2 <==> role_id@ == "owner"@ || role_id@ == "admin"@,
{
}

/// The roles that manage a server by name are `owner` and `admin`.
pub proof fn which_roles_manage(role: Option<&str>, r: bool)
    requires
        call_ensures(can_manage_by_role, (role,), r),
    ensures
        r <==> role is Some && (role->0@ == "owner"@ || role->0@ == "admin"@),
{
}

/// The rights of a server's role are those of the last row for it, right by right.
pub proof fn role_rows_are_read(
    rows: &Vec<RoleRow>,
    server_id: &str,
    r: StringHashMap<(bool, bool, bool)>,
    k: int,
    role: Seq<char>,
)
    requires
        call_ensures(server_role_permissions_map, (rows, server_id), r),
        last_role_row(rows@, k, server_id@, role),
    ensures
        r@.contains_key(role),
        r@[role] == (rows@[k].can_view != 0, rows@[k].can_send != 0, rows@[k].can_manage != 0),
{
    the_last_role_row_counts(rows@, server_id@, role);
    builtin_roles_fill_in(role_rights(rows@, server_id@), role);
}

/// A role of a server without a row has rights only if it is built in: to do anything as
/// `owner` or `admin`, and to view and send as `member`.
pub proof fn roles_without_rows(
    rows: &Vec<RoleRow>,
    server_id: &str,
    r: StringHashMap<(bool, bool, bool)>,
    role: Seq<char>,
)
    requires
        call_ensures(server_role_permissions_map, (rows, server_id), r),
        forall|j: int| 0 <= j < rows@.len() ==> !role_row(#[trigger] rows@[j], server_id@, role),
    ensures
        role == "owner"@ || role == "admin"@ ==> r@.contains_key(role) && r@[role] == (
            true,
            true,
            true,
        ),
        role == "member"@ ==> r@.contains_key(role) && r@[role] == (true, true, false),
        role != "owner"@ && role != "admin"@ && role != "member"@ ==> !r@.contains_key(role),
{
    the_last_role_row_counts(rows@, server_id@, role);
    builtin_roles_fill_in(role_rights(rows@, server_id@), role);
}

/// The rights of a role in a channel are those of the last row for it, right by right, and
/// without a row there are none.
pub proof fn channel_rows_are_read(
    rows: &Vec<ChannelRow>,
    server_id: &str,
    r: StringHashMap<StringHashMap<(bool, bool, bool)>>,
    k: int,
    channel_id: Seq<char>,
    role: Seq<char>,
)
    requires
        call_ensures(channel_permissions_map, (rows, server_id), r),
    ensures
        last_channel_row(rows@, k, server_id@, channel_id, role) ==> r@.contains_key(channel_id)
            && r@[channel_id]@.contains_key(role) && r@[channel_id]@[role] == (
            rows@[k].can_view != 0,
            rows@[k].can_send != 0,
            rows@[k].can_manage != 0,
        ),
        (forall|j: int|
            0 <= j < rows@.len() ==> !channel_row(
                #[trigger] rows@[j],
                server_id@,
                channel_id,
                role,
            )) ==> !r@.contains_key(channel_id) || !r@[channel_id]@.contains_key(role),
{
    the_last_channel_row_counts(rows@, server_id@, channel_id, role);
    assert(channel_entry(r@, channel_id) == channel_rights(rows@, server_id@, channel_id));
}

/// In a channel a role may do what the channel records for it, else what the server does,
/// else what members may.
pub proof fn what_channels_allow(
    channel_permissions: &StringHashMap<StringHashMap<(bool, bool, bool)>>,
    server_permissions: &StringHashMap<(bool, bool, bool)>,
    role: &str,
    channel_id: &str,
    action: &str,
    r: bool,
)
    requires
        call_ensures(
            channel_allows_action,
            (channel_permissions, server_permissions, role, channel_id, action),
            r,
        ),
    ensures
        ({
            let rights = if channel_permissions@.contains_key(channel_id@)
                && channel_permissions@[channel_id@]@.contains_key(role@) {
                channel_permissions@[channel_id@]@[role@]
            } else if server_permissions@.contains_key(role@) {
                server_permissions@[role@]
            } else if server_permissions@.contains_key("member"@) {
                server_permissions@["member"@]
            } else {
                (true, true, false)
            };
            &&& action@ == "view"@ ==> r == rights.0
            &&& action@ == "send"@ ==> r == rights.1
            &&& action@ == "manage"@ ==> r == rights.2
        }),
{
    actions_differ();
}

/// The role of a user is `owner` in a server of their own, and else the one they have as a
/// member; a blank name has none.
pub proof fn which_role_a_user_has(
    owner: Option<&str>,
    username: &str,
    membership: Option<String>,
    r: Option<String>,
)
    requires
        call_ensures(server_member_role, (owner, username, membership), r),
    ensures
        ({
            let blank = text::trimmed(username@).len() == 0;
            let own = owner is Some && owner->0@ == username@;
            &&& blank ==> r is None
            &&& !blank && own ==> r is Some && r->0@ == "owner"@
            &&& !blank && !own ==> (r is Some <==> membership is Some)
            &&& !blank && !own && membership is Some ==> r->0@ == membership->0@
        }),
{
}

/// A server is open to everyone if it is public, and else to its owner and who has a role.
pub proof fn who_has_access(server: &ServerRecord, username: &str, role: &Option<String>, r: bool)
    requires
        call_ensures(server_access, (server, username, role), r),
    ensures
        r <==> server.is_public != 0 || server.owner@ == username@ || role is Some,
{
}

/// A role has the rights that are recorded of it, right by right; `owner` has them all, and
/// a role of which nothing is recorded those of its name.
pub proof fn what_rights_a_role_has(
    role_id: &str,
    recorded: Option<(bool, bool, bool)>,
    r: (bool, bool, bool),
)
    requires
        call_ensures(server_role_permissions, (role_id, recorded), r),
    ensures
        role_id@ == "owner"@ ==> r.0 && r.1 && r.2,
        role_id@ != "owner"@ && recorded is Some ==> {
            let (view, send, manage) = recorded->0;
            r.0 == view && r.1 == send && r.2 == manage
        },
        role_id@ != "owner"@ && recorded is None ==> r.0 && r.1 && (r.2 <==> role_id@
            == "admin"@),
{
}

/// A server is managed by its owner, by `owner` and `admin`, and by who has a role with the
/// right to manage; a server that is not there by no one.
pub proof fn who_may_manage(
    server: Option<&ServerRecord>,
    username: &str,
    role: &Option<String>,
    recorded: Option<(bool, bool, bool)>,
    r: bool,
)
    requires
        call_ensures(can_manage_server, (server, username, role, recorded), r),
    ensures
        ({
            let (view, send, manage) = recorded->0;
            let by_name = role is Some && (role->0@ == "owner"@ || role->0@ == "admin"@);
            let by_right = role is Some && recorded is Some && manage;
            r <==> server is Some && (server->0.owner@ == username@ || by_name || by_right)
        }),
{
}

/// What a user may do in a channel: the owner anything that is known; who has a role what
/// the channel records for it, else what the server does; anyone else view, in a public
/// server.
pub proof fn who_may_act(
    server: Option<&ServerRecord>,
    user: &str,
    role: &Option<String>,
    in_channel: Option<(bool, bool, bool)>,
    recorded: Option<(bool, bool, bool)>,
    action: &str,
    r: bool,
)
    requires
        call_ensures(
            can_access_channel,
            (server, user, role, in_channel, recorded, action),
            r,
        ),
        action@ == "view"@ || action@ == "send"@ || action@ == "manage"@,
    ensures
        ({
            let own = server->0.owner@ == user@;
            let pick = |rights: (bool, bool, bool)|
                if action@ == "view"@ {
                    rights.0
                } else if action@ == "send"@ {
                    rights.1
                } else {
                    rights.2
                };
            &&& server is None ==> !r
            &&& server is Some && own ==> r
            &&& server is Some && !own && role is None ==> (r <==> server->0.is_public != 0
                && action@ == "view"@)
            &&& server is Some && !own && role is Some && in_channel is Some ==> r == pick(
                in_channel->0,
            )
            &&& server is Some && !own && role is Some && in_channel is None && role->0@
                == "owner"@ ==> r
            &&& server is Some && !own && role is Some && in_channel is None && role->0@
                != "owner"@ && recorded is Some ==> r == pick(recorded->0)
            &&& server is Some && !own && role is Some && in_channel is None && role->0@
                != "owner"@ && recorded is None ==> r == (action@ != "manage"@ || role->0@
                == "admin"@)
        }),
{
    actions_differ();
}

/// A message is deleted by its sender; one in a channel also by who manages the server by
/// name or owns it, and by who may manage the channel, and by no one else.
pub proof fn who_may_delete(
    msg: &Message,
    user: &str,
    server: Option<&ServerRecord>,
    role: &Option<String>,
    in_channel: Option<(bool, bool, bool)>,
    recorded: Option<(bool, bool, bool)>,
    r: bool,
)
    requires
        call_ensures(
            can_delete_message,
            (msg, user, server, role, in_channel, recorded),
            r,
        ),
    ensures
        ({
            let (view, send, manage) = if in_channel is Some {
                in_channel->0
            } else {
                recorded->0
            };
            let by_name = role is Some && (role->0@ == "owner"@ || role->0@ == "admin"@);
            let by_right = role is Some && (in_channel is Some || recorded is Some) && manage;
            r <==> {
                ||| msg.sender@ == user@
                ||| msg.server_id is Some && server is Some && (server->0.owner@ == user@ || by_name
                    || (msg.channel_id is Some && by_right))
            }
        }),
{
    actions_differ();
    builtin_differ();
}

/// A message outside any server is read by its two ends; one of a server only by those whom
/// the server is open to, and of those by its owner, its sender, and who may view the
/// channel.
pub proof fn who_may_read(
    msg: &Message,
    user: &str,
    server: Option<&ServerRecord>,
    role: &Option<String>,
    in_channel: Option<(bool, bool, bool)>,
    recorded: Option<(bool, bool, bool)>,
    r: bool,
    action: &str,
    views_channel: bool,
)
    requires
        call_ensures(
            can_access_message,
            (msg, user, server, role, in_channel, recorded),
            r,
        ),
        action@ == "view"@,
        call_ensures(
            can_access_channel,
            (server, user, role, in_channel, recorded, action),
            views_channel,
        ),
    ensures
        msg.server_id is None ==> (r <==> msg.sender@ == user@ || msg.receiver@ == user@),
        msg.server_id is Some && server is None ==> !r,
        msg.server_id is Some && server is Some ==> {
            let open = server->0.is_public != 0 || server->0.owner@ == user@ || role is Some;
            let part = server->0.owner@ == user@ || msg.sender@ == user@;
            let seen = if msg.channel_id is Some {
                views_channel
            } else {
                server->0.is_public != 0
            };
            r <==> open && (part || seen)
        },
{
}

/// A channel's messages go to those asked about, in their order, who may see them: the
/// owner; members by the rights on record for their role, the channel's before the
/// server's; anyone else in a public server.
pub proof fn who_is_sent_a_channel_message(
    server: &ServerRecord,
    channel_id: &str,
    viewers: &Vec<String>,
    channel_rows: &Vec<ChannelRow>,
    role_rows: &Vec<RoleRow>,
    member_rows: &Vec<MemberRow>,
    r: Vec<String>,
)
    requires
        call_ensures(
            resolve_server_message_viewers,
            (server, channel_id, viewers, channel_rows, role_rows, member_rows),
            r,
        ),
    ensures
        ({
            let owner = server.owner@;
            let is_public = server.is_public != 0;
            let members = member_roles(member_rows@);
            let in_channel = channel_rights(channel_rows@, server.id@, channel_id@);
            let in_server = role_rights(role_rows@, server.id@);
            text::texts(r@) == text::texts(viewers@).filter(
                |v: Seq<char>|
                    if v == owner {
                        true
                    } else if !members.contains_key(v) {
                        is_public
                    } else if in_channel.contains_key(members[v]) {
                        in_channel[members[v]].0
                    } else if in_server.contains_key(members[v]) {
                        in_server[members[v]].0
                    } else {
                        true
                    },
            )
        }),
{
    let members = member_roles(member_rows@);
    let in_channel = channel_rights(channel_rows@, server.id@, channel_id@);
    let in_server = role_rights(role_rows@, server.id@);
    let owner = server.owner@;
    let is_public = server.is_public != 0;
    let stated = |v: Seq<char>|
        if v == owner {
            true
        } else if !members.contains_key(v) {
            is_public
        } else if in_channel.contains_key(members[v]) {
            in_channel[members[v]].0
        } else if in_server.contains_key(members[v]) {
            in_server[members[v]].0
        } else {
            true
        };
    let meant = |v: Seq<char>| may_receive(server@, v, members, in_channel, in_server);
    receivers_keep_their_order(server@, text::texts(viewers@), members, in_channel, in_server);
    assert forall|v: Seq<char>| stated(v) == #[trigger] meant(v) by {
        who_receives(server@, v, members, in_channel, in_server);
    }
    same_filters(text::texts(viewers@), meant, stated);
}

proof fn same_filters(
    s: Seq<Seq<char>>,
    a: spec_fn(Seq<char>) -> bool,
    b: spec_fn(Seq<char>) -> bool,
)
    requires
        forall|x: Seq<char>| b(x) == #[trigger] a(x),
    ensures
        s.filter(a) == s.filter(b),
    decreases s.len(),
{
    reveal(Seq::filter);
    if s.len() > 0 {
        same_filters(s.drop_last(), a, b);
        assert(b(s.last()) == a(s.last()));
    }
}

/// A server's answer says of it what is kept, field by field, the user's own role, and how
/// many members there are.
pub proof fn what_an_answer_says_of_a_server(
    server: &ServerRecord,
    viewer: &str,
    membership: Option<String>,
    channels: Vec<ChannelResponse>,
    channel_rows: &Vec<ChannelRow>,
    role_rows: &Vec<RoleRow>,
    member_count: i64,
    r: ServerResponse,
)
    requires
        call_ensures(
            build_server_response,
            (server, viewer, membership, channels, channel_rows, role_rows, member_count),
            r,
        ),
    ensures
        r.id@ == server.id@,
        r.name@ == server.name@,
        r.description@ == server.description@,
        r.icon@ == server.icon@,
        r.color@ == server.color@,
        r.join_link@ == server.join_link@,
        r.owner@ == server.owner@,
        r.is_public <==> server.is_public != 0,
        r.member_count == member_count,
        text::trimmed(viewer@).len() > 0 && viewer@ == server.owner@ ==> r.my_role is Some
            && r.my_role->0@ == "owner"@,
        text::trimmed(viewer@).len() > 0 && viewer@ != server.owner@ ==> (r.my_role is Some
            <==> membership is Some) && (membership is Some ==> r.my_role->0@ == membership->0@),
        viewer@ == server.owner@ ==> records::channels_model(r.channels@)
            == records::channels_model(channels@),
{
    servers_are_shown_as_kept(
        *server,
        viewer@,
        text::opt_text(membership),
        records::channels_model(channels@),
        channel_rows@,
        role_rows@,
        member_count as int,
        r,
    );
    managers_are_shown_every_channel(
        server@,
        viewer@,
        text::opt_text(membership),
        records::channels_model(channels@),
        channel_rows@,
        role_rows@,
        member_count as int,
    );
    assert(r@.my_role == text::opt_text(r.my_role));
}

/// A list of channels is answered only to those whom the server is open to, as the server's
/// own answer has it.
pub proof fn who_is_shown_channels(
    server: &Lookup<ServerRecord>,
    viewer: &str,
    membership: Option<String>,
    channels: Vec<ChannelResponse>,
    channel_rows: &Vec<ChannelRow>,
    role_rows: &Vec<RoleRow>,
    r: Result<Vec<ChannelResponse>, Refusal>,
    shown: ServerResponse,
    member_count: i64,
)
    requires
        call_ensures(
            list_channels,
            (server, viewer, membership, channels, channel_rows, role_rows),
            r,
        ),
        server is Found ==> call_ensures(
            build_server_response,
            (
                &server->Found_0,
                viewer,
                membership,
                channels,
                channel_rows,
                role_rows,
                member_count,
            ),
            shown,
        ),
    ensures
        server is Failed ==> r == Err::<Vec<ChannelResponse>, Refusal>(Refusal::Internal),
        server is Missing ==> r == Err::<Vec<ChannelResponse>, Refusal>(Refusal::Forbidden),
        server is Found ==> {
            let open = server->Found_0.is_public != 0 || server->Found_0.owner@ == viewer@ || (
            membership is Some && text::trimmed(viewer@).len() > 0);
            &&& r is Ok <==> open
            &&& r is Err ==> r->Err_0 == Refusal::Forbidden
            &&& r is Ok ==> records::channels_model(r->Ok_0@) == records::channels_model(
                shown.channels@,
            )
        },
{
}

/// The channels that a member sees are those of the server, in their order, in which the
/// rights on record let their role view; a server that is not there has none.
pub proof fn which_channels_are_seen(
    server: Option<&ServerRecord>,
    viewer: &str,
    role: &Option<String>,
    channels: Vec<ChannelResponse>,
    channel_rows: &Vec<ChannelRow>,
    role_rows: &Vec<RoleRow>,
    r: Vec<ChannelResponse>,
)
    requires
        call_ensures(
            visible_channels_for_server,
            (server, viewer, role, channels, channel_rows, role_rows),
            r,
        ),
        text::trimmed(viewer@).len() > 0,
    ensures
        server is None ==> r@.len() == 0,
        server is Some && role is Some && viewer@ != server->0.owner@ ==> {
            let id = server->0.id@;
            let name = role->0@;
            let in_server = with_builtin(role_rights(role_rows@, id));
            records::channels_model(r@) == records::channels_model(channels@).filter(
                |c: ChannelModel|
                    role_may(channel_rights(channel_rows@, id, c.id), in_server, name, "view"@),
            )
        },
{
    assert(records::channels_model(r@).len() == r@.len());
    if server is Some && role is Some && viewer@ != server->0.owner@ {
        seen_channels_keep_their_order(
            records::channels_model(channels@),
            channel_rows@,
            server->0.id@,
            with_builtin(role_rights(role_rows@, server->0.id@)),
            role->0@,
        );
    }
}

/// A list of servers has one answer for each of them, in their order, which says of it what
/// is kept, field by field, and what the rows count.
pub proof fn what_a_list_says_of_servers(
    records: &Vec<ServerRecord>,
    viewer: &str,
    counts: &Vec<CountRow>,
    memberships: &Vec<MembershipRow>,
    channels: &Vec<ChannelRecord>,
    channel_rows: &Vec<ChannelRow>,
    role_rows: &Vec<RoleRow>,
    r: Vec<ServerResponse>,
    i: int,
)
    requires
        call_ensures(
            build_server_responses_batch,
            (records, viewer, counts, memberships, channels, channel_rows, role_rows),
            r,
        ),
    ensures
        r@.len() == records@.len(),
        0 <= i < r@.len() ==> {
            let server = records@[i];
            &&& r@[i].id@ == server.id@
            &&& r@[i].name@ == server.name@
            &&& r@[i].description@ == server.description@
            &&& r@[i].icon@ == server.icon@
            &&& r@[i].color@ == server.color@
            &&& r@[i].join_link@ == server.join_link@
            &&& r@[i].owner@ == server.owner@
            &&& r@[i].is_public <==> server.is_public != 0
            &&& r@[i].member_count == count_of(counts@, server.id@)
        },
{
    let listed = records::servers_model(r@);
    assert(listed.len() == r@.len());
    if 0 <= i < r@.len() {
        assert(listed[i] == r@[i]@);
    }
}

/// The owner of a server in a list, each of whose servers has its own id, is shown all of
/// its channels, and their role is `owner`; a member's is what the rows say.
pub proof fn whom_a_list_is_for(
    records: &Vec<ServerRecord>,
    viewer: &str,
    counts: &Vec<CountRow>,
    memberships: &Vec<MembershipRow>,
    channels: &Vec<ChannelRecord>,
    channel_rows: &Vec<ChannelRow>,
    role_rows: &Vec<RoleRow>,
    r: Vec<ServerResponse>,
    i: int,
)
    requires
        call_ensures(
            build_server_responses_batch,
            (records, viewer, counts, memberships, channels, channel_rows, role_rows),
            r,
        ),
        0 <= i < records@.len(),
        text::trimmed(viewer@).len() > 0,
        forall|a: int, b: int|
            0 <= a < b < records@.len() ==> (#[trigger] records@[a]).id@ != (
            #[trigger] records@[b]).id@,
    ensures
        i < r@.len(),
        viewer@ == records@[i].owner@ ==> r@[i].my_role is Some && r@[i].my_role->0@ == "owner"@
            && records::channels_model(r@[i].channels@) == records::channels_of(
            channels@,
            records@[i].id@,
        ),
        viewer@ != records@[i].owner@ ==> {
            let membership = membership_of(memberships@, records@[i].id@);
            &&& r@[i].my_role is Some <==> membership is Some
            &&& membership is Some ==> r@[i].my_role->0@ == membership->0
            &&& membership is None ==> records::channels_model(r@[i].channels@) == (
            if records@[i].is_public != 0 {
                records::channels_of(channels@, records@[i].id@)
            } else {
                Seq::empty()
            })
        },
{
    let listed = records::servers_model(r@);
    assert(listed.len() == r@.len());
    assert(listed[i] == r@[i]@);
    list_agrees_with_single(
        records@,
        i,
        viewer@,
        counts@,
        memberships@,
        channels@,
        channel_rows@,
        role_rows@,
    );
    let membership = membership_of(memberships@, records@[i].id@);
    managers_are_shown_every_channel(
        records@[i]@,
        viewer@,
        membership,
        records::channels_of(channels@, records@[i].id@),
        channel_rows@,
        role_rows@,
        count_of(counts@, records@[i].id@),
    );
    assert(r@[i]@.my_role == text::opt_text(r@[i].my_role));
}

} // verus!
