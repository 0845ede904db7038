//! Roles: their names, their rights, and how they are made and changed.

use crate::access::ChannelRow;
use crate::access::Rights;
use crate::ids;
use crate::refusal::Refusal;
use crate::text;
use vstd::prelude::*;
use vstd::string::*;

verus! {

// ---------------------------------------------------------------------------
// Names
// ---------------------------------------------------------------------------

/// The kind of a channel that a client names: `voice`, or else `text`.
pub open spec fn channel_kind(kind: Option<Seq<char>>) -> Seq<char> {
    if kind is Some && text::lowercase(text::trimmed(kind->0)) == "voice"@ {
        "voice"@
    } else {
        "text"@
    }
}

/// The kind of a channel that a client names.
pub fn normalize_channel_kind(kind: Option<&str>) -> (r: String)
    ensures
        r@ == channel_kind(text::opt_str(kind)),
{
    match kind {
        Some(name) => {
            let value = text::to_lowercase(text::trim(name));
            if text::str_eq(value.as_str(), "voice") {
                "voice".to_string()
            } else {
                "text".to_string()
            }
        },
        None => "text".to_string(),
    }
}

/// The built-in role that a client names, if it is one.
pub open spec fn builtin_role(role: Option<Seq<char>>) -> Option<Seq<char>> {
    if role is None {
        None
    } else {
        let value = text::lowercase(text::trimmed(role->0));
        if value == "owner"@ || value == "admin"@ || value == "member"@ {
            Some(value)
        } else {
            None
        }
    }
}

/// The built-in role that a client names, if it is one.
pub fn normalize_server_role(role: Option<&str>) -> (r: Option<String>)
    ensures
        text::opt_text(r) == builtin_role(text::opt_str(role)),
{
    match role {
        Some(name) => {
            let value = text::to_lowercase(text::trim(name));
            if text::str_eq(value.as_str(), "owner") || text::str_eq(value.as_str(), "admin")
                || text::str_eq(value.as_str(), "member") {
                Some(value)
            } else {
                None
            }
        },
        None => None,
    }
}

/// What a client's words for a member's role come to.
pub enum RoleInput {
    /// The role is known.
    Known(String),
    /// The words may name a role of the server, under this id.
    Custom(String),
}

/// The role that a client names for a member: none or blank is `member`; a
/// built-in role; else, as written without white space at its ends, a role of the
/// server.
pub fn member_role_input(role: Option<&str>) -> (r: RoleInput)
    ensures
        ({
            let raw = match role {
                Some(name) => text::trimmed(name@),
                None => "member"@,
            };
            match r {
                RoleInput::Known(name) => (raw.len() == 0 && name@ == "member"@) || (raw.len() > 0
                    && builtin_role(Some(raw)) == Some(name@)),
                RoleInput::Custom(id) => raw.len() > 0 && builtin_role(Some(raw)) is None && id@
                    == raw,
            }
        }),
{
    let raw = match role {
        Some(name) => text::trim(name),
        None => {
            proof {
                member_is_builtin();
            }
            "member"
        },
    };
    if raw.is_empty() {
        return RoleInput::Known("member".to_string());
    }
    match normalize_server_role(Some(raw)) {
        Some(name) => RoleInput::Known(name),
        None => RoleInput::Custom(raw.to_string()),
    }
}

/// The role that a client names for a member, where `custom` is the id under
/// which the server keeps the role named, if it has one.
pub open spec fn resolved_role(
    role: Option<Seq<char>>,
    custom: Option<Seq<char>>,
) -> Option<Seq<char>> {
    let raw = match role {
        Some(name) => text::trimmed(name),
        None => "member"@,
    };
    if raw.len() == 0 {
        Some("member"@)
    } else if builtin_role(Some(raw)) is Some {
        builtin_role(Some(raw))
    } else {
        custom
    }
}

/// The role that a client names for a member, if there is such a role.
pub fn resolve_member_role_input(role: Option<&str>, custom: Option<String>) -> (r: Option<String>)
    ensures
        text::opt_text(r) == resolved_role(text::opt_str(role), text::opt_text(custom)),
{
    match member_role_input(role) {
        RoleInput::Known(name) => Some(name),
        RoleInput::Custom(_) => custom,
    }
}

/// The role under which a member is kept: a built-in one, or else `member`.
pub open spec fn kept_role(role: Seq<char>) -> Seq<char> {
    match builtin_role(Some(role)) {
        Some(name) => name,
        None => "member"@,
    }
}

/// The role under which a member is kept.
pub fn stored_member_role(role: &str) -> (r: String)
    ensures
        r@ == kept_role(role@),
{
    match normalize_server_role(Some(role)) {
        Some(name) => name,
        None => "member".to_string(),
    }
}

// ---------------------------------------------------------------------------
// Role ids
// ---------------------------------------------------------------------------

/// The characters of a slug so far: letters and digits stay, white space, hyphens
/// and underscores become one hyphen, anything else goes.
pub open spec fn slug_chars(s: Seq<char>) -> Seq<char>
    decreases s.len(),
{
    if s.len() == 0 {
        s
    } else {
        let out = slug_chars(s.drop_last());
        let c = s.last();
        if text::ascii_alphanumeric(c) {
            out.push(c)
        } else if (text::white_space(c) || c == '-' || c == '_') && !(out.len() > 0 && out.last()
            == '-') {
            out.push('-')
        } else {
            out
        }
    }
}

/// A text without hyphens at its start.
pub open spec fn without_leading_hyphens(s: Seq<char>) -> Seq<char>
    decreases s.len(),
{
    if s.len() > 0 && s[0] == '-' {
        without_leading_hyphens(s.drop_first())
    } else {
        s
    }
}

/// A text without hyphens at its end.
pub open spec fn without_trailing_hyphens(s: Seq<char>) -> Seq<char>
    decreases s.len(),
{
    if s.len() > 0 && s.last() == '-' {
        without_trailing_hyphens(s.drop_last())
    } else {
        s
    }
}

/// The slug of a role's name; `role` where nothing is left of it.
pub open spec fn slug(name: Seq<char>) -> Seq<char> {
    let core = without_trailing_hyphens(
        without_leading_hyphens(slug_chars(text::lowercase(name))),
    );
    if core.len() == 0 {
        "role"@
    } else {
        core
    }
}

fn slugged(value: &str) -> (r: Vec<char>)
    ensures
        r@ == slug_chars(value@),
{
    let chars = text::chars_of(value);
    let mut out: Vec<char> = Vec::new();
    let mut i: usize = 0;
    proof {
        assert(out@ =~= slug_chars(value@.take(0)));
    }
    while i < chars.len()
        invariant
            chars@ == value@,
            i <= chars@.len(),
            out@ == slug_chars(value@.take(i as int)),
        decreases chars@.len() - i,
    {
        proof {
            assert(value@.take(i as int + 1).drop_last() =~= value@.take(i as int));
        }
        let c = chars[i];
        if text::is_ascii_alphanumeric(c) {
            out.push(c);
        } else if text::is_white_space(c) || c == '-' || c == '_' {
            if !(out.len() > 0 && out[out.len() - 1] == '-') {
                out.push('-');
            }
        }
        i += 1;
    }
    proof {
        assert(value@.take(value@.len() as int) == value@);
    }
    out
}

/// The slug of a role's name. It is in lower case, and its own slug.
pub fn slug_role_id(value: &str) -> (r: String)
    ensures
        r@ == slug(value@),
        text::no_ascii_upper(r@),
        slug(r@) == r@,
{
    let lower = text::to_lowercase(value);
    proof {
        slug_idempotent(value@);
    }
    let chars = slugged(lower.as_str());
    let mut from: usize = 0;
    proof {
        assert(chars@.skip(0) == chars@);
    }
    while from < chars.len() && chars[from] == '-'
        invariant
            from <= chars@.len(),
            without_leading_hyphens(chars@) == without_leading_hyphens(chars@.skip(from as int)),
        decreases chars@.len() - from,
    {
        proof {
            assert(chars@.skip(from as int).drop_first() =~= chars@.skip(from as int + 1));
        }
        from += 1;
    }
    let mut to: usize = chars.len();
    proof {
        assert(without_leading_hyphens(chars@) == chars@.skip(from as int));
        assert(chars@.subrange(from as int, to as int) =~= chars@.skip(from as int));
    }
    while to > from && chars[to - 1] == '-'
        invariant
            from <= to <= chars@.len(),
            without_trailing_hyphens(chars@.skip(from as int)) == without_trailing_hyphens(
                chars@.subrange(from as int, to as int),
            ),
        decreases to - from,
    {
        proof {
            assert(chars@.subrange(from as int, to as int).drop_last() =~= chars@.subrange(
                from as int,
                to as int - 1,
            ));
        }
        to -= 1;
    }
    if from == to {
        return "role".to_string();
    }
    text::string_of(&chars, from, to)
}

/// The id of a role: the slug of its name, a hyphen, and the first six characters
/// of a random text.
pub open spec fn role_id_of(name: Seq<char>, random: Seq<char>) -> Seq<char> {
    slug(name) + "-"@ + random.take(6)
}

fn make_role_id(name: &str, random: &str) -> (r: String)
    requires
        random@.len() >= 6,
    ensures
        r@ == role_id_of(name@, random@),
{
    let base = slug_role_id(name);
    text::join3(base.as_str(), "-", text::prefix(random, 6).as_str())
}

// ---------------------------------------------------------------------------
// Rights
// ---------------------------------------------------------------------------

/// What a role may do.
#[derive(Debug, Clone, Copy, PartialEq, Eq, Structural)]
pub struct RoleFlags {
    pub view: bool,
    pub send: bool,
    pub manage: bool,
    pub manage_channels: bool,
    pub manage_roles: bool,
    pub invite: bool,
    pub attach: bool,
    pub embed: bool,
    pub react: bool,
    pub pin: bool,
    pub mention: bool,
    pub voice: bool,
    pub kick: bool,
    pub ban: bool,
}

/// What a client says that a role may do; what it leaves open is `None`.
#[derive(Debug, Clone, Copy, PartialEq, Eq, Structural)]
pub struct FlagInput {
    pub view: Option<bool>,
    pub send: Option<bool>,
    pub manage: Option<bool>,
    pub manage_channels: Option<bool>,
    pub manage_roles: Option<bool>,
    pub invite: Option<bool>,
    pub attach: Option<bool>,
    pub embed: Option<bool>,
    pub react: Option<bool>,
    pub pin: Option<bool>,
    pub mention: Option<bool>,
    pub voice: Option<bool>,
    pub kick: Option<bool>,
    pub ban: Option<bool>,
}

/// What is said, or else a default.
pub open spec fn or_else(said: Option<bool>, default: bool) -> bool {
    match said {
        Some(b) => b,
        None => default,
    }
}

fn said_or(said: Option<bool>, default: bool) -> (r: bool)
    ensures
        r == or_else(said, default),
{
    match said {
        Some(b) => b,
        None => default,
    }
}

/// Rights in which what a client left open is filled in.
pub open spec fn filled(input: FlagInput, base: RoleFlags) -> RoleFlags {
    RoleFlags {
        view: or_else(input.view, base.view),
        send: or_else(input.send, base.send),
        manage: or_else(input.manage, base.manage),
        manage_channels: or_else(input.manage_channels, base.manage_channels),
        manage_roles: or_else(input.manage_roles, base.manage_roles),
        invite: or_else(input.invite, base.invite),
        attach: or_else(input.attach, base.attach),
        embed: or_else(input.embed, base.embed),
        react: or_else(input.react, base.react),
        pin: or_else(input.pin, base.pin),
        mention: or_else(input.mention, base.mention),
        voice: or_else(input.voice, base.voice),
        kick: or_else(input.kick, base.kick),
        ban: or_else(input.ban, base.ban),
    }
}

fn fill(input: &FlagInput, base: &RoleFlags) -> (r: RoleFlags)
    ensures
        r == filled(*input, *base),
{
    RoleFlags {
        view: said_or(input.view, base.view),
        send: said_or(input.send, base.send),
        manage: said_or(input.manage, base.manage),
        manage_channels: said_or(input.manage_channels, base.manage_channels),
        manage_roles: said_or(input.manage_roles, base.manage_roles),
        invite: said_or(input.invite, base.invite),
        attach: said_or(input.attach, base.attach),
        embed: said_or(input.embed, base.embed),
        react: said_or(input.react, base.react),
        pin: said_or(input.pin, base.pin),
        mention: said_or(input.mention, base.mention),
        voice: said_or(input.voice, base.voice),
        kick: said_or(input.kick, base.kick),
        ban: said_or(input.ban, base.ban),
    }
}

/// The rights of a new role of which nothing is said.
pub open spec fn new_role_flags() -> RoleFlags {
    RoleFlags {
        view: true,
        send: true,
        manage: false,
        manage_channels: false,
        manage_roles: false,
        invite: true,
        attach: true,
        embed: true,
        react: true,
        pin: false,
        mention: false,
        voice: true,
        kick: false,
        ban: false,
    }
}

/// The rights of an admin: all of them.
pub open spec fn admin_flags() -> RoleFlags {
    RoleFlags {
        view: true,
        send: true,
        manage: true,
        manage_channels: true,
        manage_roles: true,
        invite: true,
        attach: true,
        embed: true,
        react: true,
        pin: true,
        mention: true,
        voice: true,
        kick: true,
        ban: true,
    }
}

/// The rights of a member.
pub open spec fn member_flags() -> RoleFlags {
    RoleFlags {
        view: true,
        send: true,
        manage: false,
        manage_channels: false,
        manage_roles: false,
        invite: false,
        attach: true,
        embed: true,
        react: true,
        pin: false,
        mention: false,
        voice: true,
        kick: false,
        ban: false,
    }
}

impl RoleFlags {
    /// The rights that count for access.
    pub open spec fn rights(self) -> Rights {
        (self.view, self.send, self.manage)
    }
}

/// A role of a server.
#[derive(Debug)]
pub struct ServerRole {
    pub role_id: String,
    pub name: String,
    pub color: String,
    pub flags: RoleFlags,
    pub position: i64,
}

/// The model of a role of a server.
pub struct RoleModel {
    pub role_id: Seq<char>,
    pub name: Seq<char>,
    pub color: Seq<char>,
    pub flags: RoleFlags,
    pub position: int,
}

impl View for ServerRole {
    type V = RoleModel;

    open spec fn view(&self) -> RoleModel {
        RoleModel {
            role_id: self.role_id@,
            name: self.name@,
            color: self.color@,
            flags: self.flags,
            position: self.position as int,
        }
    }
}

/// A role of a server as it is kept, its rights as numbers.
#[derive(Debug)]
pub struct ServerRoleRecord {
    pub role_id: String,
    pub name: String,
    pub color: String,
    pub can_view: i64,
    pub can_send: i64,
    pub can_manage: i64,
    pub can_manage_channels: i64,
    pub can_manage_roles: i64,
    pub can_invite: i64,
    pub can_attach: i64,
    pub can_embed: i64,
    pub can_react: i64,
    pub can_pin: i64,
    pub can_mention: i64,
    pub can_voice: i64,
    pub can_kick: i64,
    pub can_ban: i64,
    pub position: i64,
}

impl ServerRoleRecord {
    /// The rights that the numbers stand for: any but zero is a right.
    pub open spec fn flags(&self) -> RoleFlags {
        RoleFlags {
            view: self.can_view != 0,
            send: self.can_send != 0,
            manage: self.can_manage != 0,
            manage_channels: self.can_manage_channels != 0,
            manage_roles: self.can_manage_roles != 0,
            invite: self.can_invite != 0,
            attach: self.can_attach != 0,
            embed: self.can_embed != 0,
            react: self.can_react != 0,
            pin: self.can_pin != 0,
            mention: self.can_mention != 0,
            voice: self.can_voice != 0,
            kick: self.can_kick != 0,
            ban: self.can_ban != 0,
        }
    }

    /// The role that is kept.
    pub open spec fn role(&self) -> RoleModel {
        RoleModel {
            role_id: self.role_id@,
            name: self.name@,
            color: self.color@,
            flags: self.flags(),
            position: self.position as int,
        }
    }

    /// The role that is kept.
    pub fn to_role(&self) -> (r: ServerRole)
        ensures
            r@ == self.role(),
    {
        ServerRole {
            role_id: self.role_id.clone(),
            name: self.name.clone(),
            color: self.color.clone(),
            flags: RoleFlags {
                view: self.can_view != 0,
                send: self.can_send != 0,
                manage: self.can_manage != 0,
                manage_channels: self.can_manage_channels != 0,
                manage_roles: self.can_manage_roles != 0,
                invite: self.can_invite != 0,
                attach: self.can_attach != 0,
                embed: self.can_embed != 0,
                react: self.can_react != 0,
                pin: self.can_pin != 0,
                mention: self.can_mention != 0,
                voice: self.can_voice != 0,
                kick: self.can_kick != 0,
                ban: self.can_ban != 0,
            },
            position: self.position,
        }
    }
}

/// What a client says of a role.
#[derive(Debug)]
pub struct ServerRolePayload {
    pub name: String,
    pub color: Option<String>,
    pub flags: FlagInput,
}

/// The colour of a role of which none is said.
pub open spec fn color_or(color: Option<Seq<char>>, default: Seq<char>) -> Seq<char> {
    match color {
        Some(c) => c,
        None => default,
    }
}

/// A new role, where `random` is a random text.
pub open spec fn new_role(
    payload: ServerRolePayload,
    random: Seq<char>,
    position: int,
) -> RoleModel {
    let name = text::trimmed(payload.name@);
    RoleModel {
        role_id: role_id_of(name, random),
        name,
        color: color_or(text::opt_text(payload.color), "#cbff00"@),
        flags: filled(payload.flags, new_role_flags()),
        position,
    }
}

/// A new role, where `random` is a random text; none for a blank name.
pub fn make_server_role(payload: &ServerRolePayload, random: &str, position: i64) -> (r: Option<
    ServerRole,
>)
    requires
        random@.len() >= 6,
    ensures
        match r {
            Some(role) => !text::blank(payload.name@) && role@ == new_role(
                *payload,
                random@,
                position as int,
            ),
            None => text::blank(payload.name@),
        },
{
    let name = text::trim(payload.name.as_str());
    if name.is_empty() {
        return None;
    }
    let base = RoleFlags {
        view: true,
        send: true,
        manage: false,
        manage_channels: false,
        manage_roles: false,
        invite: true,
        attach: true,
        embed: true,
        react: true,
        pin: false,
        mention: false,
        voice: true,
        kick: false,
        ban: false,
    };
    let color = match &payload.color {
        Some(c) => c.clone(),
        None => "#cbff00".to_string(),
    };
    Some(
        ServerRole {
            role_id: make_role_id(name, random),
            name: name.to_string(),
            color,
            flags: fill(&payload.flags, &base),
            position,
        },
    )
}

/// A new role with a random id; none for a blank name. Which id is drawn is
/// chance.
pub fn create_server_role_record(payload: &ServerRolePayload, position: i64) -> (r: Option<
    ServerRole,
>)
    ensures
        match r {
            Some(role) => !text::blank(payload.name@) && exists|random: Seq<char>| #[trigger]
                ids::simple_uuid(random) && role@ == new_role(*payload, random, position as int),
            None => text::blank(payload.name@),
        },
{
    let random = ids::new_simple_uuid();
    make_server_role(payload, random.as_str(), position)
}

/// A role after a client's changes: what is left open stays.
pub open spec fn changed_role(current: RoleModel, payload: ServerRolePayload) -> RoleModel {
    RoleModel {
        role_id: current.role_id,
        name: if text::blank(payload.name@) {
            current.name
        } else {
            text::trimmed(payload.name@)
        },
        color: color_or(text::opt_text(payload.color), current.color),
        flags: filled(payload.flags, current.flags),
        position: current.position,
    }
}

/// A role after a client's changes.
pub fn update_server_role_record(current: &ServerRoleRecord, payload: &ServerRolePayload) -> (r:
    ServerRole)
    ensures
        r@ == changed_role(current.role(), *payload),
{
    let role = current.to_role();
    let name = text::trim(payload.name.as_str());
    let next_name = if name.is_empty() {
        role.name
    } else {
        name.to_string()
    };
    let next_color = match &payload.color {
        Some(c) => c.clone(),
        None => role.color,
    };
    ServerRole {
        role_id: role.role_id,
        name: next_name,
        color: next_color,
        flags: fill(&payload.flags, &role.flags),
        position: role.position,
    }
}

/// Whether a role can be deleted: any but the built-in ones.
pub open spec fn deletable(role_id: Seq<char>) -> bool {
    role_id != "member"@ && role_id != "admin"@ && role_id != "owner"@
}

/// A role is to be deleted: the role that those get who had it. A built-in one is
/// not deleted.
pub fn delete_server_role_record(role_id: &str) -> (r: Result<String, Refusal>)
    ensures
        match r {
            Ok(instead) => deletable(role_id@) && instead@ == "member"@,
            Err(e) => !deletable(role_id@) && e == Refusal::Internal,
        },
{
    if text::str_eq(role_id, "member") || text::str_eq(role_id, "admin") || text::str_eq(
        role_id,
        "owner",
    ) {
        return Err(Refusal::Internal);
    }
    Ok("member".to_string())
}

/// The roles that every server starts with.
pub open spec fn default_roles() -> Seq<RoleModel> {
    seq![
        RoleModel {
            role_id: "member"@,
            name: "Участник"@,
            color: "#5f6a7a"@,
            flags: member_flags(),
            position: 0,
        },
        RoleModel {
            role_id: "admin"@,
            name: "Админ"@,
            color: "#8c7bff"@,
            flags: admin_flags(),
            position: 1,
        },
    ]
}

/// The models of a list of roles.
pub open spec fn roles_model(v: Seq<ServerRole>) -> Seq<RoleModel> {
    v.map_values(|r: ServerRole| r@)
}

/// The roles that every server starts with.
pub fn default_server_roles() -> (r: Vec<ServerRole>)
    ensures
        roles_model(r@) == default_roles(),
{
    let mut out: Vec<ServerRole> = Vec::new();
    out.push(
        ServerRole {
            role_id: "member".to_string(),
            name: "Участник".to_string(),
            color: "#5f6a7a".to_string(),
            flags: RoleFlags {
                view: true,
                send: true,
                manage: false,
                manage_channels: false,
                manage_roles: false,
                invite: false,
                attach: true,
                embed: true,
                react: true,
                pin: false,
                mention: false,
                voice: true,
                kick: false,
                ban: false,
            },
            position: 0,
        },
    );
    out.push(
        ServerRole {
            role_id: "admin".to_string(),
            name: "Админ".to_string(),
            color: "#8c7bff".to_string(),
            flags: RoleFlags {
                view: true,
                send: true,
                manage: true,
                manage_channels: true,
                manage_roles: true,
                invite: true,
                attach: true,
                embed: true,
                react: true,
                pin: true,
                mention: true,
                voice: true,
                kick: true,
                ban: true,
            },
            position: 1,
        },
    );
    proof {
        assert(roles_model(out@) =~= default_roles());
    }
    out
}

/// Whether a server still has to get its first roles: it has none.
pub fn needs_default_roles(role_count: i64) -> (r: bool)
    ensures
        r == (role_count == 0),
{
    role_count == 0
}

/// The roles that a server shows, each as it is kept.
pub fn server_roles(rows: &Vec<ServerRoleRecord>) -> (r: Vec<ServerRole>)
    ensures
        r@.len() == rows@.len(),
        forall|i: int| 0 <= i < r@.len() ==> (#[trigger] r@[i])@ == rows@[i].role(),
{
    let mut out: Vec<ServerRole> = Vec::new();
    let mut i: usize = 0;
    while i < rows.len()
        invariant
            i <= rows@.len(),
            out@.len() == i,
            forall|j: int| 0 <= j < i ==> (#[trigger] out@[j])@ == rows@[j].role(),
        decreases rows@.len() - i,
    {
        out.push(rows[i].to_role());
        i += 1;
    }
    out
}

// ---------------------------------------------------------------------------
// Rights in channels
// ---------------------------------------------------------------------------

/// What a client says of a role's rights in a channel.
#[derive(Debug)]
pub struct ChannelPermissionInput {
    pub role: String,
    pub can_view: Option<bool>,
    pub can_send: Option<bool>,
    pub can_manage: Option<bool>,
}

/// The rights of a role in a channel.
#[derive(Debug)]
pub struct ChannelPermission {
    pub role: String,
    pub can_view: bool,
    pub can_send: bool,
    pub can_manage: bool,
}

impl View for ChannelPermission {
    type V = (Seq<char>, Rights);

    open spec fn view(&self) -> (Seq<char>, Rights) {
        (self.role@, (self.can_view, self.can_send, self.can_manage))
    }
}

/// The models of a list of rights.
pub open spec fn permissions_model(v: Seq<ChannelPermission>) -> Seq<(Seq<char>, Rights)> {
    v.map_values(|p: ChannelPermission| p@)
}

/// The rights that a client's words come to: to view and to send unless it says
/// otherwise, to manage only if it says so. The owner's are not kept.
pub open spec fn channel_rights_input(inputs: Seq<ChannelPermissionInput>) -> Seq<
    (Seq<char>, Rights),
>
    decreases inputs.len(),
{
    if inputs.len() == 0 {
        Seq::empty()
    } else {
        let rest = channel_rights_input(inputs.drop_last());
        let input = inputs.last();
        match builtin_role(Some(input.role@)) {
            Some(role) => if role == "owner"@ {
                rest
            } else {
                rest.push(
                    (
                        role,
                        (
                            or_else(input.can_view, true),
                            or_else(input.can_send, true),
                            or_else(input.can_manage, false),
                        ),
                    ),
                )
            },
            None => rest,
        }
    }
}

/// The first place in a list where a role is none of the built-in ones.
pub open spec fn first_unknown(inputs: Seq<ChannelPermissionInput>) -> nat
    decreases inputs.len(),
{
    if inputs.len() == 0 {
        0
    } else if builtin_role(Some(inputs[0].role@)) is None {
        0
    } else {
        1 + first_unknown(inputs.drop_first())
    }
}

/// The rights to keep for a channel, in order, and whether every role in the list
/// was a built-in one. What comes before the first that is not is kept, the rest
/// is not looked at.
pub fn channel_permission_updates(inputs: &Vec<ChannelPermissionInput>) -> (r: (
    Vec<ChannelPermission>,
    bool,
))
    ensures
        permissions_model(r.0@) == channel_rights_input(inputs@.take(first_unknown(inputs@) as int)),
        r.1 == (first_unknown(inputs@) == inputs@.len()),
{
    let mut out: Vec<ChannelPermission> = Vec::new();
    let mut i: usize = 0;
    proof {
        first_unknown_bound(inputs@);
        assert(inputs@.skip(0) == inputs@);
        assert(permissions_model(out@) =~= channel_rights_input(inputs@.take(0)));
    }
    while i < inputs.len()
        invariant
            i <= inputs@.len(),
            first_unknown(inputs@) == i + first_unknown(inputs@.skip(i as int)),
            permissions_model(out@) == channel_rights_input(inputs@.take(i as int)),
        decreases inputs@.len() - i,
    {
        proof {
            assert(inputs@.skip(i as int).drop_first() =~= inputs@.skip(i as int + 1));
            assert(inputs@.skip(i as int)[0] == inputs@[i as int]);
            assert(inputs@.take(i as int + 1).drop_last() =~= inputs@.take(i as int));
        }
        let input = &inputs[i];
        let ghost before = permissions_model(out@);
        match normalize_server_role(Some(input.role.as_str())) {
            Some(role) => {
                if !text::str_eq(role.as_str(), "owner") {
                    let kept = ChannelPermission {
                        role,
                        can_view: said_or(input.can_view, true),
                        can_send: said_or(input.can_send, true),
                        can_manage: said_or(input.can_manage, false),
                    };
                    let ghost kept_model = kept@;
                    out.push(kept);
                    proof {
                        assert(permissions_model(out@) =~= before.push(kept_model));
                    }
                }
            },
            None => {
                return (out, false);
            },
        }
        i += 1;
    }
    proof {
        assert(inputs@.skip(inputs@.len() as int).len() == 0);
    }
    (out, true)
}

proof fn first_unknown_bound(inputs: Seq<ChannelPermissionInput>)
    ensures
        first_unknown(inputs) <= inputs.len(),
    decreases inputs.len(),
{
    if inputs.len() > 0 {
        first_unknown_bound(inputs.drop_first());
    }
}

/// The rights in a channel as clients see them.
pub fn channel_permissions(rows: &Vec<ChannelRow>) -> (r: Vec<ChannelPermission>)
    ensures
        r@.len() == rows@.len(),
        forall|i: int|
            0 <= i < r@.len() ==> (#[trigger] r@[i])@ == (rows@[i].role@, rows@[i].rights()),
{
    let mut out: Vec<ChannelPermission> = Vec::new();
    let mut i: usize = 0;
    while i < rows.len()
        invariant
            i <= rows@.len(),
            out@.len() == i,
            forall|j: int|
                0 <= j < i ==> (#[trigger] out@[j])@ == (rows@[j].role@, rows@[j].rights()),
        decreases rows@.len() - i,
    {
        out.push(
            ChannelPermission {
                role: rows[i].role.clone(),
                can_view: rows[i].can_view != 0,
                can_send: rows[i].can_send != 0,
                can_manage: rows[i].can_manage != 0,
            },
        );
        i += 1;
    }
    out
}

/// The right of members in a new channel, where a client says something of it.
pub open spec fn new_channel_rights(
    can_view: Option<bool>,
    can_send: Option<bool>,
) -> Option<Rights> {
    if can_view is Some || can_send is Some {
        Some((or_else(can_view, true), or_else(can_send, true), false))
    } else {
        None
    }
}

/// The right of members in a new channel, where a client says something of it.
pub fn new_channel_permission(can_view: Option<bool>, can_send: Option<bool>) -> (r: Option<
    (bool, bool, bool),
>)
    ensures
        r == new_channel_rights(can_view, can_send),
{
    if can_view.is_some() || can_send.is_some() {
        Some((said_or(can_view, true), said_or(can_send, true), false))
    } else {
        None
    }
}

// ---------------------------------------------------------------------------
// Laws
// ---------------------------------------------------------------------------

proof fn member_is_builtin()
    ensures
        builtin_role(Some("member"@)) == Some("member"@),
        text::trimmed("member"@) == "member"@,
        "member"@.len() > 0,
{
    reveal_strlit("member");
    text::trimmed_of_tight("member"@);
    text::lowercase_of_lower("member"@);
}

/// A built-in role named by its own name is that role, so naming it twice changes
/// nothing.
pub proof fn builtin_role_idempotent(role: Option<Seq<char>>)
    requires
        builtin_role(role) is Some,
    ensures
        builtin_role(builtin_role(role)) == builtin_role(role),
{
    reveal_strlit("member");
    reveal_strlit("owner");
    reveal_strlit("admin");
    let name = builtin_role(role)->0;
    text::trimmed_of_tight(name);
    text::lowercase_of_lower(name);
}

/// The kind of a channel is one of two, and naming it again changes nothing.
pub proof fn channel_kind_idempotent(kind: Option<Seq<char>>)
    ensures
        channel_kind(kind) == "voice"@ || channel_kind(kind) == "text"@,
        channel_kind(Some(channel_kind(kind))) == channel_kind(kind),
{
    reveal_strlit("voice");
    reveal_strlit("text");
    text::trimmed_of_tight(channel_kind(kind));
    text::lowercase_of_lower(channel_kind(kind));
}

/// A character that a slug can hold.
pub open spec fn slug_char(c: char) -> bool {
    text::ascii_alphanumeric(c) || c == '-'
}

proof fn slug_chars_shape(s: Seq<char>)
    ensures
        forall|i: int| 0 <= i < slug_chars(s).len() ==> slug_char(#[trigger] slug_chars(s)[i]),
        forall|i: int, j: int|
            0 <= i < slug_chars(s).len() && j == i + 1 && j < slug_chars(s).len() ==> !(
            #[trigger] slug_chars(s)[i] == '-' && #[trigger] slug_chars(s)[j] == '-'),
    decreases s.len(),
{
    if s.len() > 0 {
        slug_chars_shape(s.drop_last());
        let out = slug_chars(s.drop_last());
        let result = slug_chars(s);
        assert forall|i: int| 0 <= i < result.len() implies slug_char(#[trigger] result[i]) by {
            if i < out.len() {
                assert(result[i] == out[i]);
            }
        }
        assert forall|i: int, j: int|
            0 <= i < result.len() && j == i + 1 && j < result.len() implies !(
        #[trigger] result[i] == '-' && #[trigger] result[j] == '-') by {
            assert(result[i] == out[i]);
            if j < out.len() {
                assert(result[j] == out[j]);
            }
        }
    }
}

proof fn leading_hyphens_shape(s: Seq<char>)
    ensures
        without_leading_hyphens(s).len() <= s.len(),
        without_leading_hyphens(s) == s.skip(s.len() - without_leading_hyphens(s).len()),
        without_leading_hyphens(s).len() > 0 ==> without_leading_hyphens(s)[0] != '-',
    decreases s.len(),
{
    if s.len() > 0 && s[0] == '-' {
        leading_hyphens_shape(s.drop_first());
        let n = without_leading_hyphens(s).len() as int;
        assert(s.drop_first().skip(s.len() - 1 - n) =~= s.skip(s.len() - n));
    } else {
        assert(s.skip(0) =~= s);
    }
}

proof fn trailing_hyphens_shape(s: Seq<char>)
    ensures
        without_trailing_hyphens(s).len() <= s.len(),
        without_trailing_hyphens(s) == s.take(without_trailing_hyphens(s).len() as int),
        without_trailing_hyphens(s).len() > 0 ==> without_trailing_hyphens(s).last() != '-',
    decreases s.len(),
{
    if s.len() > 0 && s.last() == '-' {
        trailing_hyphens_shape(s.drop_last());
        let n = without_trailing_hyphens(s).len() as int;
        assert(s.drop_last().take(n) =~= s.take(n));
    } else {
        assert(s.take(s.len() as int) =~= s);
    }
}

/// A slug is never empty, holds ASCII letters, digits and hyphens only, neither
/// starts nor ends with a hyphen, and has no two in a row.
pub proof fn slug_shape(name: Seq<char>)
    ensures
        slug(name).len() > 0,
        forall|i: int| 0 <= i < slug(name).len() ==> slug_char(#[trigger] slug(name)[i]),
        slug(name)[0] != '-',
        slug(name).last() != '-',
        forall|i: int, j: int|
            0 <= i < slug(name).len() && j == i + 1 && j < slug(name).len() ==> !(
            #[trigger] slug(name)[i] == '-' && #[trigger] slug(name)[j] == '-'),
{
    reveal_strlit("role");
    let raw = slug_chars(text::lowercase(name));
    let mid = without_leading_hyphens(raw);
    let core = without_trailing_hyphens(mid);
    slug_chars_shape(text::lowercase(name));
    leading_hyphens_shape(raw);
    trailing_hyphens_shape(mid);
    if core.len() > 0 {
        let off = raw.len() - mid.len();
        assert forall|i: int| 0 <= i < core.len() implies #[trigger] core[i] == raw[off + i] by {
            assert(core[i] == mid[i]);
        }
        assert forall|i: int, j: int|
            0 <= i < core.len() && j == i + 1 && j < core.len() implies !(#[trigger] core[i] == '-'
            && #[trigger] core[j] == '-') by {
            assert(core[i] == raw[off + i]);
            assert(core[j] == raw[off + j]);
        }
    }
}

proof fn slug_chars_lower(s: Seq<char>)
    requires
        text::no_ascii_upper(s),
    ensures
        text::no_ascii_upper(slug_chars(s)),
    decreases s.len(),
{
    if s.len() > 0 {
        let init = s.drop_last();
        assert(forall|i: int| 0 <= i < init.len() ==> init[i] == s[i]);
        slug_chars_lower(init);
        assert(!text::ascii_upper(s[s.len() - 1]));
    }
}

proof fn slug_chars_of_slug(s: Seq<char>)
    requires
        forall|i: int| 0 <= i < s.len() ==> slug_char(#[trigger] s[i]),
        forall|i: int, j: int|
            0 <= i < s.len() && j == i + 1 && j < s.len() ==> !(#[trigger] s[i] == '-'
                && #[trigger] s[j] == '-'),
    ensures
        slug_chars(s) == s,
    decreases s.len(),
{
    if s.len() > 0 {
        let init = s.drop_last();
        assert(forall|i: int| 0 <= i < init.len() ==> init[i] == s[i]);
        slug_chars_of_slug(init);
        assert(slug_char(s[s.len() - 1]));
        if s.last() == '-' && init.len() > 0 {
            assert(s[s.len() - 2] != '-' || s[s.len() - 1] != '-');
        }
        assert(init.push(s.last()) =~= s);
    }
}

/// A slug is in lower case, and the slug of a slug is itself. The lower-case form of a
/// name never holds `A` to `Z`.
pub proof fn slug_idempotent(name: Seq<char>)
    requires
        text::no_ascii_upper(text::lowercase(name)),
    ensures
        text::no_ascii_upper(slug(name)),
        slug(slug(name)) == slug(name),
{
    reveal_strlit("role");
    let raw = slug_chars(text::lowercase(name));
    let mid = without_leading_hyphens(raw);
    let core = without_trailing_hyphens(mid);
    let s = slug(name);
    slug_chars_lower(text::lowercase(name));
    leading_hyphens_shape(raw);
    trailing_hyphens_shape(mid);
    let off = raw.len() - mid.len();
    assert forall|i: int| 0 <= i < core.len() implies !text::ascii_upper(#[trigger] core[i]) by {
        assert(core[i] == mid[i]);
        assert(mid[i] == raw[off + i]);
    }
    slug_shape(name);
    assert forall|i: int| 0 <= i < s.len() implies (#[trigger] s[i]) as int <= 0x7f
        && !text::ascii_upper(s[i]) by {
        assert(slug_char(s[i]));
    }
    text::lowercase_of_lower(s);
    slug_chars_of_slug(s);
}

/// A new role never takes the id of a built-in one, which has no hyphen.
pub proof fn new_roles_are_deletable(name: Seq<char>, random: Seq<char>)
    requires
        random.len() >= 6,
    ensures
        deletable(role_id_of(name, random)),
{
    reveal_strlit("-");
    reveal_strlit("member");
    reveal_strlit("admin");
    reveal_strlit("owner");
    let id = role_id_of(name, random);
    let at = slug(name).len() as int;
    assert(id[at] == '-');
    slug_shape(name);
    assert(id.len() >= 8);
}

/// A change that says nothing leaves a role as it is.
pub proof fn empty_change_keeps_role(current: RoleModel, payload: ServerRolePayload)
    requires
        text::blank(payload.name@),
        payload.color is None,
        payload.flags == (FlagInput {
            view: None,
            send: None,
            manage: None,
            manage_channels: None,
            manage_roles: None,
            invite: None,
            attach: None,
            embed: None,
            react: None,
            pin: None,
            mention: None,
            voice: None,
            kick: None,
            ban: None,
        }),
    ensures
        changed_role(current, payload) == current,
{
}

/// A change is final: making it a second time changes nothing more.
pub proof fn change_idempotent(current: RoleModel, payload: ServerRolePayload)
    ensures
        changed_role(changed_role(current, payload), payload) == changed_role(current, payload),
{
    filled_twice(payload.flags, current.flags);
}

proof fn filled_twice(input: FlagInput, base: RoleFlags)
    ensures
        filled(input, filled(input, base)) == filled(input, base),
{
    said_twice(input.view, base.view);
    said_twice(input.send, base.send);
    said_twice(input.manage, base.manage);
    said_twice(input.manage_channels, base.manage_channels);
    said_twice(input.manage_roles, base.manage_roles);
    said_twice(input.invite, base.invite);
    said_twice(input.attach, base.attach);
    said_twice(input.embed, base.embed);
    said_twice(input.react, base.react);
    said_twice(input.pin, base.pin);
    said_twice(input.mention, base.mention);
    said_twice(input.voice, base.voice);
    said_twice(input.kick, base.kick);
    said_twice(input.ban, base.ban);
}

proof fn said_twice(said: Option<bool>, default: bool)
    ensures
        or_else(said, or_else(said, default)) == or_else(said, default),
{
}

/// A change never touches the id and the place of a role.
pub proof fn change_keeps_identity(current: RoleModel, payload: ServerRolePayload)
    ensures
        changed_role(current, payload).role_id == current.role_id,
        changed_role(current, payload).position == current.position,
{
}

/// What is kept for a channel is never of the owner.
pub proof fn owner_rights_are_not_kept(inputs: Seq<ChannelPermissionInput>)
    ensures
        forall|i: int|
            0 <= i < channel_rights_input(inputs).len() ==> (#[trigger] channel_rights_input(
                inputs,
            )[i]).0 == "admin"@ || channel_rights_input(inputs)[i].0 == "member"@,
    decreases inputs.len(),
{
    if inputs.len() > 0 {
        owner_rights_are_not_kept(inputs.drop_last());
        let rest = channel_rights_input(inputs.drop_last());
        let result = channel_rights_input(inputs);
        assert forall|i: int| 0 <= i < result.len() implies (#[trigger] result[i]).0 == "admin"@
            || result[i].0 == "member"@ by {
            if i < rest.len() {
                assert(result[i] == rest[i]);
            }
        }
    }
}

/// A member with a built-in role is kept under that role.
pub proof fn builtin_roles_are_kept(role: Seq<char>)
    requires
        role == "owner"@ || role == "admin"@ || role == "member"@,
    ensures
        kept_role(role) == role,
{
    reveal_strlit("member");
    reveal_strlit("owner");
    reveal_strlit("admin");
    text::trimmed_of_tight(role);
    text::lowercase_of_lower(role);
}

/// A member is always kept under a built-in role, so keeping it again changes
/// nothing.
pub proof fn kept_role_idempotent(role: Seq<char>)
    ensures
        kept_role(role) == "owner"@ || kept_role(role) == "admin"@ || kept_role(role) == "member"@,
        kept_role(kept_role(role)) == kept_role(role),
{
    member_is_builtin();
    if builtin_role(Some(role)) is Some {
        builtin_role_idempotent(Some(role));
    }
}

/// A channel is a voice channel exactly if `voice` is named, in any case and with white
/// space around it; any other is a text channel.
pub proof fn what_kind_a_channel_is(kind: Seq<char>)
    ensures
        text::lowercase(text::trimmed(kind)) == "voice"@ ==> channel_kind(Some(kind)) == "voice"@,
        text::lowercase(text::trimmed(kind)) != "voice"@ ==> channel_kind(Some(kind)) == "text"@,
        channel_kind(None) == "text"@,
        channel_kind(Some("voice"@)) == "voice"@,
{
    reveal_strlit("voice");
    text::trimmed_of_tight("voice"@);
    text::lowercase_of_lower("voice"@);
}

/// A built-in role is one of three, named in any case and with white space around it; it is
/// the role that is named and no other.
pub proof fn what_a_builtin_role_is(role: Seq<char>)
    ensures
        builtin_role(None) is None,
        ({
            let named = text::lowercase(text::trimmed(role));
            &&& named == "owner"@ ==> builtin_role(Some(role)) == Some("owner"@)
            &&& named == "admin"@ ==> builtin_role(Some(role)) == Some("admin"@)
            &&& named == "member"@ ==> builtin_role(Some(role)) == Some("member"@)
            &&& named != "owner"@ && named != "admin"@ && named != "member"@ ==> builtin_role(
                Some(role),
            ) is None
            &&& named == "owner"@ ==> kept_role(role) == "owner"@
            &&& named == "admin"@ ==> kept_role(role) == "admin"@
            &&& named != "owner"@ && named != "admin"@ ==> kept_role(role) == "member"@
        }),
{
}

/// The role of a member is `member` where none is named, the built-in role that is named,
/// and else the role of the server under which the name is kept, if there is one.
pub proof fn which_role_is_meant(role: Seq<char>, custom: Option<Seq<char>>)
    ensures
        resolved_role(None, custom) == Some("member"@),
        text::blank(role) ==> resolved_role(Some(role), custom) == Some("member"@),
        ({
            let named = text::lowercase(text::trimmed(role));
            &&& named == "owner"@ && !text::blank(role) ==> resolved_role(Some(role), custom)
                == Some("owner"@)
            &&& named == "admin"@ && !text::blank(role) ==> resolved_role(Some(role), custom)
                == Some("admin"@)
            &&& named == "member"@ && !text::blank(role) ==> resolved_role(Some(role), custom)
                == Some("member"@)
            &&& !text::blank(role) && named != "owner"@ && named != "admin"@ && named != "member"@
                ==> resolved_role(Some(role), custom) == custom
        }),
{
    reveal_strlit("member");
    text::trimmed_of_tight("member"@);
    text::lowercase_of_lower("member"@);
    text::trimmed_idempotent(role);
}

proof fn slug_chars_letters(s: Seq<char>)
    ensures
        slug_chars(s).filter(|c: char| text::ascii_alphanumeric(c)) == s.filter(
            |c: char| text::ascii_alphanumeric(c),
        ),
    decreases s.len(),
{
    reveal(Seq::filter);
    if s.len() > 0 {
        slug_chars_letters(s.drop_last());
        let out = slug_chars(s.drop_last());
        let result = slug_chars(s);
        if result.len() == out.len() + 1 {
            assert(result.drop_last() =~= out);
        }
    }
}

proof fn no_letters_filter(s: Seq<char>)
    requires
        forall|i: int| 0 <= i < s.len() ==> #[trigger] s[i] == '-',
    ensures
        s.filter(|c: char| text::ascii_alphanumeric(c)).len() == 0,
    decreases s.len(),
{
    reveal(Seq::filter);
    if s.len() > 0 {
        assert(s[s.len() - 1] == '-');
        assert(forall|i: int| 0 <= i < s.drop_last().len() ==> s.drop_last()[i] == s[i]);
        no_letters_filter(s.drop_last());
    }
}

proof fn leading_letters(s: Seq<char>)
    ensures
        without_leading_hyphens(s).filter(|c: char| text::ascii_alphanumeric(c)) == s.filter(
            |c: char| text::ascii_alphanumeric(c),
        ),
    decreases s.len(),
{
    if s.len() > 0 && s[0] == '-' {
        leading_letters(s.drop_first());
        let keep = |c: char| text::ascii_alphanumeric(c);
        assert(s =~= seq!['-'] + s.drop_first());
        Seq::filter_distributes_over_add(seq!['-'], s.drop_first(), keep);
        no_letters_filter(seq!['-']);
        assert(s.filter(keep) =~= s.drop_first().filter(keep));
    }
}

proof fn trailing_letters(s: Seq<char>)
    ensures
        without_trailing_hyphens(s).filter(|c: char| text::ascii_alphanumeric(c)) == s.filter(
            |c: char| text::ascii_alphanumeric(c),
        ),
    decreases s.len(),
{
    reveal(Seq::filter);
    if s.len() > 0 && s.last() == '-' {
        trailing_letters(s.drop_last());
    }
}

/// A slug has the letters and digits of its name, in lower case and in their order, and no
/// others; a name without any has the slug `role`.
pub proof fn slugs_keep_letters_and_digits(name: Seq<char>)
    ensures
        ({
            let letters = text::lowercase(name).filter(|c: char| text::ascii_alphanumeric(c));
            &&& letters.len() > 0 ==> slug(name).filter(|c: char| text::ascii_alphanumeric(c))
                == letters
            &&& letters.len() == 0 ==> slug(name) == "role"@
        }),
{
    let lower = text::lowercase(name);
    let raw = slug_chars(lower);
    let mid = without_leading_hyphens(raw);
    let core = without_trailing_hyphens(mid);
    let keep = |c: char| text::ascii_alphanumeric(c);
    slug_chars_letters(lower);
    leading_letters(raw);
    trailing_letters(mid);
    assert(core.filter(keep) == lower.filter(keep));
    if core.len() == 0 {
        no_letters_filter(core);
    } else if lower.filter(keep).len() == 0 {
        slug_shape(name);
        let c = core[0];
        assert(slug(name) == core);
        assert(slug_char(slug(name)[0]));
        core.lemma_filter_contains(keep, 0);
    }
}

/// A word that a slug can hold: letters and digits in lower case.
pub open spec fn plain_word(s: Seq<char>) -> bool {
    s.len() > 0 && forall|i: int|
        0 <= i < s.len() ==> text::ascii_alphanumeric(#[trigger] s[i]) && !text::ascii_upper(s[i])
}

/// The slug of a word is that word; of two words with a space, a hyphen or an underscore
/// between them, the two with a hyphen.
pub proof fn slugs_of_words(a: Seq<char>, sep: char, b: Seq<char>)
    requires
        plain_word(a),
        plain_word(b),
        sep == ' ' || sep == '-' || sep == '_',
    ensures
        slug(a) == a,
        slug(a + seq![sep] + b) == a + seq!['-'] + b,
{
    text::lowercase_of_lower(a);
    slug_chars_of_slug(a);
    let s = a + seq![sep] + b;
    let want = a + seq!['-'] + b;
    assert forall|i: int| 0 <= i < s.len() implies (#[trigger] s[i]) as int <= 0x7f
        && !text::ascii_upper(s[i]) by {
        if i < a.len() {
            assert(s[i] == a[i]);
        } else if i > a.len() {
            assert(s[i] == b[i - a.len() - 1]);
        }
    }
    text::lowercase_of_lower(s);
    words_chars(a, sep, b);
    assert(want[0] == a[0]);
    assert(want.last() == b.last());
    assert(b[b.len() - 1] == b.last());
}

proof fn words_chars(a: Seq<char>, sep: char, b: Seq<char>)
    requires
        plain_word(a),
        b.len() > 0 ==> plain_word(b),
        sep == ' ' || sep == '-' || sep == '_',
    ensures
        slug_chars(a + seq![sep] + b) == a + seq!['-'] + b,
    decreases b.len(),
{
    let s = a + seq![sep] + b;
    if b.len() == 0 {
        assert(s.drop_last() =~= a);
        assert(s.last() == sep);
        slug_chars_of_slug(a);
        assert(a[a.len() - 1] == a.last());
        assert(slug_chars(s) =~= a + seq!['-'] + b);
    } else {
        let init = b.drop_last();
        assert(forall|i: int| 0 <= i < init.len() ==> init[i] == b[i]);
        words_chars(a, sep, init);
        assert(s.drop_last() =~= a + seq![sep] + init);
        assert(s.last() == b.last());
        assert(b[b.len() - 1] == b.last());
        assert(slug_chars(s) =~= a + seq!['-'] + b);
    }
}

/// Whether a right is what was said, or, where nothing was said, what it was.
pub open spec fn settles(said: Option<bool>, before: bool, after: bool) -> bool {
    match said {
        Some(b) => after == b,
        None => after == before,
    }
}

/// A new role has the name and colour that are given, its id begins with the slug of its
/// name and ends with a part of the random text, and each right is as given, or else what
/// a new role may.
pub proof fn new_roles_are_as_given(
    payload: ServerRolePayload,
    random: Seq<char>,
    position: int,
    r: ServerRole,
)
    requires
        r@ == new_role(payload, random, position),
    ensures
        r.role_id@ == slug(text::trimmed(payload.name@)) + "-"@ + random.take(6),
        r.name@ == text::trimmed(payload.name@),
        payload.color is Some ==> r.color@ == payload.color->0@,
        payload.color is None ==> r.color@ == "#cbff00"@,
        r.position == position,
        settles(payload.flags.view, true, r.flags.view),
        settles(payload.flags.send, true, r.flags.send),
        settles(payload.flags.manage, false, r.flags.manage),
        settles(payload.flags.manage_channels, false, r.flags.manage_channels),
        settles(payload.flags.manage_roles, false, r.flags.manage_roles),
        settles(payload.flags.invite, true, r.flags.invite),
        settles(payload.flags.attach, true, r.flags.attach),
        settles(payload.flags.embed, true, r.flags.embed),
        settles(payload.flags.react, true, r.flags.react),
        settles(payload.flags.pin, false, r.flags.pin),
        settles(payload.flags.mention, false, r.flags.mention),
        settles(payload.flags.voice, true, r.flags.voice),
        settles(payload.flags.kick, false, r.flags.kick),
        settles(payload.flags.ban, false, r.flags.ban),
{
}

/// A role after a change has what was said, and of all that was not said what it had.
pub proof fn changed_roles_are_as_said(
    current: ServerRoleRecord,
    payload: ServerRolePayload,
    r: ServerRole,
)
    requires
        r@ == changed_role(current.role(), payload),
    ensures
        r.role_id@ == current.role_id@,
        text::blank(payload.name@) ==> r.name@ == current.name@,
        !text::blank(payload.name@) ==> r.name@ == text::trimmed(payload.name@),
        payload.color is Some ==> r.color@ == payload.color->0@,
        payload.color is None ==> r.color@ == current.color@,
        r.position == current.position,
        settles(payload.flags.view, current.can_view != 0, r.flags.view),
        settles(payload.flags.send, current.can_send != 0, r.flags.send),
        settles(payload.flags.manage, current.can_manage != 0, r.flags.manage),
        settles(
            payload.flags.manage_channels,
            current.can_manage_channels != 0,
            r.flags.manage_channels,
        ),
        settles(payload.flags.manage_roles, current.can_manage_roles != 0, r.flags.manage_roles),
        settles(payload.flags.invite, current.can_invite != 0, r.flags.invite),
        settles(payload.flags.attach, current.can_attach != 0, r.flags.attach),
        settles(payload.flags.embed, current.can_embed != 0, r.flags.embed),
        settles(payload.flags.react, current.can_react != 0, r.flags.react),
        settles(payload.flags.pin, current.can_pin != 0, r.flags.pin),
        settles(payload.flags.mention, current.can_mention != 0, r.flags.mention),
        settles(payload.flags.voice, current.can_voice != 0, r.flags.voice),
        settles(payload.flags.kick, current.can_kick != 0, r.flags.kick),
        settles(payload.flags.ban, current.can_ban != 0, r.flags.ban),
{
}

/// A role is shown as it is kept, each right as its own number says.
pub proof fn roles_are_shown_as_kept(row: ServerRoleRecord, r: ServerRole)
    requires
        r@ == row.role(),
    ensures
        r.role_id@ == row.role_id@,
        r.name@ == row.name@,
        r.color@ == row.color@,
        r.position == row.position,
        r.flags.view <==> row.can_view != 0,
        r.flags.send <==> row.can_send != 0,
        r.flags.manage <==> row.can_manage != 0,
        r.flags.manage_channels <==> row.can_manage_channels != 0,
        r.flags.manage_roles <==> row.can_manage_roles != 0,
        r.flags.invite <==> row.can_invite != 0,
        r.flags.attach <==> row.can_attach != 0,
        r.flags.embed <==> row.can_embed != 0,
        r.flags.react <==> row.can_react != 0,
        r.flags.pin <==> row.can_pin != 0,
        r.flags.mention <==> row.can_mention != 0,
        r.flags.voice <==> row.can_voice != 0,
        r.flags.kick <==> row.can_kick != 0,
        r.flags.ban <==> row.can_ban != 0,
{
}

/// A server starts with two roles: members, who take part and manage nothing, and admins,
/// who may do everything.
pub proof fn what_the_first_roles_may()
    ensures
        default_roles().len() == 2,
        ({
            let member = default_roles()[0];
            let admin = default_roles()[1];
            &&& member.role_id == "member"@
            &&& member.name == "Участник"@
            &&& member.color == "#5f6a7a"@
            &&& member.position == 0
            &&& member.flags.view
            &&& member.flags.send
            &&& !member.flags.manage
            &&& !member.flags.manage_channels
            &&& !member.flags.manage_roles
            &&& !member.flags.invite
            &&& member.flags.attach
            &&& member.flags.embed
            &&& member.flags.react
            &&& !member.flags.pin
            &&& !member.flags.mention
            &&& member.flags.voice
            &&& !member.flags.kick
            &&& !member.flags.ban
            &&& admin.role_id == "admin"@
            &&& admin.name == "Админ"@
            &&& admin.color == "#8c7bff"@
            &&& admin.position == 1
            &&& admin.flags.view
            &&& admin.flags.send
            &&& admin.flags.manage
            &&& admin.flags.manage_channels
            &&& admin.flags.manage_roles
            &&& admin.flags.invite
            &&& admin.flags.attach
            &&& admin.flags.embed
            &&& admin.flags.react
            &&& admin.flags.pin
            &&& admin.flags.mention
            &&& admin.flags.voice
            &&& admin.flags.kick
            &&& admin.flags.ban
        }),
{
}

/// A role can be deleted exactly if it is none of the built-in ones.
pub proof fn which_roles_are_deleted(role_id: Seq<char>)
    ensures
        !deletable("member"@),
        !deletable("admin"@),
        !deletable("owner"@),
        role_id != "member"@ && role_id != "admin"@ && role_id != "owner"@ ==> deletable(role_id),
{
}

/// One more word on a channel's rights adds the rights of the role that it names, each as
/// said, or else to view and to send and not to manage; of the owner, or of a role that is
/// none of the built-in ones, it adds nothing. What came before stays.
pub proof fn channel_rights_are_kept_as_said(
    inputs: Seq<ChannelPermissionInput>,
    input: ChannelPermissionInput,
)
    ensures
        channel_rights_input(Seq::empty()).len() == 0,
        ({
            let before = channel_rights_input(inputs);
            let after = channel_rights_input(inputs.push(input));
            let named = text::lowercase(text::trimmed(input.role@));
            let rights = after.last().1;
            &&& named != "admin"@ && named != "member"@ ==> after == before
            &&& named == "admin"@ || named == "member"@ ==> {
                &&& after.len() == before.len() + 1
                &&& after.drop_last() == before
                &&& after.last().0 == named
                &&& settles(input.can_view, true, rights.0)
                &&& settles(input.can_send, true, rights.1)
                &&& settles(input.can_manage, false, rights.2)
            }
        }),
{
    assert(inputs.push(input).drop_last() =~= inputs);
    reveal_strlit("admin");
    reveal_strlit("member");
    reveal_strlit("owner");
    assert("admin"@[0] == 'a' && "member"@[0] == 'm' && "owner"@[0] == 'o');
    let before = channel_rights_input(inputs);
    let after = channel_rights_input(inputs.push(input));
    if after.len() == before.len() + 1 {
        assert(after.drop_last() =~= before);
    }
}

/// What is kept of a list is what comes before the first role that is not built in: every
/// role before it is, and it is not.
pub proof fn lists_are_kept_up_to_the_first_unknown(inputs: Seq<ChannelPermissionInput>)
    ensures
        first_unknown(inputs) <= inputs.len(),
        forall|i: int|
            0 <= i < first_unknown(inputs) ==> builtin_role(Some((#[trigger] inputs[i]).role@)) is Some,
        first_unknown(inputs) < inputs.len() ==> builtin_role(
            Some(inputs[first_unknown(inputs) as int].role@),
        ) is None,
    decreases inputs.len(),
{
    if inputs.len() > 0 {
        let rest = inputs.drop_first();
        lists_are_kept_up_to_the_first_unknown(rest);
        assert forall|i: int| 0 <= i < first_unknown(inputs) implies builtin_role(
            Some((#[trigger] inputs[i]).role@),
        ) is Some by {
            if i > 0 {
                assert(rest[i - 1] == inputs[i]);
            }
        }
    }
}

/// The rights in a channel are shown as they are kept.
pub proof fn channel_rights_are_shown_as_kept(row: ChannelRow, p: ChannelPermission)
    requires
        p@ == (row.role@, row.rights()),
    ensures
        p.role@ == row.role@,
        p.can_view <==> row.can_view != 0,
        p.can_send <==> row.can_send != 0,
        p.can_manage <==> row.can_manage != 0,
{
}

/// A new channel gets rights of its own for members where something is said of them: each
/// as said, or else granted; never to manage.
pub proof fn rights_in_a_new_channel(view: Option<bool>, send: Option<bool>)
    ensures
        view is None && send is None ==> new_channel_rights(view, send) is None,
        view is Some || send is Some ==> {
            let rights = new_channel_rights(view, send)->0;
            &&& new_channel_rights(view, send) is Some
            &&& settles(view, true, rights.0)
            &&& settles(send, true, rights.1)
            &&& !rights.2
        },
{
}

/// A channel is for voice if it says so, in any case, and for text otherwise.
pub proof fn which_channels_are_for_voice(kind: Option<&str>, r: String)
    requires
        call_ensures(normalize_channel_kind, (kind,), r),
    ensures
        ({
            let voice = kind is Some && text::lowercase(text::trimmed(kind->0@)) == "voice"@;
            &&& voice ==> r@ == "voice"@
            &&& !voice ==> r@ == "text"@
        }),
{
}

/// A built-in role is known by its name, in any case and with white space around it; what is
/// kept of any other role is `member`.
pub proof fn which_roles_are_built_in(role: &str, r: Option<String>, kept: String)
    requires
        call_ensures(normalize_server_role, (Some(role),), r),
        call_ensures(stored_member_role, (role,), kept),
    ensures
        ({
            let named = text::lowercase(text::trimmed(role@));
            let known = named == "owner"@ || named == "admin"@ || named == "member"@;
            &&& r is Some <==> known
            &&& known ==> r->0@ == named
            &&& named == "owner"@ || named == "admin"@ ==> kept@ == named
            &&& named != "owner"@ && named != "admin"@ ==> kept@ == "member"@
        }),
{
    what_a_builtin_role_is(role@);
}

/// A member's role is read as `member` where none is named, as the built-in role that is
/// named, and else as the name of a role of the server.
pub proof fn how_roles_are_read(role: Option<&str>, r: RoleInput)
    requires
        call_ensures(member_role_input, (role,), r),
    ensures
        ({
            let word = text::trimmed(role->0@);
            let named = text::lowercase(word);
            let known = named == "owner"@ || named == "admin"@ || named == "member"@;
            let none = role is None || word.len() == 0;
            &&& none ==> r is Known && r->Known_0@ == "member"@
            &&& !none && known ==> r is Known && r->Known_0@ == named
            &&& !none && !known ==> r is Custom && r->Custom_0@ == word
        }),
{
    reveal_strlit("member");
    text::trimmed_of_tight("member"@);
    text::lowercase_of_lower("member"@);
    what_a_builtin_role_is("member"@);
    if role is Some {
        text::trimmed_idempotent(role->0@);
        what_a_builtin_role_is(text::trimmed(role->0@));
    }
}

/// A member's role is `member` where none is named, the built-in role that is named, and else
/// the server's own, if it is there.
pub proof fn which_role_a_member_gets(role: Option<&str>, custom: Option<String>, r: Option<String>)
    requires
        call_ensures(resolve_member_role_input, (role, custom), r),
    ensures
        ({
            let word = text::trimmed(role->0@);
            let named = text::lowercase(word);
            let known = named == "owner"@ || named == "admin"@ || named == "member"@;
            let none = role is None || word.len() == 0;
            &&& none ==> r is Some && r->0@ == "member"@
            &&& !none && known ==> r is Some && r->0@ == named
            &&& !none && !known ==> (r is Some <==> custom is Some)
            &&& !none && !known && custom is Some ==> r->0@ == custom->0@
        }),
{
    if role is Some {
        which_role_is_meant(role->0@, text::opt_text(custom));
    } else {
        which_role_is_meant(Seq::empty(), text::opt_text(custom));
    }
}

/// The slug of a name has its letters and digits, in lower case and in their order, and
/// besides them only hyphens; without any it is `role`.
pub proof fn what_a_slug_is(value: &str, r: String)
    requires
        call_ensures(slug_role_id, (value,), r),
    ensures
        ({
            let letters = text::lowercase(value@).filter(|c: char| text::ascii_alphanumeric(c));
            &&& letters.len() > 0 ==> r@.filter(|c: char| text::ascii_alphanumeric(c)) == letters
            &&& letters.len() == 0 ==> r@ == "role"@
            &&& text::no_ascii_upper(r@)
        }),
{
    slugs_keep_letters_and_digits(value@);
}

/// A role is read from its row, each right from its own number.
pub proof fn roles_are_read_from_their_row(row: &ServerRoleRecord, r: ServerRole)
    requires
        call_ensures(ServerRoleRecord::to_role, (row,), r),
    ensures
        r.role_id@ == row.role_id@,
        r.name@ == row.name@,
        r.color@ == row.color@,
        r.position == row.position,
        r.flags.view <==> row.can_view != 0,
        r.flags.send <==> row.can_send != 0,
        r.flags.manage <==> row.can_manage != 0,
        r.flags.manage_channels <==> row.can_manage_channels != 0,
        r.flags.manage_roles <==> row.can_manage_roles != 0,
        r.flags.invite <==> row.can_invite != 0,
        r.flags.attach <==> row.can_attach != 0,
        r.flags.embed <==> row.can_embed != 0,
        r.flags.react <==> row.can_react != 0,
        r.flags.pin <==> row.can_pin != 0,
        r.flags.mention <==> row.can_mention != 0,
        r.flags.voice <==> row.can_voice != 0,
        r.flags.kick <==> row.can_kick != 0,
        r.flags.ban <==> row.can_ban != 0,
{
    roles_are_shown_as_kept(*row, r);
}

/// A role is made if it has a name: under an id of the name's slug and six characters of the
/// random text, with the name, colour and rights given, and where none is given with the
/// usual ones.
pub proof fn which_roles_are_made(
    payload: &ServerRolePayload,
    random: &str,
    position: i64,
    r: Option<ServerRole>,
)
    requires
        call_ensures(make_server_role, (payload, random, position), r),
        random@.len() >= 6,
    ensures
        r is Some <==> text::trimmed(payload.name@).len() > 0,
        r is Some ==> made_as_given(*payload, random@, position, r->0),
{
    if r is Some {
        new_roles_are_as_given(*payload, random@, position as int, r->0);
    }
}

/// Whether a new role is as it was given.
pub open spec fn made_as_given(
    payload: ServerRolePayload,
    random: Seq<char>,
    position: i64,
    r: ServerRole,
) -> bool {
    &&& r.role_id@ == slug(text::trimmed(payload.name@)) + "-"@ + random.take(6)
    &&& r.name@ == text::trimmed(payload.name@)
    &&& payload.color is Some ==> r.color@ == payload.color->0@
    &&& payload.color is None ==> r.color@ == "#cbff00"@
    &&& r.position == position
    &&& settles(payload.flags.view, true, r.flags.view)
    &&& settles(payload.flags.send, true, r.flags.send)
    &&& settles(payload.flags.manage, false, r.flags.manage)
    &&& settles(payload.flags.manage_channels, false, r.flags.manage_channels)
    &&& settles(payload.flags.manage_roles, false, r.flags.manage_roles)
    &&& settles(payload.flags.invite, true, r.flags.invite)
    &&& settles(payload.flags.attach, true, r.flags.attach)
    &&& settles(payload.flags.embed, true, r.flags.embed)
    &&& settles(payload.flags.react, true, r.flags.react)
    &&& settles(payload.flags.pin, false, r.flags.pin)
    &&& settles(payload.flags.mention, false, r.flags.mention)
    &&& settles(payload.flags.voice, true, r.flags.voice)
    &&& settles(payload.flags.kick, false, r.flags.kick)
    &&& settles(payload.flags.ban, false, r.flags.ban)
}

/// A role that is created is made so, whatever text is drawn for its id.
pub proof fn how_roles_are_created(
    payload: &ServerRolePayload,
    position: i64,
    r: Option<ServerRole>,
)
    requires
        call_ensures(create_server_role_record, (payload, position), r),
    ensures
        r is Some <==> text::trimmed(payload.name@).len() > 0,
        r is Some ==> exists|random: Seq<char>| #[trigger]
            ids::simple_uuid(random) && made_as_given(*payload, random, position, r->0),
{
    if r is Some {
        let random = choose|random: Seq<char>| #[trigger]
            ids::simple_uuid(random) && r->0@ == new_role(*payload, random, position as int);
        new_roles_are_as_given(*payload, random, position as int, r->0);
        assert(ids::simple_uuid(random) && made_as_given(*payload, random, position, r->0));
    }
}

/// A role that is changed has what was said, and of all that was not said what it had.
pub proof fn how_roles_are_changed(
    current: &ServerRoleRecord,
    payload: &ServerRolePayload,
    r: ServerRole,
)
    requires
        call_ensures(update_server_role_record, (current, payload), r),
    ensures
        r.role_id@ == current.role_id@,
        text::trimmed(payload.name@).len() == 0 ==> r.name@ == current.name@,
        text::trimmed(payload.name@).len() > 0 ==> r.name@ == text::trimmed(payload.name@),
        payload.color is Some ==> r.color@ == payload.color->0@,
        payload.color is None ==> r.color@ == current.color@,
        r.position == current.position,
        settles(payload.flags.view, current.can_view != 0, r.flags.view),
        settles(payload.flags.send, current.can_send != 0, r.flags.send),
        settles(payload.flags.manage, current.can_manage != 0, r.flags.manage),
        settles(
            payload.flags.manage_channels,
            current.can_manage_channels != 0,
            r.flags.manage_channels,
        ),
        settles(payload.flags.manage_roles, current.can_manage_roles != 0, r.flags.manage_roles),
        settles(payload.flags.invite, current.can_invite != 0, r.flags.invite),
        settles(payload.flags.attach, current.can_attach != 0, r.flags.attach),
        settles(payload.flags.embed, current.can_embed != 0, r.flags.embed),
        settles(payload.flags.react, current.can_react != 0, r.flags.react),
        settles(payload.flags.pin, current.can_pin != 0, r.flags.pin),
        settles(payload.flags.mention, current.can_mention != 0, r.flags.mention),
        settles(payload.flags.voice, current.can_voice != 0, r.flags.voice),
        settles(payload.flags.kick, current.can_kick != 0, r.flags.kick),
        settles(payload.flags.ban, current.can_ban != 0, r.flags.ban),
{
    changed_roles_are_as_said(*current, *payload, r);
}

/// The built-in roles are not deleted; who had another that is has `member` instead.
pub proof fn what_deleting_a_role_does(role_id: &str, r: Result<String, Refusal>)
    requires
        call_ensures(delete_server_role_record, (role_id,), r),
    ensures
        r is Ok <==> role_id@ != "member"@ && role_id@ != "admin"@ && role_id@ != "owner"@,
        r is Ok ==> r->Ok_0@ == "member"@,
        r is Err ==> r->Err_0 == Refusal::Internal,
{
    which_roles_are_deleted(role_id@);
}

/// A server without roles gets the first ones: members and admins.
pub proof fn which_roles_a_server_starts_with(
    role_count: i64,
    needed: bool,
    r: Vec<ServerRole>,
)
    requires
        call_ensures(needs_default_roles, (role_count,), needed),
        call_ensures(default_server_roles, (), r),
    ensures
        needed <==> role_count == 0,
        r@.len() == 2,
        r@[0].role_id@ == "member"@,
        r@[0].name@ == "Участник"@,
        r@[0].color@ == "#5f6a7a"@,
        r@[0].position == 0,
        r@[0].flags == default_roles()[0].flags,
        r@[1].role_id@ == "admin"@,
        r@[1].name@ == "Админ"@,
        r@[1].color@ == "#8c7bff"@,
        r@[1].position == 1,
        r@[1].flags == default_roles()[1].flags,
{
    what_the_first_roles_may();
    assert(roles_model(r@).len() == r@.len());
    assert(roles_model(r@)[0] == r@[0]@);
    assert(roles_model(r@)[1] == r@[1]@);
}

/// The roles of a server are those of its rows, in their order, each as its row says.
pub proof fn roles_are_listed(rows: &Vec<ServerRoleRecord>, r: Vec<ServerRole>, i: int)
    requires
        call_ensures(server_roles, (rows,), r),
    ensures
        r@.len() == rows@.len(),
        0 <= i < r@.len() ==> {
            &&& r@[i].role_id@ == rows@[i].role_id@
            &&& r@[i].name@ == rows@[i].name@
            &&& r@[i].color@ == rows@[i].color@
            &&& r@[i].position == rows@[i].position
            &&& r@[i].flags.view <==> rows@[i].can_view != 0
            &&& r@[i].flags.send <==> rows@[i].can_send != 0
            &&& r@[i].flags.manage <==> rows@[i].can_manage != 0
            &&& r@[i].flags.manage_channels <==> rows@[i].can_manage_channels != 0
            &&& r@[i].flags.manage_roles <==> rows@[i].can_manage_roles != 0
            &&& r@[i].flags.invite <==> rows@[i].can_invite != 0
            &&& r@[i].flags.attach <==> rows@[i].can_attach != 0
            &&& r@[i].flags.embed <==> rows@[i].can_embed != 0
            &&& r@[i].flags.react <==> rows@[i].can_react != 0
            &&& r@[i].flags.pin <==> rows@[i].can_pin != 0
            &&& r@[i].flags.mention <==> rows@[i].can_mention != 0
            &&& r@[i].flags.voice <==> rows@[i].can_voice != 0
            &&& r@[i].flags.kick <==> rows@[i].can_kick != 0
            &&& r@[i].flags.ban <==> rows@[i].can_ban != 0
        },
{
    if 0 <= i < r@.len() {
        assert(r@[i]@ == rows@[i].role());
        roles_are_shown_as_kept(rows@[i], r@[i]);
    }
}

/// The rights in a channel are listed as its rows say, in their order.
pub proof fn channel_rights_are_listed(rows: &Vec<ChannelRow>, r: Vec<ChannelPermission>, i: int)
    requires
        call_ensures(channel_permissions, (rows,), r),
    ensures
        r@.len() == rows@.len(),
        0 <= i < r@.len() ==> {
            &&& r@[i].role@ == rows@[i].role@
            &&& r@[i].can_view <==> rows@[i].can_view != 0
            &&& r@[i].can_send <==> rows@[i].can_send != 0
            &&& r@[i].can_manage <==> rows@[i].can_manage != 0
        },
{
    if 0 <= i < r@.len() {
        assert(r@[i]@ == (rows@[i].role@, rows@[i].rights()));
    }
}

/// A list of rights in a channel goes through exactly if every role in it is built in; what
/// comes before the first that is not is kept all the same.
pub proof fn which_channel_rights_are_kept(
    inputs: &Vec<ChannelPermissionInput>,
    r: (Vec<ChannelPermission>, bool),
    n: int,
)
    requires
        call_ensures(channel_permission_updates, (inputs,), r),
        0 <= n <= inputs@.len(),
        forall|i: int|
            0 <= i < n ==> builtin_role(Some((#[trigger] inputs@[i]).role@)) is Some,
        n < inputs@.len() ==> builtin_role(Some(inputs@[n].role@)) is None,
    ensures
        r.1 <==> n == inputs@.len(),
        permissions_model(r.0@) == channel_rights_input(inputs@.take(n)),
{
    let m = first_unknown(inputs@) as int;
    lists_are_kept_up_to_the_first_unknown(inputs@);
    if m < n {
        assert(builtin_role(Some(inputs@[m].role@)) is Some);
    }
    if n < m {
        assert(builtin_role(Some(inputs@[n].role@)) is Some);
    }
}

/// A new channel has rights of its own for members exactly if something is said of them.
pub proof fn which_rights_a_new_channel_has(
    view: Option<bool>,
    send: Option<bool>,
    r: Option<(bool, bool, bool)>,
)
    requires
        call_ensures(new_channel_permission, (view, send), r),
    ensures
        r is Some <==> view is Some || send is Some,
        r is Some ==> {
            let (may_view, may_send, may_manage) = r->0;
            settles(view, true, may_view) && settles(send, true, may_send) && !may_manage
        },
{
}

} // verus!
