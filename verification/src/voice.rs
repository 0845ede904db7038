//! Voice rooms: who is in which room, and what participants are told.

use crate::delivery;
use crate::delivery::Outgoing;
use crate::delivery::Payload;
use crate::delivery::PayloadModel;
use crate::delivery::Post;
use crate::json;
use crate::json::JsonModel;
use crate::json::JsonObject;
use crate::order;
use crate::text;
use dashmap::DashMap;
use serde_json::Value;
use vstd::prelude::*;
use vstd::string::*;

verus! {

// ---------------------------------------------------------------------------
// Rooms
// ---------------------------------------------------------------------------

/// A voice room. Its participants are listed in the order they came, each once.
#[derive(Debug)]
pub struct VoiceRoom {
    pub room_type: String,
    pub server_id: Option<String>,
    pub channel_id: Option<String>,
    pub participants: Vec<String>,
}

/// The model of a voice room.
pub struct RoomModel {
    pub room_type: Seq<char>,
    pub server_id: Option<Seq<char>>,
    pub channel_id: Option<Seq<char>>,
    pub participants: Seq<Seq<char>>,
}

impl View for VoiceRoom {
    type V = RoomModel;

    open spec fn view(&self) -> RoomModel {
        RoomModel {
            room_type: self.room_type@,
            server_id: text::opt_text(self.server_id),
            channel_id: text::opt_text(self.channel_id),
            participants: text::texts(self.participants@),
        }
    }
}

impl VoiceRoom {
    /// A room without participants.
    pub fn new(
        room_type: String,
        server_id: Option<String>,
        channel_id: Option<String>,
    ) -> (r: VoiceRoom)
        ensures
            r@ == (RoomModel {
                room_type: room_type@,
                server_id: text::opt_text(server_id),
                channel_id: text::opt_text(channel_id),
                participants: Seq::empty(),
            }),
    {
        let r = VoiceRoom { room_type, server_id, channel_id, participants: Vec::new() };
        proof {
            assert(text::texts(r.participants@) =~= Seq::empty());
        }
        r
    }

    /// A copy of the room.
    pub fn copy(&self) -> (r: VoiceRoom)
        ensures
            r@ == self@,
    {
        VoiceRoom {
            room_type: self.room_type.clone(),
            server_id: text::clone_opt(&self.server_id),
            channel_id: text::clone_opt(&self.channel_id),
            participants: text::clone_texts(&self.participants),
        }
    }
}

/// A list of names without one of them.
pub open spec fn without(s: Seq<Seq<char>>, name: Seq<char>) -> Seq<Seq<char>>
    decreases s.len(),
{
    if s.len() == 0 {
        s
    } else {
        let rest = without(s.drop_last(), name);
        if s.last() == name {
            rest
        } else {
            rest.push(s.last())
        }
    }
}

/// A list of names with one more, unless it is there already.
pub open spec fn with_name(s: Seq<Seq<char>>, name: Seq<char>) -> Seq<Seq<char>> {
    if s.contains(name) {
        s
    } else {
        s.push(name)
    }
}

/// What is left in `without`.
pub proof fn without_facts(s: Seq<Seq<char>>, name: Seq<char>)
    ensures
        !without(s, name).contains(name),
        forall|x: Seq<char>| x != name ==> (without(s, name).contains(x) <==> s.contains(x)),
        s.no_duplicates() ==> without(s, name).no_duplicates(),
        without(s, name).len() <= s.len(),
        !s.contains(name) ==> without(s, name) == s,
    decreases s.len(),
{
    if s.len() > 0 {
        let init = s.drop_last();
        let rest = without(init, name);
        without_facts(init, name);
        assert(s =~= init.push(s.last()));
        let result = without(s, name);
        assert forall|x: Seq<char>| x != name implies (result.contains(x) <==> s.contains(x)) by {
            if s.contains(x) {
                let i = choose|i: int| 0 <= i < s.len() && s[i] == x;
                if i < init.len() {
                    assert(init[i] == x);
                    assert(init.contains(x));
                    assert(rest.contains(x));
                    let j = choose|j: int| 0 <= j < rest.len() && rest[j] == x;
                    assert(result[j] == x);
                } else {
                    assert(result[result.len() - 1] == x);
                }
            }
            if result.contains(x) {
                let j = choose|j: int| 0 <= j < result.len() && result[j] == x;
                if j < rest.len() {
                    assert(rest[j] == x);
                    assert(init.contains(x));
                    let i = choose|i: int| 0 <= i < init.len() && init[i] == x;
                    assert(s[i] == x);
                }
            }
        }
        if result.contains(name) {
            let j = choose|j: int| 0 <= j < result.len() && result[j] == name;
            if j < rest.len() {
                assert(rest[j] == name);
                assert(rest.contains(name));
            }
            assert(false);
        }
        if s.no_duplicates() {
            assert(init.no_duplicates()) by {
                assert forall|i: int, j: int|
                    0 <= i < init.len() && 0 <= j < init.len() && i != j implies init[i]
                    != init[j] by {
                    assert(s[i] != s[j]);
                }
            }
            if s.last() != name {
                assert(!rest.contains(s.last())) by {
                    if init.contains(s.last()) {
                        let i = choose|i: int| 0 <= i < init.len() && init[i] == s.last();
                        assert(s[i] == s[s.len() - 1]);
                    }
                }
                assert forall|i: int, j: int|
                    0 <= i < result.len() && 0 <= j < result.len() && i != j implies result[i]
                    != result[j] by {
                    if i == rest.len() {
                        assert(rest[j] == result[j]);
                    } else if j == rest.len() {
                        assert(rest[i] == result[i]);
                    }
                }
            }
        }
        if !s.contains(name) {
            assert(s[s.len() - 1] != name);
            assert(!init.contains(name)) by {
                if init.contains(name) {
                    let i = choose|i: int| 0 <= i < init.len() && init[i] == name;
                    assert(s[i] == name);
                }
            }
        }
    }
}

/// Adding a name keeps every name there once.
pub proof fn with_name_facts(s: Seq<Seq<char>>, name: Seq<char>)
    ensures
        with_name(s, name).contains(name),
        s.no_duplicates() ==> with_name(s, name).no_duplicates(),
        forall|x: Seq<char>| x != name ==> (with_name(s, name).contains(x) <==> s.contains(x)),
{
    if !s.contains(name) {
        let t = s.push(name);
        assert(t[s.len() as int] == name);
        assert forall|x: Seq<char>| x != name implies (t.contains(x) <==> s.contains(x)) by {
            if s.contains(x) {
                let i = choose|i: int| 0 <= i < s.len() && s[i] == x;
                assert(t[i] == x);
            }
        }
    }
}

fn remove_name(v: &Vec<String>, name: &str) -> (r: Vec<String>)
    ensures
        text::texts(r@) == without(text::texts(v@), name@),
{
    let mut out: Vec<String> = Vec::new();
    let mut i: usize = 0;
    let ghost all = text::texts(v@);
    proof {
        assert(text::texts(out@) =~= without(all.take(0), name@));
    }
    while i < v.len()
        invariant
            i <= v@.len(),
            all == text::texts(v@),
            text::texts(out@) == without(all.take(i as int), name@),
        decreases v@.len() - i,
    {
        proof {
            assert(all.take(i as int + 1).drop_last() =~= all.take(i as int));
        }
        let ghost before = text::texts(out@);
        if !text::str_eq(v[i].as_str(), name) {
            out.push(v[i].clone());
            proof {
                assert(text::texts(out@) =~= before.push(all[i as int]));
            }
        }
        i += 1;
    }
    proof {
        assert(all.take(all.len() as int) == all);
    }
    out
}

fn add_name(v: &mut Vec<String>, name: &str)
    ensures
        text::texts(final(v)@) == with_name(text::texts(old(v)@), name@),
{
    if !text::contains_text(v, name) {
        let ghost before = text::texts(v@);
        v.push(name.to_string());
        proof {
            assert(text::texts(v@) =~= before.push(name@));
        }
    }
}

// ---------------------------------------------------------------------------
// The maps
// ---------------------------------------------------------------------------

/// `dashmap::DashMap`, a hash map.
#[verifier::external_type_specification]
#[verifier::external_body]
#[verifier::reject_recursive_types(K)]
#[verifier::reject_recursive_types(V)]
#[verifier::reject_recursive_types(S)]
pub struct ExDashMap<K, V, S>(dashmap::DashMap<K, V, S>);

/// The rooms that a map holds, by room id.
pub uninterp spec fn rooms_of(m: DashMap<String, VoiceRoom>) -> Map<Seq<char>, RoomModel>;

/// The room id that a map holds for each user.
pub uninterp spec fn user_rooms_of(m: DashMap<String, String>) -> Map<Seq<char>, Seq<char>>;

/// Calls `DashMap::new`: a map with nothing in it.
#[verifier::external_body]
fn new_rooms() -> (r: DashMap<String, VoiceRoom>)
    ensures
        rooms_of(r).dom() == Set::<Seq<char>>::empty(),
{
    DashMap::new()
}

/// Calls `DashMap::view`, which hands the value under a key to the closure, if there is
/// one, and hands out what the closure makes of it; the closure copies the value.
#[verifier::external_body]
fn get_room(m: &DashMap<String, VoiceRoom>, key: &str) -> (r: Option<VoiceRoom>)
    ensures
        match r {
            Some(room) => rooms_of(*m).contains_key(key@) && rooms_of(*m)[key@] == room@,
            None => !rooms_of(*m).contains_key(key@),
        },
{
    m.view(key, |_, room| room.copy())
}

/// Calls `DashMap::insert`, which sets the value of one key.
#[verifier::external_body]
fn put_room(m: &mut DashMap<String, VoiceRoom>, key: &str, room: VoiceRoom)
    ensures
        rooms_of(*final(m)) == rooms_of(*old(m)).insert(key@, room@),
{
    m.insert(key.to_string(), room);
}

/// Calls `DashMap::remove`, which removes one key.
#[verifier::external_body]
fn remove_room(m: &mut DashMap<String, VoiceRoom>, key: &str)
    ensures
        rooms_of(*final(m)) == rooms_of(*old(m)).remove(key@),
{
    m.remove(key);
}

/// Calls `DashMap::new`: a map with nothing in it.
#[verifier::external_body]
fn new_user_rooms() -> (r: DashMap<String, String>)
    ensures
        user_rooms_of(r).dom() == Set::<Seq<char>>::empty(),
{
    DashMap::new()
}

/// Calls `DashMap::get`, and copies the value that the reference leads to.
#[verifier::external_body]
fn get_user_room(m: &DashMap<String, String>, key: &str) -> (r: Option<String>)
    ensures
        match r {
            Some(room) => user_rooms_of(*m).contains_key(key@) && user_rooms_of(*m)[key@] == room@,
            None => !user_rooms_of(*m).contains_key(key@),
        },
{
    m.get(key).map(|entry| entry.value().clone())
}

/// Calls `DashMap::insert`, which sets the value of one key.
#[verifier::external_body]
fn put_user_room(m: &mut DashMap<String, String>, key: &str, room: &str)
    ensures
        user_rooms_of(*final(m)) == user_rooms_of(*old(m)).insert(key@, room@),
{
    m.insert(key.to_string(), room.to_string());
}

/// Calls `DashMap::remove`, which removes one key and hands out its value.
#[verifier::external_body]
fn remove_user_room(m: &mut DashMap<String, String>, key: &str) -> (r: Option<String>)
    ensures
        user_rooms_of(*final(m)) == user_rooms_of(*old(m)).remove(key@),
        match r {
            Some(room) => user_rooms_of(*old(m)).contains_key(key@) && user_rooms_of(*old(m))[key@]
                == room@,
            None => !user_rooms_of(*old(m)).contains_key(key@),
        },
{
    m.remove(key).map(|entry| entry.1)
}

// ---------------------------------------------------------------------------
// Room keys and payloads
// ---------------------------------------------------------------------------

/// The text of an optional part; empty where there is none.
pub open spec fn or_empty(s: Option<Seq<char>>) -> Seq<char> {
    match s {
        Some(t) => t,
        None => Seq::empty(),
    }
}

/// The key of a voice room: by server and channel for a channel's room, by the
/// trimmed room id for any other, with `pending` in place of a blank id.
pub open spec fn room_key_text(
    room_type: Seq<char>,
    server_id: Option<Seq<char>>,
    channel_id: Option<Seq<char>>,
    room_id: Option<Seq<char>>,
) -> Seq<char> {
    if room_type == "channel"@ {
        "voice:channel:"@ + or_empty(server_id) + ":"@ + or_empty(channel_id)
    } else {
        let id = if text::blank(or_empty(room_id)) {
            "pending"@
        } else {
            text::trimmed(or_empty(room_id))
        };
        "voice:"@ + room_type + ":"@ + id
    }
}

proof fn empty_is_blank()
    ensures
        text::blank(Seq::<char>::empty()),
{
}

/// The key of a voice room.
pub fn voice_room_key(
    room_type: &str,
    server_id: Option<&str>,
    channel_id: Option<&str>,
    room_id: Option<&str>,
) -> (r: String)
    ensures
        r@ == room_key_text(
            room_type@,
            text::opt_str(server_id),
            text::opt_str(channel_id),
            text::opt_str(room_id),
        ),
{
    if text::str_eq(room_type, "channel") {
        let mut key = "voice:channel:".to_string();
        if let Some(s) = server_id {
            key.append(s);
        }
        proof {
            assert(key@ =~= "voice:channel:"@ + or_empty(text::opt_str(server_id)));
        }
        key.append(":");
        let ghost before = key@;
        if let Some(c) = channel_id {
            key.append(c);
        }
        proof {
            assert(key@ =~= before + or_empty(text::opt_str(channel_id)));
        }
        key
    } else {
        let mut key = text::join3("voice:", room_type, ":");
        proof {
            empty_is_blank();
        }
        match room_id {
            Some(v) if !text::is_blank(v) => {
                key.append(text::trim(v));
            },
            _ => {
                key.append("pending");
            },
        }
        key
    }
}

/// What participants are told of a room: its members, the participants sorted.
pub open spec fn room_state_object(
    room_id: Seq<char>,
    room: RoomModel,
) -> Seq<(Seq<char>, JsonModel)> {
    seq![
        ("type"@, JsonModel::Text("voice_room_state"@)),
        ("roomId"@, JsonModel::Text(room_id)),
        ("roomType"@, JsonModel::Text(room.room_type)),
        ("serverId"@, json::text_or_null(room.server_id)),
        ("channelId"@, json::text_or_null(room.channel_id)),
        ("participants"@, JsonModel::Texts(order::sorted_texts(room.participants))),
    ]
}

/// The state of a room as its participants are told it.
pub fn voice_room_payload(room_id: &str, room: &VoiceRoom) -> (r: JsonObject)
    ensures
        r@ == room_state_object(room_id@, room@),
{
    let participants = order::sort_texts(&room.participants);
    let mut o = JsonObject::of_type("voice_room_state");
    o.put_text("roomId", room_id);
    o.put_text("roomType", room.room_type.as_str());
    o.put_opt("serverId", &room.server_id);
    o.put_opt("channelId", &room.channel_id);
    o.put_texts("participants", &participants);
    proof {
        assert(o@ =~= room_state_object(room_id@, room@));
    }
    o
}

/// The state of a room, for each participant, in the order of their names.
pub open spec fn room_state_posts(room_id: Seq<char>, room: RoomModel) -> Seq<Post> {
    delivery::same_for_all(
        order::sorted_texts(room.participants),
        room_state_object(room_id, room),
    )
}

/// An object with the given members for one user.
pub open spec fn post(to: Seq<char>, object: Seq<(Seq<char>, JsonModel)>) -> Post {
    Post { to, payload: PayloadModel::Object(object) }
}

// ---------------------------------------------------------------------------
// Transitions
// ---------------------------------------------------------------------------

/// The voice rooms and the room that each user counts as being in.
pub struct VoiceState {
    pub rooms: Map<Seq<char>, RoomModel>,
    pub user_rooms: Map<Seq<char>, Seq<char>>,
}

impl VoiceState {
    /// Every room has a participant, and none of them twice.
    pub open spec fn inv(self) -> bool {
        forall|id: Seq<char>| #[trigger]
            self.rooms.contains_key(id) ==> self.rooms[id].participants.len() > 0
                && self.rooms[id].participants.no_duplicates()
    }
}

/// A room that is closed when these participants are left in it: one without
/// participants, or a call with at most one.
pub open spec fn closes(room_type: Seq<char>, left: Seq<Seq<char>>) -> bool {
    left.len() == 0 || (room_type == "dm"@ && left.len() <= 1)
}

pub open spec fn call_ended_object(
    room_id: Seq<char>,
    from: Seq<char>,
) -> Seq<(Seq<char>, JsonModel)> {
    seq![
        ("type"@, JsonModel::Text("voice_call_ended"@)),
        ("roomId"@, JsonModel::Text(room_id)),
        ("from"@, JsonModel::Text(from)),
    ]
}

/// A user leaves the room they are in. The room closes when no one is left (in a
/// call: at most one), which ends the call for who is left; else those who are
/// left are told the new state.
pub open spec fn leave(st: VoiceState, user: Seq<char>) -> (VoiceState, Seq<Post>) {
    if !st.user_rooms.contains_key(user) {
        (st, Seq::empty())
    } else {
        let id = st.user_rooms[user];
        let user_rooms = st.user_rooms.remove(user);
        if !st.rooms.contains_key(id) {
            (VoiceState { rooms: st.rooms, user_rooms }, Seq::empty())
        } else {
            let room = st.rooms[id];
            let left = without(room.participants, user);
            if closes(room.room_type, left) {
                (
                    VoiceState { rooms: st.rooms.remove(id), user_rooms },
                    if room.room_type == "dm"@ {
                        delivery::same_for_all(left, call_ended_object(id, user))
                    } else {
                        Seq::empty()
                    },
                )
            } else {
                let after = RoomModel { participants: left, ..room };
                (
                    VoiceState { rooms: st.rooms.insert(id, after), user_rooms },
                    room_state_posts(id, after),
                )
            }
        }
    }
}

/// A user joins a room, and first leaves the room they are in, if it is another.
/// The room takes the type and ids that the last one to join gave.
pub open spec fn join(
    st: VoiceState,
    user: Seq<char>,
    room_id: Seq<char>,
    room_type: Seq<char>,
    server_id: Option<Seq<char>>,
    channel_id: Option<Seq<char>>,
) -> (VoiceState, Seq<Post>) {
    let (mid, first) = if st.user_rooms.contains_key(user) && st.user_rooms[user] == room_id {
        (st, Seq::empty())
    } else {
        leave(st, user)
    };
    let there = if mid.rooms.contains_key(room_id) {
        mid.rooms[room_id].participants
    } else {
        Seq::empty()
    };
    let room = RoomModel {
        room_type,
        server_id,
        channel_id,
        participants: with_name(there, user),
    };
    (
        VoiceState {
            rooms: mid.rooms.insert(room_id, room),
            user_rooms: mid.user_rooms.insert(user, room_id),
        },
        first + room_state_posts(room_id, room),
    )
}

/// Two users are put into a call: the room holds these two alone.
pub open spec fn connect(
    st: VoiceState,
    room_id: Seq<char>,
    sender: Seq<char>,
    inviter: Seq<char>,
) -> VoiceState {
    VoiceState {
        rooms: st.rooms.insert(
            room_id,
            RoomModel {
                room_type: "dm"@,
                server_id: None,
                channel_id: None,
                participants: with_name(seq![sender], inviter),
            },
        ),
        user_rooms: st.user_rooms.insert(sender, room_id).insert(inviter, room_id),
    }
}

pub open spec fn call_object(
    kind: Seq<char>,
    room_id: Seq<char>,
    from: Seq<char>,
    target: Seq<char>,
) -> Seq<(Seq<char>, JsonModel)> {
    seq![
        ("type"@, JsonModel::Text(kind)),
        ("roomId"@, JsonModel::Text(room_id)),
        ("from"@, JsonModel::Text(from)),
        ("target"@, JsonModel::Text(target)),
    ]
}

pub open spec fn pair_object(
    kind: Seq<char>,
    room_id: Seq<char>,
    from: Seq<char>,
    target: Seq<char>,
) -> Seq<(Seq<char>, JsonModel)> {
    call_object(kind, room_id, from, target).push(
        ("participants"@, JsonModel::Texts(seq![from, target])),
    )
}

pub open spec fn invite_object(
    room_id: Seq<char>,
    from: Seq<char>,
    target: Seq<char>,
) -> Seq<(Seq<char>, JsonModel)> {
    seq![
        ("type"@, JsonModel::Text("voice_call_invite"@)),
        ("roomId"@, JsonModel::Text(room_id)),
        ("roomType"@, JsonModel::Text("dm"@)),
        ("from"@, JsonModel::Text(from)),
        ("target"@, JsonModel::Text(target)),
    ]
}

pub open spec fn outgoing_object(
    room_id: Seq<char>,
    target: Seq<char>,
) -> Seq<(Seq<char>, JsonModel)> {
    seq![
        ("type"@, JsonModel::Text("voice_call_outgoing"@)),
        ("roomId"@, JsonModel::Text(room_id)),
        ("roomType"@, JsonModel::Text("dm"@)),
        ("target"@, JsonModel::Text(target)),
    ]
}

pub open spec fn no_access_object(room_id: Seq<char>) -> Seq<(Seq<char>, JsonModel)> {
    seq![
        ("type"@, JsonModel::Text("voice_error"@)),
        ("roomId"@, JsonModel::Text(room_id)),
        ("message"@, JsonModel::Text("Нет доступа к голосовому каналу"@)),
    ]
}

/// The room id of a call that names none: the two names in order.
pub open spec fn call_room_id(a: Seq<char>, b: Seq<char>) -> Seq<char> {
    let pair = if text::text_less(b, a) {
        b + ":"@ + a
    } else {
        a + ":"@ + b
    };
    room_key_text("dm"@, None, None, Some(pair))
}

/// The type of room that a `voice_join` names.
pub open spec fn joined_type(members: Map<Seq<char>, Seq<char>>) -> Seq<char> {
    if members.contains_key("roomType"@) {
        members["roomType"@]
    } else {
        "channel"@
    }
}

/// The server and channel whose access rules decide on a `voice_join`, if any.
pub open spec fn join_access(members: Map<Seq<char>, Seq<char>>) -> Option<
    (Seq<char>, Seq<char>),
> {
    if members.contains_key("type"@) && members["type"@] == "voice_join"@
        && json::trimmed_member(members, "roomId"@).len() > 0 && joined_type(members)
        == "channel"@ && members.contains_key("serverId"@) && members.contains_key("channelId"@) {
        Some(
            (text::trimmed(members["serverId"@]), text::trimmed(members["channelId"@])),
        )
    } else {
        None
    }
}

/// A signal goes to the user that it names in `to`; without one, to everyone in
/// the room but the sender. Its `from` is the sender, whatever the client wrote.
pub open spec fn route(
    st: VoiceState,
    sender: Seq<char>,
    members: Map<Seq<char>, Seq<char>>,
    others: Map<Seq<char>, Seq<char>>,
) -> Seq<Post> {
    let room_id = json::trimmed_member(members, "roomId"@);
    let to = json::trimmed_member(members, "to"@);
    let signal = PayloadModel::Forwarded {
        texts: members.insert("from"@, sender),
        others: others.remove("from"@),
    };
    if room_id.len() == 0 {
        Seq::empty()
    } else if to.len() > 0 {
        seq![Post { to, payload: signal }]
    } else if st.rooms.contains_key(room_id) {
        without(st.rooms[room_id].participants, sender).map_values(
            |p: Seq<char>| Post { to: p, payload: signal },
        )
    } else {
        Seq::empty()
    }
}

/// What one event of a client does to the rooms, and who is told what.
/// `channel_open` is the answer to the access question of a `voice_join`.
pub open spec fn step(
    st: VoiceState,
    sender: Seq<char>,
    members: Map<Seq<char>, Seq<char>>,
    others: Map<Seq<char>, Seq<char>>,
    channel_open: bool,
) -> (VoiceState, Seq<Post>) {
    let kind = or_empty(members.get("type"@));
    let room_id = json::trimmed_member(members, "roomId"@);
    let target = json::trimmed_member(members, "target"@);
    let inviter = json::trimmed_member(members, "inviter"@);
    if kind == "voice_join"@ {
        if room_id.len() == 0 {
            (st, Seq::empty())
        } else if join_access(members) is Some && !channel_open {
            (st, seq![post(sender, no_access_object(room_id))])
        } else {
            join(
                st,
                sender,
                room_id,
                joined_type(members),
                json::opt_trimmed_member(members, "serverId"@),
                json::opt_trimmed_member(members, "channelId"@),
            )
        }
    } else if kind == "voice_leave"@ || kind == "voice_call_end"@ {
        leave(st, sender)
    } else if kind == "voice_signal"@ {
        (st, route(st, sender, members, others))
    } else if kind == "voice_call_invite"@ {
        if target.len() == 0 {
            (st, Seq::empty())
        } else {
            let id = if room_id.len() == 0 {
                call_room_id(sender, target)
            } else {
                room_id
            };
            (
                st,
                seq![
                    post(target, invite_object(id, sender, target)),
                    post(sender, outgoing_object(id, target)),
                ],
            )
        }
    } else if kind == "voice_call_accept"@ {
        if room_id.len() == 0 || inviter.len() == 0 {
            (st, Seq::empty())
        } else {
            (
                connect(st, room_id, sender, inviter),
                seq![
                    post(inviter, pair_object("voice_call_accepted"@, room_id, sender, inviter)),
                    post(sender, pair_object("voice_call_accepted"@, room_id, sender, inviter)),
                    post(inviter, pair_object("voice_call_connected"@, room_id, sender, inviter)),
                    post(sender, pair_object("voice_call_connected"@, room_id, sender, inviter)),
                ],
            )
        }
    } else if kind == "voice_call_reject"@ {
        if room_id.len() == 0 || inviter.len() == 0 {
            (st, Seq::empty())
        } else {
            (
                st,
                seq![
                    post(inviter, call_object("voice_call_rejected"@, room_id, sender, inviter)),
                ],
            )
        }
    } else if kind == "voice_call_cancel"@ {
        if room_id.len() == 0 || target.len() == 0 {
            (st, Seq::empty())
        } else {
            (
                st,
                seq![post(target, call_object("voice_call_cancelled"@, room_id, sender, target))],
            )
        }
    } else {
        (st, Seq::empty())
    }
}

// ---------------------------------------------------------------------------
// The hub
// ---------------------------------------------------------------------------

/// The voice rooms of a running server.
pub struct VoiceHub {
    rooms: DashMap<String, VoiceRoom>,
    user_rooms: DashMap<String, String>,
}

impl View for VoiceHub {
    type V = VoiceState;

    closed spec fn view(&self) -> VoiceState {
        VoiceState { rooms: rooms_of(self.rooms), user_rooms: user_rooms_of(self.user_rooms) }
    }
}

impl VoiceHub {
    /// No room, and no one in one.
    pub fn new() -> (r: VoiceHub)
        ensures
            r@.rooms == Map::<Seq<char>, RoomModel>::empty(),
            r@.user_rooms == Map::<Seq<char>, Seq<char>>::empty(),
            r@.inv(),
    {
        let r = VoiceHub { rooms: new_rooms(), user_rooms: new_user_rooms() };
        proof {
            assert(r@.rooms =~= Map::<Seq<char>, RoomModel>::empty());
            assert(r@.user_rooms =~= Map::<Seq<char>, Seq<char>>::empty());
        }
        r
    }

    /// The room under a key.
    pub fn room(&self, room_id: &str) -> (r: Option<VoiceRoom>)
        ensures
            match r {
                Some(room) => self@.rooms.contains_key(room_id@) && self@.rooms[room_id@] == room@,
                None => !self@.rooms.contains_key(room_id@),
            },
    {
        get_room(&self.rooms, room_id)
    }

    /// The room that a user counts as being in.
    pub fn room_of(&self, username: &str) -> (r: Option<String>)
        ensures
            match r {
                Some(id) => self@.user_rooms.contains_key(username@) && self@.user_rooms[username@]
                    == id@,
                None => !self@.user_rooms.contains_key(username@),
            },
    {
        get_user_room(&self.user_rooms, username)
    }

    /// The state of a room, for each of its participants.
    pub fn broadcast_voice_room_state(&self, room_id: &str) -> (r: Vec<Outgoing>)
        ensures
            delivery::posts(r@) == (if self@.rooms.contains_key(room_id@) {
                room_state_posts(room_id@, self@.rooms[room_id@])
            } else {
                Seq::empty()
            }),
    {
        match get_room(&self.rooms, room_id) {
            Some(room) => {
                let payload = voice_room_payload(room_id, &room);
                let participants = order::sort_texts(&room.participants);
                delivery::send_to_all(&participants, &payload)
            },
            None => {
                let out: Vec<Outgoing> = Vec::new();
                proof {
                    assert(delivery::posts(out@) =~= Seq::empty());
                }
                out
            },
        }
    }

    /// A user leaves the room they are in.
    pub fn leave_voice_room(&mut self, username: &str) -> (r: Vec<Outgoing>)
        requires
            old(self)@.inv(),
        ensures
            (final(self)@, delivery::posts(r@)) == leave(old(self)@, username@),
            final(self)@.inv(),
    {
        let ghost before = self@;
        let mut out: Vec<Outgoing> = Vec::new();
        proof {
            assert(delivery::posts(out@) =~= Seq::empty());
            leave_keeps_inv(before, username@);
        }
        let room_id = match remove_user_room(&mut self.user_rooms, username) {
            Some(id) => id,
            None => {
                proof {
                    assert(self@.user_rooms =~= before.user_rooms);
                }
                return out;
            },
        };
        match get_room(&self.rooms, room_id.as_str()) {
            Some(mut room) => {
                let left = remove_name(&room.participants, username);
                let is_call = text::str_eq(room.room_type.as_str(), "dm");
                if left.len() == 0 || (is_call && left.len() <= 1) {
                    remove_room(&mut self.rooms, room_id.as_str());
                    if is_call {
                        let mut ended = JsonObject::of_type("voice_call_ended");
                        ended.put_text("roomId", room_id.as_str());
                        ended.put_text("from", username);
                        proof {
                            assert(ended@ =~= call_ended_object(room_id@, username@));
                        }
                        out = delivery::send_to_all(&left, &ended);
                    }
                    out
                } else {
                    let ghost was = room@;
                    room.participants = left;
                    proof {
                        assert(room@ =~= RoomModel { participants: text::texts(left@), ..was });
                    }
                    put_room(&mut self.rooms, room_id.as_str(), room);
                    self.broadcast_voice_room_state(room_id.as_str())
                }
            },
            None => out,
        }
    }

    /// A user joins a room.
    pub fn join_voice_room(
        &mut self,
        username: &str,
        room_id: &str,
        room_type: &str,
        server_id: &Option<String>,
        channel_id: &Option<String>,
    ) -> (r: Vec<Outgoing>)
        requires
            old(self)@.inv(),
        ensures
            (final(self)@, delivery::posts(r@)) == join(
                old(self)@,
                username@,
                room_id@,
                room_type@,
                text::opt_text(*server_id),
                text::opt_text(*channel_id),
            ),
            final(self)@.inv(),
    {
        let ghost before = self@;
        proof {
            join_keeps_inv(
                before,
                username@,
                room_id@,
                room_type@,
                text::opt_text(*server_id),
                text::opt_text(*channel_id),
            );
        }
        let stays = match get_user_room(&self.user_rooms, username) {
            Some(current) => text::str_eq(current.as_str(), room_id),
            None => false,
        };
        let mut out: Vec<Outgoing> = Vec::new();
        proof {
            assert(delivery::posts(out@) =~= Seq::empty());
        }
        if !stays {
            out = self.leave_voice_room(username);
        }
        let mut room = match get_room(&self.rooms, room_id) {
            Some(room) => room,
            None => VoiceRoom::new(
                room_type.to_string(),
                text::clone_opt(server_id),
                text::clone_opt(channel_id),
            ),
        };
        room.room_type = room_type.to_string();
        room.server_id = text::clone_opt(server_id);
        room.channel_id = text::clone_opt(channel_id);
        add_name(&mut room.participants, username);
        put_room(&mut self.rooms, room_id, room);
        put_user_room(&mut self.user_rooms, username, room_id);
        let mut told = self.broadcast_voice_room_state(room_id);
        let ghost first = out@;
        let ghost second = told@;
        out.append(&mut told);
        proof {
            assert(delivery::posts(out@) =~= delivery::posts(first) + delivery::posts(second));
        }
        out
    }

    /// A signal is passed on to the user it names, or to the rest of the room.
    pub fn route_voice_signal(&self, sender: &str, payload: &Value) -> (r: Vec<Outgoing>)
        ensures
            delivery::posts(r@) == route(
                self@,
                sender@,
                json::text_members(*payload),
                json::other_members(*payload),
            ),
    {
        let mut out: Vec<Outgoing> = Vec::new();
        proof {
            assert(delivery::posts(out@) =~= Seq::empty());
        }
        let room_id = json::read_trimmed(payload, "roomId");
        if room_id.as_str().is_empty() {
            return out;
        }
        proof {
            assert(json::text_members(*payload).contains_key("roomId"@));
        }
        let mut signal = json::clone_value(payload);
        json::set_text_member(&mut signal, "from", sender);
        let target = json::read_trimmed(payload, "to");
        if !target.as_str().is_empty() {
            out.push(Outgoing { to: target, payload: Payload::Forwarded(signal) });
            proof {
                assert(delivery::posts(out@) =~= route(
                    self@,
                    sender@,
                    json::text_members(*payload),
                    json::other_members(*payload),
                ));
            }
            return out;
        }
        match get_room(&self.rooms, room_id.as_str()) {
            Some(room) => {
                let others = remove_name(&room.participants, sender);
                let ghost all = route(
                    self@,
                    sender@,
                    json::text_members(*payload),
                    json::other_members(*payload),
                );
                let ghost signal_model = Payload::Forwarded(signal)@;
                let mut i: usize = 0;
                while i < others.len()
                    invariant
                        i <= others@.len(),
                        Payload::Forwarded(signal)@ == signal_model,
                        all.len() == others@.len(),
                        forall|j: int|
                            0 <= j < all.len() ==> #[trigger] all[j] == (Post {
                                to: text::texts(others@)[j],
                                payload: signal_model,
                            }),
                        delivery::posts(out@) =~= all.take(i as int),
                    decreases others@.len() - i,
                {
                    let ghost before = delivery::posts(out@);
                    out.push(
                        Outgoing {
                            to: others[i].clone(),
                            payload: Payload::Forwarded(json::clone_value(&signal)),
                        },
                    );
                    i += 1;
                    proof {
                        assert(delivery::posts(out@) =~= before.push(all[i as int - 1]));
                        assert(all.take(i as int) =~= before.push(all[i as int - 1]));
                    }
                }
                proof {
                    assert(all.take(all.len() as int) == all);
                }
                out
            },
            None => out,
        }
    }

    /// Two users are put into a call.
    fn connect_call(&mut self, room_id: &str, sender: &str, inviter: &str)
        requires
            old(self)@.inv(),
        ensures
            final(self)@ == connect(old(self)@, room_id@, sender@, inviter@),
            final(self)@.inv(),
    {
        let ghost before = self@;
        let mut room = VoiceRoom::new("dm".to_string(), None, None);
        room.participants.push(sender.to_string());
        proof {
            assert(text::texts(room.participants@) =~= seq![sender@]);
        }
        add_name(&mut room.participants, inviter);
        put_room(&mut self.rooms, room_id, room);
        put_user_room(&mut self.user_rooms, sender, room_id);
        put_user_room(&mut self.user_rooms, inviter, room_id);
        proof {
            connect_keeps_inv(before, room_id@, sender@, inviter@);
        }
    }

    /// One event of a client. `channel_open` is the answer to what
    /// `voice_join_access` asks; it counts only where that asks something.
    pub fn handle_voice_event(
        &mut self,
        sender: &str,
        payload: &Value,
        channel_open: bool,
    ) -> (r: Vec<Outgoing>)
        requires
            old(self)@.inv(),
        ensures
            (final(self)@, delivery::posts(r@)) == step(
                old(self)@,
                sender@,
                json::text_members(*payload),
                json::other_members(*payload),
                channel_open,
            ),
            final(self)@.inv(),
    {
        let kind = match json::text_member(payload, "type") {
            Some(kind) => kind,
            None => String::new(),
        };
        let kind = kind.as_str();
        proof {
            assert(kind@ =~= or_empty(json::text_members(*payload).get("type"@)));
        }
        let mut out: Vec<Outgoing> = Vec::new();
        proof {
            assert(delivery::posts(out@) =~= Seq::empty());
        }
        let room_id = json::read_trimmed(payload, "roomId");
        let room_id = room_id.as_str();
        if text::str_eq(kind, "voice_join") {
            if room_id.is_empty() {
                return out;
            }
            if voice_join_access(payload).is_some() && !channel_open {
                let mut refusal = JsonObject::of_type("voice_error");
                refusal.put_text("roomId", room_id);
                refusal.put_text("message", "Нет доступа к голосовому каналу");
                proof {
                    assert(refusal@ =~= no_access_object(room_id@));
                }
                out.push(delivery::object_for(sender, refusal));
                proof {
                    assert(delivery::posts(out@) =~= seq![post(sender@, no_access_object(room_id@))]);
                }
                return out;
            }
            let room_type = match json::text_member(payload, "roomType") {
                Some(t) => t,
                None => "channel".to_string(),
            };
            let server_id = json::read_opt_trimmed(payload, "serverId");
            let channel_id = json::read_opt_trimmed(payload, "channelId");
            self.join_voice_room(sender, room_id, room_type.as_str(), &server_id, &channel_id)
        } else if text::str_eq(kind, "voice_leave") || text::str_eq(kind, "voice_call_end") {
            self.leave_voice_room(sender)
        } else if text::str_eq(kind, "voice_signal") {
            self.route_voice_signal(sender, payload)
        } else if text::str_eq(kind, "voice_call_invite") {
            let target = json::read_trimmed(payload, "target");
            if target.as_str().is_empty() {
                return out;
            }
            call_invite(sender, target.as_str(), room_id)
        } else if text::str_eq(kind, "voice_call_accept") {
            let inviter = json::read_trimmed(payload, "inviter");
            if room_id.is_empty() || inviter.as_str().is_empty() {
                return out;
            }
            self.connect_call(room_id, sender, inviter.as_str());
            call_accepted(sender, inviter.as_str(), room_id)
        } else if text::str_eq(kind, "voice_call_reject") {
            let inviter = json::read_trimmed(payload, "inviter");
            if room_id.is_empty() || inviter.as_str().is_empty() {
                return out;
            }
            out.push(
                delivery::object_for(
                    inviter.as_str(),
                    call_payload("voice_call_rejected", room_id, sender, inviter.as_str()),
                ),
            );
            proof {
                assert(delivery::posts(out@) =~= seq![
                    post(
                        inviter@,
                        call_object("voice_call_rejected"@, room_id@, sender@, inviter@),
                    ),
                ]);
            }
            out
        } else if text::str_eq(kind, "voice_call_cancel") {
            let target = json::read_trimmed(payload, "target");
            if room_id.is_empty() || target.as_str().is_empty() {
                return out;
            }
            out.push(
                delivery::object_for(
                    target.as_str(),
                    call_payload("voice_call_cancelled", room_id, sender, target.as_str()),
                ),
            );
            proof {
                assert(delivery::posts(out@) =~= seq![
                    post(target@, call_object("voice_call_cancelled"@, room_id@, sender@, target@)),
                ]);
            }
            out
        } else {
            out
        }
    }
}

/// The server and channel whose access rules decide on a `voice_join`, if any.
pub fn voice_join_access(payload: &Value) -> (r: Option<(String, String)>)
    ensures
        match r {
            Some(ids) => join_access(json::text_members(*payload)) == Some((ids.0@, ids.1@)),
            None => join_access(json::text_members(*payload)) is None,
        },
{
    match json::text_member(payload, "type") {
        Some(kind) => {
            if !text::str_eq(kind.as_str(), "voice_join") {
                return None;
            }
        },
        None => {
            return None;
        },
    }
    if json::read_trimmed(payload, "roomId").as_str().is_empty() {
        return None;
    }
    if let Some(room_type) = json::text_member(payload, "roomType") {
        if !text::str_eq(room_type.as_str(), "channel") {
            return None;
        }
    }
    match (
        json::read_opt_trimmed(payload, "serverId"),
        json::read_opt_trimmed(payload, "channelId"),
    ) {
        (Some(server_id), Some(channel_id)) => Some((server_id, channel_id)),
        _ => None,
    }
}

fn call_payload(kind: &str, room_id: &str, from: &str, target: &str) -> (r: JsonObject)
    ensures
        r@ == call_object(kind@, room_id@, from@, target@),
{
    let mut o = JsonObject::of_type(kind);
    o.put_text("roomId", room_id);
    o.put_text("from", from);
    o.put_text("target", target);
    proof {
        assert(o@ =~= call_object(kind@, room_id@, from@, target@));
    }
    o
}

fn pair_payload(kind: &str, room_id: &str, from: &str, target: &str) -> (r: JsonObject)
    ensures
        r@ == pair_object(kind@, room_id@, from@, target@),
{
    let mut o = call_payload(kind, room_id, from, target);
    let mut pair: Vec<String> = Vec::new();
    pair.push(from.to_string());
    pair.push(target.to_string());
    proof {
        assert(text::texts(pair@) =~= seq![from@, target@]);
    }
    o.put_texts("participants", &pair);
    o
}

/// The room id of a call that names none.
fn call_room(a: &str, b: &str) -> (r: String)
    ensures
        r@ == call_room_id(a@, b@),
{
    let pair = if text::str_less(b, a) {
        text::join3(b, ":", a)
    } else {
        text::join3(a, ":", b)
    };
    voice_room_key("dm", None, None, Some(pair.as_str()))
}

fn call_invite(sender: &str, target: &str, room_id: &str) -> (r: Vec<Outgoing>)
    ensures
        ({
            let id = if room_id@.len() == 0 {
                call_room_id(sender@, target@)
            } else {
                room_id@
            };
            delivery::posts(r@) == seq![
                post(target@, invite_object(id, sender@, target@)),
                post(sender@, outgoing_object(id, target@)),
            ]
        }),
{
    let id = if room_id.is_empty() {
        call_room(sender, target)
    } else {
        room_id.to_string()
    };
    let mut invite = JsonObject::of_type("voice_call_invite");
    invite.put_text("roomId", id.as_str());
    invite.put_text("roomType", "dm");
    invite.put_text("from", sender);
    invite.put_text("target", target);
    let mut outgoing = JsonObject::of_type("voice_call_outgoing");
    outgoing.put_text("roomId", id.as_str());
    outgoing.put_text("roomType", "dm");
    outgoing.put_text("target", target);
    proof {
        assert(invite@ =~= invite_object(id@, sender@, target@));
        assert(outgoing@ =~= outgoing_object(id@, target@));
    }
    let mut out: Vec<Outgoing> = Vec::new();
    out.push(delivery::object_for(target, invite));
    out.push(delivery::object_for(sender, outgoing));
    proof {
        assert(delivery::posts(out@) =~= seq![
            post(target@, invite_object(id@, sender@, target@)),
            post(sender@, outgoing_object(id@, target@)),
        ]);
    }
    out
}

fn call_accepted(sender: &str, inviter: &str, room_id: &str) -> (r: Vec<Outgoing>)
    ensures
        delivery::posts(r@) == seq![
            post(inviter@, pair_object("voice_call_accepted"@, room_id@, sender@, inviter@)),
            post(sender@, pair_object("voice_call_accepted"@, room_id@, sender@, inviter@)),
            post(inviter@, pair_object("voice_call_connected"@, room_id@, sender@, inviter@)),
            post(sender@, pair_object("voice_call_connected"@, room_id@, sender@, inviter@)),
        ],
{
    let accepted = pair_payload("voice_call_accepted", room_id, sender, inviter);
    let connected = pair_payload("voice_call_connected", room_id, sender, inviter);
    let mut out: Vec<Outgoing> = Vec::new();
    out.push(delivery::object_for(inviter, accepted.copy()));
    out.push(delivery::object_for(sender, accepted));
    out.push(delivery::object_for(inviter, connected.copy()));
    out.push(delivery::object_for(sender, connected));
    proof {
        assert(delivery::posts(out@) =~= seq![
            post(inviter@, pair_object("voice_call_accepted"@, room_id@, sender@, inviter@)),
            post(sender@, pair_object("voice_call_accepted"@, room_id@, sender@, inviter@)),
            post(inviter@, pair_object("voice_call_connected"@, room_id@, sender@, inviter@)),
            post(sender@, pair_object("voice_call_connected"@, room_id@, sender@, inviter@)),
        ]);
    }
    out
}

// ---------------------------------------------------------------------------
// Laws
// ---------------------------------------------------------------------------

/// Leaving keeps rooms inhabited and participants listed once.
pub proof fn leave_keeps_inv(st: VoiceState, user: Seq<char>)
    requires
        st.inv(),
    ensures
        leave(st, user).0.inv(),
{
    let after = leave(st, user).0;
    assert forall|id: Seq<char>| #[trigger]
        after.rooms.contains_key(id) implies after.rooms[id].participants.len() > 0
        && after.rooms[id].participants.no_duplicates() by {
        assert(st.rooms.contains_key(id));
        if st.user_rooms.contains_key(user) && st.user_rooms[user] == id {
            without_facts(st.rooms[id].participants, user);
        }
    }
}

/// Joining keeps rooms inhabited and participants listed once.
pub proof fn join_keeps_inv(
    st: VoiceState,
    user: Seq<char>,
    room_id: Seq<char>,
    room_type: Seq<char>,
    server_id: Option<Seq<char>>,
    channel_id: Option<Seq<char>>,
)
    requires
        st.inv(),
    ensures
        join(st, user, room_id, room_type, server_id, channel_id).0.inv(),
{
    leave_keeps_inv(st, user);
    let mid = if st.user_rooms.contains_key(user) && st.user_rooms[user] == room_id {
        st
    } else {
        leave(st, user).0
    };
    let there = if mid.rooms.contains_key(room_id) {
        mid.rooms[room_id].participants
    } else {
        Seq::empty()
    };
    with_name_facts(there, user);
    let after = join(st, user, room_id, room_type, server_id, channel_id).0;
    assert forall|id: Seq<char>| #[trigger]
        after.rooms.contains_key(id) implies after.rooms[id].participants.len() > 0
        && after.rooms[id].participants.no_duplicates() by {
        if id != room_id {
            assert(mid.rooms.contains_key(id));
        }
    }
}

/// A call keeps rooms inhabited and participants listed once.
pub proof fn connect_keeps_inv(
    st: VoiceState,
    room_id: Seq<char>,
    sender: Seq<char>,
    inviter: Seq<char>,
)
    requires
        st.inv(),
    ensures
        connect(st, room_id, sender, inviter).inv(),
{
    with_name_facts(seq![sender], inviter);
    let after = connect(st, room_id, sender, inviter);
    assert forall|id: Seq<char>| #[trigger]
        after.rooms.contains_key(id) implies after.rooms[id].participants.len() > 0
        && after.rooms[id].participants.no_duplicates() by {
        if id != room_id {
            assert(st.rooms.contains_key(id));
        }
    }
}

/// Who has left is in no room, and the room that they left no longer lists them.
pub proof fn left_is_out(st: VoiceState, user: Seq<char>)
    requires
        st.inv(),
        st.user_rooms.contains_key(user),
    ensures
        !leave(st, user).0.user_rooms.contains_key(user),
        ({
            let id = st.user_rooms[user];
            let after = leave(st, user).0;
            after.rooms.contains_key(id) ==> !after.rooms[id].participants.contains(user)
        }),
{
    let id = st.user_rooms[user];
    if st.rooms.contains_key(id) {
        without_facts(st.rooms[id].participants, user);
    }
}

/// Leaving touches the room of the one who leaves and no other, and no one
/// else's place.
pub proof fn leave_is_local(st: VoiceState, user: Seq<char>)
    ensures
        forall|other: Seq<char>| other != user ==> (#[trigger] leave(st, user).0.user_rooms.contains_key(other)
            <==> st.user_rooms.contains_key(other)),
        forall|other: Seq<char>|
            other != user && st.user_rooms.contains_key(other)
                ==> #[trigger] leave(st, user).0.user_rooms[other] == st.user_rooms[other],
        forall|id: Seq<char>|
            !(st.user_rooms.contains_key(user) && st.user_rooms[user] == id) ==> (
            #[trigger] leave(st, user).0.rooms.contains_key(id) <==> st.rooms.contains_key(id)),
        forall|id: Seq<char>|
            !(st.user_rooms.contains_key(user) && st.user_rooms[user] == id)
                && st.rooms.contains_key(id) ==> #[trigger] leave(st, user).0.rooms[id]
                == st.rooms[id],
        forall|id: Seq<char>|
            #![trigger leave(st, user).0.rooms.contains_key(id)]
            leave(st, user).0.rooms.contains_key(id) ==> st.rooms.contains_key(id),
{
}

/// Leaving twice is leaving once: the second time nothing changes and no one is
/// told anything.
pub proof fn leave_idempotent(st: VoiceState, user: Seq<char>)
    ensures
        leave(leave(st, user).0, user) == (leave(st, user).0, Seq::<Post>::empty()),
{
}

/// Who has joined is in the room, and the room has the type and ids given.
pub proof fn joined_is_in(
    st: VoiceState,
    user: Seq<char>,
    room_id: Seq<char>,
    room_type: Seq<char>,
    server_id: Option<Seq<char>>,
    channel_id: Option<Seq<char>>,
)
    ensures
        ({
            let after = join(st, user, room_id, room_type, server_id, channel_id).0;
            &&& after.user_rooms.contains_key(user)
            &&& after.user_rooms[user] == room_id
            &&& after.rooms.contains_key(room_id)
            &&& after.rooms[room_id].participants.contains(user)
            &&& after.rooms[room_id].room_type == room_type
            &&& after.rooms[room_id].server_id == server_id
            &&& after.rooms[room_id].channel_id == channel_id
        }),
{
    let mid = if st.user_rooms.contains_key(user) && st.user_rooms[user] == room_id {
        st
    } else {
        leave(st, user).0
    };
    let there = if mid.rooms.contains_key(room_id) {
        mid.rooms[room_id].participants
    } else {
        Seq::empty()
    };
    with_name_facts(there, user);
}

/// Joining another room takes the user out of the one they were in.
pub proof fn join_leaves_the_other_room(
    st: VoiceState,
    user: Seq<char>,
    room_id: Seq<char>,
    room_type: Seq<char>,
    server_id: Option<Seq<char>>,
    channel_id: Option<Seq<char>>,
)
    requires
        st.inv(),
        st.user_rooms.contains_key(user),
        st.user_rooms[user] != room_id,
    ensures
        ({
            let after = join(st, user, room_id, room_type, server_id, channel_id).0;
            let old_id = st.user_rooms[user];
            after.rooms.contains_key(old_id) ==> !after.rooms[old_id].participants.contains(user)
        }),
{
    left_is_out(st, user);
}

/// Who is in no room, joins a room that no one is in and leaves again, changes
/// nothing.
pub proof fn leave_undoes_join(
    st: VoiceState,
    user: Seq<char>,
    room_id: Seq<char>,
    room_type: Seq<char>,
    server_id: Option<Seq<char>>,
    channel_id: Option<Seq<char>>,
)
    requires
        !st.user_rooms.contains_key(user),
        !st.rooms.contains_key(room_id),
    ensures
        leave(join(st, user, room_id, room_type, server_id, channel_id).0, user).0 == st,
{
    let joined = join(st, user, room_id, room_type, server_id, channel_id).0;
    let there = joined.rooms[room_id].participants;
    assert(there =~= seq![user]);
    assert(there.drop_last() =~= Seq::<Seq<char>>::empty());
    assert(without(there.drop_last(), user).len() == 0);
    assert(without(there, user).len() == 0);
    let after = leave(joined, user).0;
    assert(after.rooms =~= st.rooms);
    assert(after.user_rooms =~= st.user_rooms);
}

/// Every event keeps rooms inhabited and participants listed once.
pub proof fn step_keeps_inv(
    st: VoiceState,
    sender: Seq<char>,
    members: Map<Seq<char>, Seq<char>>,
    others: Map<Seq<char>, Seq<char>>,
    channel_open: bool,
)
    requires
        st.inv(),
    ensures
        step(st, sender, members, others, channel_open).0.inv(),
{
    leave_keeps_inv(st, sender);
    join_keeps_inv(
        st,
        sender,
        json::trimmed_member(members, "roomId"@),
        joined_type(members),
        json::opt_trimmed_member(members, "serverId"@),
        json::opt_trimmed_member(members, "channelId"@),
    );
    connect_keeps_inv(
        st,
        json::trimmed_member(members, "roomId"@),
        sender,
        json::trimmed_member(members, "inviter"@),
    );
}

/// A client whose access was refused changes nothing, and is the only one told.
pub proof fn refused_join_changes_nothing(
    st: VoiceState,
    sender: Seq<char>,
    members: Map<Seq<char>, Seq<char>>,
    others: Map<Seq<char>, Seq<char>>,
)
    requires
        join_access(members) is Some,
    ensures
        step(st, sender, members, others, false) == (
            st,
            seq![post(sender, no_access_object(json::trimmed_member(members, "roomId"@)))],
        ),
{
}

/// A signal is never sent back to its sender by way of the room, and every copy
/// names the sender as its origin.
pub proof fn signals_name_their_sender(
    st: VoiceState,
    sender: Seq<char>,
    members: Map<Seq<char>, Seq<char>>,
    others: Map<Seq<char>, Seq<char>>,
)
    ensures
        forall|i: int|
            0 <= i < route(st, sender, members, others).len() ==> {
                let p = #[trigger] route(st, sender, members, others)[i];
                &&& p.payload is Forwarded
                &&& p.payload->texts["from"@] == sender
                &&& json::trimmed_member(members, "to"@).len() == 0 ==> p.to != sender
            },
{
    let room_id = json::trimmed_member(members, "roomId"@);
    if st.rooms.contains_key(room_id) {
        let all = st.rooms[room_id].participants;
        without_facts(all, sender);
        assert forall|i: int| 0 <= i < without(all, sender).len() implies #[trigger] without(
            all,
            sender,
        )[i] != sender by {
            assert(without(all, sender).contains(without(all, sender)[i]));
        }
    }
}

/// The room of a call does not depend on who of the two calls.
pub proof fn call_room_is_symmetric(a: Seq<char>, b: Seq<char>)
    ensures
        call_room_id(a, b) == call_room_id(b, a),
{
    text::text_less_total(a, b);
    if text::text_less(a, b) && text::text_less(b, a) {
        text::text_less_transitive(a, b, a);
        text::text_less_irreflexive(a);
    }
}

/// A room that someone can be told of lists everyone who is told: each
/// participant gets the state exactly once.
pub proof fn room_state_reaches_participants(room_id: Seq<char>, room: RoomModel)
    ensures
        room_state_posts(room_id, room).len() == room.participants.len(),
        forall|name: Seq<char>|
            room.participants.contains(name) <==> (exists|i: int|
                0 <= i < room_state_posts(room_id, room).len() && (
                #[trigger] room_state_posts(room_id, room)[i]).to == name),
{
    order::sorted_texts_facts(room.participants);
    let sorted = order::sorted_texts(room.participants);
    let told = room_state_posts(room_id, room);
    assert forall|name: Seq<char>|
        room.participants.contains(name) <==> (exists|i: int|
            0 <= i < told.len() && (#[trigger] told[i]).to == name) by {
        if room.participants.contains(name) {
            let i = choose|i: int| 0 <= i < sorted.len() && sorted[i] == name;
            assert(told[i].to == name);
        }
        if exists|i: int| 0 <= i < told.len() && (#[trigger] told[i]).to == name {
            let i = choose|i: int| 0 <= i < told.len() && (#[trigger] told[i]).to == name;
            assert(sorted[i] == name);
            assert(sorted.contains(name));
        }
    }
}

/// Taking a name out of a list leaves the others, in their order.
pub proof fn without_keeps_the_others(s: Seq<Seq<char>>, name: Seq<char>)
    ensures
        without(s, name) == s.filter(|x: Seq<char>| x != name),
    decreases s.len(),
{
    reveal(Seq::filter);
    if s.len() > 0 {
        without_keeps_the_others(s.drop_last(), name);
    } else {
        assert(s =~= Seq::empty());
    }
}

/// Joining keeps who is there: every other participant of the room stays one, and no one
/// is added but who joins. No other room changes but the one that they leave, and no one
/// else changes rooms.
pub proof fn joining_keeps_who_is_there(
    st: VoiceState,
    user: Seq<char>,
    room_id: Seq<char>,
    room_type: Seq<char>,
    server_id: Option<Seq<char>>,
    channel_id: Option<Seq<char>>,
    other: Seq<char>,
    other_room: Seq<char>,
)
    requires
        other != user,
        other_room != room_id,
    ensures
        ({
            let after = join(st, user, room_id, room_type, server_id, channel_id).0;
            let was_there = st.rooms.contains_key(room_id)
                && st.rooms[room_id].participants.contains(other);
            &&& after.rooms[room_id].participants.contains(other) <==> was_there
            &&& after.user_rooms.contains_key(other) <==> st.user_rooms.contains_key(other)
            &&& st.user_rooms.contains_key(other) ==> after.user_rooms[other]
                == st.user_rooms[other]
            &&& !(st.user_rooms.contains_key(user) && st.user_rooms[user] == other_room) ==> {
                &&& after.rooms.contains_key(other_room) <==> st.rooms.contains_key(other_room)
                &&& st.rooms.contains_key(other_room) ==> after.rooms[other_room]
                    == st.rooms[other_room]
            }
            &&& st.user_rooms.contains_key(user) && st.user_rooms[user] == other_room ==> {
                &&& after.rooms.contains_key(other_room) <==> leave(
                    st,
                    user,
                ).0.rooms.contains_key(other_room)
                &&& after.rooms.contains_key(other_room) ==> after.rooms[other_room] == leave(
                    st,
                    user,
                ).0.rooms[other_room]
            }
        }),
{
    leave_is_local(st, user);
    let there = if st.rooms.contains_key(room_id) {
        st.rooms[room_id].participants
    } else {
        Seq::empty()
    };
    with_name_facts(there, user);
    let after = join(st, user, room_id, room_type, server_id, channel_id).0;
    assert(after.rooms[room_id].participants == with_name(there, user));
}

/// Leaving takes out who leaves and no one else: whoever else was in the room stays in it
/// as long as it is open, and it stays open exactly as long as someone is left, in a call
/// as long as two are. The room keeps its type and ids.
pub proof fn leaving_keeps_the_others(st: VoiceState, user: Seq<char>, other: Seq<char>)
    requires
        st.inv(),
        st.user_rooms.contains_key(user),
        st.rooms.contains_key(st.user_rooms[user]),
        other != user,
    ensures
        ({
            let id = st.user_rooms[user];
            let room = st.rooms[id];
            let after = leave(st, user).0;
            let left = room.participants.filter(|x: Seq<char>| x != user);
            &&& after.rooms.contains_key(id) <==> left.len() >= (if room.room_type == "dm"@ {
                2int
            } else {
                1int
            })
            &&& after.rooms.contains_key(id) ==> {
                &&& after.rooms[id].participants == left
                &&& after.rooms[id].participants.contains(other) <==> room.participants.contains(
                    other,
                )
                &&& after.rooms[id].room_type == room.room_type
                &&& after.rooms[id].server_id == room.server_id
                &&& after.rooms[id].channel_id == room.channel_id
            }
        }),
{
    let room = st.rooms[st.user_rooms[user]];
    without_facts(room.participants, user);
    without_keeps_the_others(room.participants, user);
}

/// Whether an event for a user is the state of a room: its id, type, server and channel,
/// and all of its participants and no one else, in the order of their names.
pub open spec fn tells_room_state(p: Post, to: Seq<char>, room_id: Seq<char>, room: RoomModel) -> bool {
    &&& p.to == to
    &&& p.payload is Object
    &&& p.payload->Object_0.len() == 6
    &&& p.payload->Object_0[0] == ("type"@, JsonModel::Text("voice_room_state"@))
    &&& p.payload->Object_0[1] == ("roomId"@, JsonModel::Text(room_id))
    &&& p.payload->Object_0[2] == ("roomType"@, JsonModel::Text(room.room_type))
    &&& p.payload->Object_0[3].0 == "serverId"@
    &&& p.payload->Object_0[3].1 == (match room.server_id {
        Some(id) => JsonModel::Text(id),
        None => JsonModel::Null,
    })
    &&& p.payload->Object_0[4].0 == "channelId"@
    &&& p.payload->Object_0[4].1 == (match room.channel_id {
        Some(id) => JsonModel::Text(id),
        None => JsonModel::Null,
    })
    &&& p.payload->Object_0[5].0 == "participants"@
    &&& p.payload->Object_0[5].1 is Texts
    &&& p.payload->Object_0[5].1->Texts_0.to_multiset() == room.participants.to_multiset()
    &&& forall|i: int, j: int|
        0 <= i < j < p.payload->Object_0[5].1->Texts_0.len() ==> !text::text_less(
            #[trigger] p.payload->Object_0[5].1->Texts_0[j],
            #[trigger] p.payload->Object_0[5].1->Texts_0[i],
        )
}

/// The state of a room goes to each of its participants once, and to no one else, and
/// tells all that there is to tell.
pub proof fn participants_are_told_the_room_state(room_id: Seq<char>, room: RoomModel)
    ensures
        room_state_posts(room_id, room).len() == room.participants.len(),
        forall|i: int|
            0 <= i < room_state_posts(room_id, room).len() ==> tells_room_state(
                #[trigger] room_state_posts(room_id, room)[i],
                order::sorted_texts(room.participants)[i],
                room_id,
                room,
            ),
        order::sorted_texts(room.participants).to_multiset() == room.participants.to_multiset(),
{
    order::sorted_texts_facts(room.participants);
    order::text_leq_total();
    let sorted = order::sorted_texts(room.participants);
    assert forall|i: int, j: int| 0 <= i < j < sorted.len() implies !text::text_less(
        #[trigger] sorted[j],
        #[trigger] sorted[i],
    ) by {
        assert(order::text_leq()(sorted[i], sorted[j]));
    }
}

/// Who joins a room while in no other is told its new state, together with everyone who
/// is in it, and no one is told anything else.
pub proof fn joins_are_told_to_the_room(
    st: VoiceState,
    user: Seq<char>,
    room_id: Seq<char>,
    room_type: Seq<char>,
    server_id: Option<Seq<char>>,
    channel_id: Option<Seq<char>>,
)
    ensures
        ({
            let (after, told) = join(st, user, room_id, room_type, server_id, channel_id);
            let now = after.rooms[room_id];
            let first = if st.user_rooms.contains_key(user) && st.user_rooms[user] != room_id {
                leave(st, user).1
            } else {
                Seq::empty()
            };
            &&& told.len() == first.len() + now.participants.len()
            &&& told.take(first.len() as int) == first
            &&& forall|i: int|
                first.len() <= i < told.len() ==> tells_room_state(
                    #[trigger] told[i],
                    order::sorted_texts(now.participants)[i - first.len()],
                    room_id,
                    now,
                )
        }),
{
    let (after, told) = join(st, user, room_id, room_type, server_id, channel_id);
    let now = after.rooms[room_id];
    participants_are_told_the_room_state(room_id, now);
    let first = if st.user_rooms.contains_key(user) && st.user_rooms[user] != room_id {
        leave(st, user).1
    } else {
        Seq::empty()
    };
    let state = room_state_posts(room_id, now);
    assert(told =~= first + state);
    assert(told.take(first.len() as int) =~= first);
    assert forall|i: int| first.len() <= i < told.len() implies tells_room_state(
        #[trigger] told[i],
        order::sorted_texts(now.participants)[i - first.len()],
        room_id,
        now,
    ) by {
        assert(told[i] == state[i - first.len()]);
    }
}

/// Who is left in a room after someone leaves is told: its new state while it is open; that
/// the call ended, and who ended it, where it was a call that closed. Who leaves is told
/// nothing, and neither is anyone outside the room.
pub proof fn leaving_is_told_to_the_room(st: VoiceState, user: Seq<char>)
    requires
        st.inv(),
    ensures
        ({
            let (after, told) = leave(st, user);
            let id = st.user_rooms[user];
            let room = st.rooms[id];
            let left = room.participants.filter(|x: Seq<char>| x != user);
            let was_in = st.user_rooms.contains_key(user) && st.rooms.contains_key(id);
            &&& !was_in ==> told.len() == 0
            &&& was_in && after.rooms.contains_key(id) ==> {
                &&& told.len() == left.len()
                &&& forall|i: int|
                    0 <= i < told.len() ==> tells_room_state(
                        #[trigger] told[i],
                        order::sorted_texts(left)[i],
                        id,
                        after.rooms[id],
                    )
            }
            &&& was_in && !after.rooms.contains_key(id) && room.room_type == "dm"@ ==> {
                &&& told.len() == left.len()
                &&& forall|i: int|
                    0 <= i < told.len() ==> (#[trigger] told[i]).to == left[i] && told[i].payload
                        == PayloadModel::Object(
                        seq![
                            ("type"@, JsonModel::Text("voice_call_ended"@)),
                            ("roomId"@, JsonModel::Text(id)),
                            ("from"@, JsonModel::Text(user)),
                        ],
                    )
            }
            &&& was_in && !after.rooms.contains_key(id) && room.room_type != "dm"@ ==> told.len()
                == 0
        }),
{
    let id = st.user_rooms[user];
    if st.user_rooms.contains_key(user) && st.rooms.contains_key(id) {
        let room = st.rooms[id];
        without_keeps_the_others(room.participants, user);
        let after = leave(st, user).0;
        if after.rooms.contains_key(id) {
            participants_are_told_the_room_state(id, after.rooms[id]);
        }
    }
}

/// A signal to a user goes to that user alone. It is what the client sent, member by
/// member, but for who it is from.
pub proof fn signals_reach_who_they_name(
    st: VoiceState,
    sender: Seq<char>,
    members: Map<Seq<char>, Seq<char>>,
    others: Map<Seq<char>, Seq<char>>,
    key: Seq<char>,
)
    requires
        members.contains_key("roomId"@),
        !text::blank(members["roomId"@]),
        members.contains_key("to"@),
        !text::blank(members["to"@]),
        key != "from"@,
    ensures
        ({
            let told = route(st, sender, members, others);
            &&& told.len() == 1
            &&& told[0].to == text::trimmed(members["to"@])
            &&& told[0].payload is Forwarded
            &&& told[0].payload->texts.contains_key("from"@)
            &&& told[0].payload->texts["from"@] == sender
            &&& told[0].payload->texts.contains_key(key) <==> members.contains_key(key)
            &&& members.contains_key(key) ==> told[0].payload->texts[key] == members[key]
            &&& told[0].payload->others.contains_key(key) <==> others.contains_key(key)
            &&& others.contains_key(key) ==> told[0].payload->others[key] == others[key]
            &&& !told[0].payload->others.contains_key("from"@)
        }),
{
}

/// A signal that names no one goes to everyone in its room but the sender, each once and
/// in the room's order, as the client sent it but for who it is from; without a room it
/// goes to no one.
pub proof fn signals_reach_the_rest_of_the_room(
    st: VoiceState,
    sender: Seq<char>,
    members: Map<Seq<char>, Seq<char>>,
    others: Map<Seq<char>, Seq<char>>,
    key: Seq<char>,
)
    requires
        !members.contains_key("to"@) || text::blank(members["to"@]),
        key != "from"@,
    ensures
        ({
            let told = route(st, sender, members, others);
            let has_room = members.contains_key("roomId"@) && !text::blank(members["roomId"@]);
            let id = text::trimmed(members["roomId"@]);
            &&& !has_room || !st.rooms.contains_key(id) ==> told.len() == 0
            &&& has_room && st.rooms.contains_key(id) ==> {
                let rest = st.rooms[id].participants.filter(|x: Seq<char>| x != sender);
                &&& told.len() == rest.len()
                &&& forall|i: int|
                    0 <= i < told.len() ==> {
                        &&& (#[trigger] told[i]).to == rest[i]
                        &&& told[i].payload is Forwarded
                        &&& told[i].payload->texts.contains_key(key) <==> members.contains_key(key)
                        &&& members.contains_key(key) ==> told[i].payload->texts[key]
                            == members[key]
                        &&& told[i].payload->others.contains_key(key) <==> others.contains_key(key)
                        &&& others.contains_key(key) ==> told[i].payload->others[key]
                            == others[key]
                        &&& told[i].payload->texts["from"@] == sender
                        &&& !told[i].payload->others.contains_key("from"@)
                    }
            }
        }),
{
    let id = text::trimmed(members["roomId"@]);
    if st.rooms.contains_key(id) {
        without_keeps_the_others(st.rooms[id].participants, sender);
    }
}

/// A signal changes no room.
pub proof fn signals_change_no_room(
    st: VoiceState,
    sender: Seq<char>,
    members: Map<Seq<char>, Seq<char>>,
    others: Map<Seq<char>, Seq<char>>,
    channel_open: bool,
)
    requires
        members.contains_key("type"@),
        members["type"@] == "voice_signal"@,
    ensures
        step(st, sender, members, others, channel_open).0 == st,
        step(st, sender, members, others, channel_open).1 == route(st, sender, members, others),
{
    kinds_differ();
}

proof fn kinds_differ()
    ensures
        "voice_signal"@ != "voice_join"@,
        "voice_signal"@ != "voice_leave"@,
        "voice_signal"@ != "voice_call_end"@,
        "voice_leave"@ != "voice_join"@,
        "voice_call_end"@ != "voice_join"@,
        "voice_call_invite"@ != "voice_join"@,
        "voice_call_invite"@ != "voice_leave"@,
        "voice_call_invite"@ != "voice_call_end"@,
        "voice_call_invite"@ != "voice_signal"@,
        "voice_call_accept"@ != "voice_join"@,
        "voice_call_accept"@ != "voice_leave"@,
        "voice_call_accept"@ != "voice_call_end"@,
        "voice_call_accept"@ != "voice_signal"@,
        "voice_call_accept"@ != "voice_call_invite"@,
        "voice_call_reject"@ != "voice_join"@,
        "voice_call_reject"@ != "voice_leave"@,
        "voice_call_reject"@ != "voice_call_end"@,
        "voice_call_reject"@ != "voice_signal"@,
        "voice_call_reject"@ != "voice_call_invite"@,
        "voice_call_reject"@ != "voice_call_accept"@,
        "voice_call_cancel"@ != "voice_join"@,
        "voice_call_cancel"@ != "voice_leave"@,
        "voice_call_cancel"@ != "voice_call_end"@,
        "voice_call_cancel"@ != "voice_signal"@,
        "voice_call_cancel"@ != "voice_call_invite"@,
        "voice_call_cancel"@ != "voice_call_accept"@,
        "voice_call_cancel"@ != "voice_call_reject"@,
{
    reveal_strlit("voice_join");
    reveal_strlit("voice_leave");
    reveal_strlit("voice_call_end");
    reveal_strlit("voice_signal");
    reveal_strlit("voice_call_invite");
    reveal_strlit("voice_call_accept");
    reveal_strlit("voice_call_reject");
    reveal_strlit("voice_call_cancel");
    assert("voice_call_invite"@[11] == 'i');
    assert("voice_call_accept"@[11] == 'a');
    assert("voice_call_reject"@[11] == 'r');
    assert("voice_call_cancel"@[11] == 'c');
    assert("voice_leave"@[6] == 'l');
    assert("voice_signal"@[6] == 's');
    assert("voice_join"@[6] == 'j');
    assert("voice_call_end"@[6] == 'c');
    assert("voice_call_end"@[11] == 'e');
}

/// A client that asks to join is put into the room that it names, with the type, server
/// and channel that it names; a type that is not named is `channel`. Only a channel's room
/// with both ids named is asked about, and joined only if the channel is open.
pub proof fn asked_joins_are_done(
    st: VoiceState,
    sender: Seq<char>,
    members: Map<Seq<char>, Seq<char>>,
    others: Map<Seq<char>, Seq<char>>,
    channel_open: bool,
)
    requires
        members.contains_key("type"@),
        members["type"@] == "voice_join"@,
    ensures
        ({
            let (after, told) = step(st, sender, members, others, channel_open);
            let named = members.contains_key("roomId"@) && !text::blank(members["roomId"@]);
            let id = text::trimmed(members["roomId"@]);
            let kind = if members.contains_key("roomType"@) {
                members["roomType"@]
            } else {
                "channel"@
            };
            let server = if members.contains_key("serverId"@) {
                Some(text::trimmed(members["serverId"@]))
            } else {
                None
            };
            let channel = if members.contains_key("channelId"@) {
                Some(text::trimmed(members["channelId"@]))
            } else {
                None
            };
            let asked = kind == "channel"@ && server is Some && channel is Some;
            &&& join_access(members) == (if named && asked {
                Some((server->0, channel->0))
            } else {
                None
            })
            &&& !named ==> after == st && told.len() == 0
            &&& named && asked && !channel_open ==> {
                &&& after == st
                &&& told.len() == 1
                &&& told[0].to == sender
                &&& told[0].payload == PayloadModel::Object(
                    seq![
                        ("type"@, JsonModel::Text("voice_error"@)),
                        ("roomId"@, JsonModel::Text(id)),
                        ("message"@, JsonModel::Text("Нет доступа к голосовому каналу"@)),
                    ],
                )
            }
            &&& named && (!asked || channel_open) ==> {
                &&& after.user_rooms.contains_key(sender)
                &&& after.user_rooms[sender] == id
                &&& after.rooms.contains_key(id)
                &&& after.rooms[id].participants.contains(sender)
                &&& after.rooms[id].room_type == kind
                &&& after.rooms[id].server_id == server
                &&& after.rooms[id].channel_id == channel
                &&& (after, told) == join(st, sender, id, kind, server, channel)
            }
        }),
{
    let id = text::trimmed(members["roomId"@]);
    joined_is_in(
        st,
        sender,
        id,
        joined_type(members),
        json::opt_trimmed_member(members, "serverId"@),
        json::opt_trimmed_member(members, "channelId"@),
    );
}

/// A client that asks to leave, or to end a call, leaves.
pub proof fn asked_leaves_are_done(
    st: VoiceState,
    sender: Seq<char>,
    members: Map<Seq<char>, Seq<char>>,
    others: Map<Seq<char>, Seq<char>>,
    channel_open: bool,
)
    requires
        members.contains_key("type"@),
        members["type"@] == "voice_leave"@ || members["type"@] == "voice_call_end"@,
    ensures
        step(st, sender, members, others, channel_open) == leave(st, sender),
        !step(st, sender, members, others, channel_open).0.user_rooms.contains_key(sender),
{
    kinds_differ();
}

/// Whether an event is an object with these members.
pub open spec fn tells(p: Post, to: Seq<char>, members: Seq<(Seq<char>, JsonModel)>) -> bool {
    p.to == to && p.payload == PayloadModel::Object(members)
}

/// A call is offered to who is called and confirmed to who calls; until it is taken no room
/// changes. Without someone to call nothing happens.
pub proof fn calls_are_offered(
    st: VoiceState,
    sender: Seq<char>,
    members: Map<Seq<char>, Seq<char>>,
    others: Map<Seq<char>, Seq<char>>,
    channel_open: bool,
)
    requires
        members.contains_key("type"@),
        members["type"@] == "voice_call_invite"@,
    ensures
        ({
            let (after, told) = step(st, sender, members, others, channel_open);
            let target = text::trimmed(members["target"@]);
            let id = if members.contains_key("roomId"@) && !text::blank(members["roomId"@]) {
                text::trimmed(members["roomId"@])
            } else {
                call_room_id(sender, target)
            };
            &&& after == st
            &&& !members.contains_key("target"@) || text::blank(members["target"@])
                ==> told.len() == 0
            &&& members.contains_key("target"@) && !text::blank(members["target"@]) ==> {
                &&& told.len() == 2
                &&& tells(
                    told[0],
                    target,
                    seq![
                        ("type"@, JsonModel::Text("voice_call_invite"@)),
                        ("roomId"@, JsonModel::Text(id)),
                        ("roomType"@, JsonModel::Text("dm"@)),
                        ("from"@, JsonModel::Text(sender)),
                        ("target"@, JsonModel::Text(target)),
                    ],
                )
                &&& tells(
                    told[1],
                    sender,
                    seq![
                        ("type"@, JsonModel::Text("voice_call_outgoing"@)),
                        ("roomId"@, JsonModel::Text(id)),
                        ("roomType"@, JsonModel::Text("dm"@)),
                        ("target"@, JsonModel::Text(target)),
                    ],
                )
            }
        }),
{
    kinds_differ();
}

/// A call that is taken puts the two, and no one else, into its room; both are told that it
/// was taken and then that it is connected. No other room changes.
pub proof fn taken_calls_connect_the_two(
    st: VoiceState,
    sender: Seq<char>,
    members: Map<Seq<char>, Seq<char>>,
    others: Map<Seq<char>, Seq<char>>,
    channel_open: bool,
    someone: Seq<char>,
    other_room: Seq<char>,
)
    requires
        members.contains_key("type"@),
        members["type"@] == "voice_call_accept"@,
        members.contains_key("roomId"@) && !text::blank(members["roomId"@]),
        members.contains_key("inviter"@) && !text::blank(members["inviter"@]),
        other_room != text::trimmed(members["roomId"@]),
    ensures
        ({
            let (after, told) = step(st, sender, members, others, channel_open);
            let id = text::trimmed(members["roomId"@]);
            let inviter = text::trimmed(members["inviter"@]);
            let object = |kind: Seq<char>|
                seq![
                    ("type"@, JsonModel::Text(kind)),
                    ("roomId"@, JsonModel::Text(id)),
                    ("from"@, JsonModel::Text(sender)),
                    ("target"@, JsonModel::Text(inviter)),
                    ("participants"@, JsonModel::Texts(seq![sender, inviter])),
                ];
            &&& after.rooms.contains_key(id)
            &&& after.rooms[id].room_type == "dm"@
            &&& after.rooms[id].server_id is None
            &&& after.rooms[id].channel_id is None
            &&& after.rooms[id].participants.contains(someone) <==> someone == sender || someone
                == inviter
            &&& after.user_rooms.contains_key(sender) && after.user_rooms[sender] == id
            &&& after.user_rooms.contains_key(inviter) && after.user_rooms[inviter] == id
            &&& someone != sender && someone != inviter ==> {
                &&& after.user_rooms.contains_key(someone) <==> st.user_rooms.contains_key(someone)
                &&& st.user_rooms.contains_key(someone) ==> after.user_rooms[someone]
                    == st.user_rooms[someone]
            }
            &&& after.rooms.contains_key(other_room) <==> st.rooms.contains_key(other_room)
            &&& st.rooms.contains_key(other_room) ==> after.rooms[other_room]
                == st.rooms[other_room]
            &&& told.len() == 4
            &&& tells(told[0], inviter, object("voice_call_accepted"@))
            &&& tells(told[1], sender, object("voice_call_accepted"@))
            &&& tells(told[2], inviter, object("voice_call_connected"@))
            &&& tells(told[3], sender, object("voice_call_connected"@))
        }),
{
    kinds_differ();
    let id = text::trimmed(members["roomId"@]);
    let inviter = text::trimmed(members["inviter"@]);
    with_name_facts(seq![sender], inviter);
    assert(seq![sender].contains(someone) <==> someone == sender) by {
        assert(seq![sender][0] == sender);
    }
    let told = step(st, sender, members, others, channel_open).1;
    let accepted = seq![
        ("type"@, JsonModel::Text("voice_call_accepted"@)),
        ("roomId"@, JsonModel::Text(id)),
        ("from"@, JsonModel::Text(sender)),
        ("target"@, JsonModel::Text(inviter)),
        ("participants"@, JsonModel::Texts(seq![sender, inviter])),
    ];
    let connected = seq![
        ("type"@, JsonModel::Text("voice_call_connected"@)),
        ("roomId"@, JsonModel::Text(id)),
        ("from"@, JsonModel::Text(sender)),
        ("target"@, JsonModel::Text(inviter)),
        ("participants"@, JsonModel::Texts(seq![sender, inviter])),
    ];
    assert(pair_object("voice_call_accepted"@, id, sender, inviter) =~= accepted);
    assert(pair_object("voice_call_connected"@, id, sender, inviter) =~= connected);
}

/// A call that is not taken, or is taken back, changes no room: the other side alone is
/// told, by whom and of which room.
pub proof fn refused_and_cancelled_calls_are_told(
    st: VoiceState,
    sender: Seq<char>,
    members: Map<Seq<char>, Seq<char>>,
    others: Map<Seq<char>, Seq<char>>,
    channel_open: bool,
)
    requires
        members.contains_key("type"@),
        members["type"@] == "voice_call_reject"@ || members["type"@] == "voice_call_cancel"@,
    ensures
        ({
            let (after, told) = step(st, sender, members, others, channel_open);
            let rejects = members["type"@] == "voice_call_reject"@;
            let key = if rejects {
                "inviter"@
            } else {
                "target"@
            };
            let other = text::trimmed(members[key]);
            let named = members.contains_key("roomId"@) && !text::blank(members["roomId"@])
                && members.contains_key(key) && !text::blank(members[key]);
            &&& after == st
            &&& !named ==> told.len() == 0
            &&& named ==> told.len() == 1 && tells(
                told[0],
                other,
                seq![
                    (
                        "type"@,
                        JsonModel::Text(
                            if rejects {
                                "voice_call_rejected"@
                            } else {
                                "voice_call_cancelled"@
                            },
                        ),
                    ),
                    ("roomId"@, JsonModel::Text(text::trimmed(members["roomId"@]))),
                    ("from"@, JsonModel::Text(sender)),
                    ("target"@, JsonModel::Text(other)),
                ],
            )
        }),
{
    kinds_differ();
}

/// Anything but the known events changes no room and is told to no one.
pub proof fn unknown_events_do_nothing(
    st: VoiceState,
    sender: Seq<char>,
    members: Map<Seq<char>, Seq<char>>,
    others: Map<Seq<char>, Seq<char>>,
    channel_open: bool,
)
    requires
        members.contains_key("type"@) ==> {
            let kind = members["type"@];
            &&& kind != "voice_join"@
            &&& kind != "voice_leave"@
            &&& kind != "voice_call_end"@
            &&& kind != "voice_signal"@
            &&& kind != "voice_call_invite"@
            &&& kind != "voice_call_accept"@
            &&& kind != "voice_call_reject"@
            &&& kind != "voice_call_cancel"@
        },
    ensures
        step(st, sender, members, others, channel_open).0 == st,
        step(st, sender, members, others, channel_open).1.len() == 0,
{
    reveal_strlit("voice_join");
    reveal_strlit("voice_leave");
    reveal_strlit("voice_call_end");
    reveal_strlit("voice_signal");
    reveal_strlit("voice_call_invite");
    reveal_strlit("voice_call_accept");
    reveal_strlit("voice_call_reject");
    reveal_strlit("voice_call_cancel");
    if members.contains_key("type"@) {
        assert(members.get("type"@) == Some(members["type"@]));
    } else {
        assert(members.get("type"@) is None);
        assert(or_empty(members.get("type"@)).len() == 0);
        assert("voice_join"@.len() == 10 && "voice_leave"@.len() == 11);
        assert("voice_call_end"@.len() == 14 && "voice_signal"@.len() == 12);
        assert("voice_call_invite"@.len() == 17 && "voice_call_accept"@.len() == 17);
        assert("voice_call_reject"@.len() == 17 && "voice_call_cancel"@.len() == 17);
    }
}

/// The room of a channel is named by its server and its channel; any other room by its type
/// and the id given, without white space at its ends, or `pending` where that is blank.
pub proof fn rooms_have_their_keys(
    room_type: Seq<char>,
    server_id: Seq<char>,
    channel_id: Seq<char>,
    room_id: Seq<char>,
    id: Option<Seq<char>>,
)
    ensures
        room_key_text("channel"@, Some(server_id), Some(channel_id), id) == "voice:channel:"@
            + server_id + ":"@ + channel_id,
        room_key_text("channel"@, None, None, id) == "voice:channel:"@ + ":"@,
        room_type != "channel"@ && !text::blank(room_id) ==> room_key_text(
            room_type,
            Some(server_id),
            Some(channel_id),
            Some(room_id),
        ) == "voice:"@ + room_type + ":"@ + text::trimmed(room_id),
        room_type != "channel"@ && text::blank(room_id) ==> room_key_text(
            room_type,
            None,
            None,
            Some(room_id),
        ) == "voice:"@ + room_type + ":"@ + "pending"@,
        room_type != "channel"@ ==> room_key_text(room_type, None, None, None) == "voice:"@
            + room_type + ":"@ + "pending"@,
{
    empty_is_blank();
    assert("voice:channel:"@ + Seq::<char>::empty() + ":"@ + Seq::<char>::empty()
        =~= "voice:channel:"@ + ":"@);
}

/// A call that names no room has that of the two names, the lesser first, whoever calls.
pub proof fn call_rooms_are_named_by_the_two(a: Seq<char>, b: Seq<char>)
    requires
        text::text_less(a, b),
        !text::blank(a + ":"@ + b),
    ensures
        call_room_id(a, b) == "voice:dm:"@ + text::trimmed(a + ":"@ + b),
        call_room_id(b, a) == "voice:dm:"@ + text::trimmed(a + ":"@ + b),
{
    if text::text_less(b, a) {
        text::text_less_transitive(a, b, a);
        text::text_less_irreflexive(a);
    }
    reveal_strlit("dm");
    reveal_strlit("channel");
    reveal_strlit("voice:");
    reveal_strlit(":");
    reveal_strlit("voice:dm:");
    assert("dm"@.len() != "channel"@.len());
    assert("voice:"@ + "dm"@ + ":"@ =~= "voice:dm:"@);
}

/// A call that names no room, or no one who called, is not taken.
pub proof fn unnamed_calls_are_not_taken(
    st: VoiceState,
    sender: Seq<char>,
    members: Map<Seq<char>, Seq<char>>,
    others: Map<Seq<char>, Seq<char>>,
    channel_open: bool,
)
    requires
        members.contains_key("type"@),
        members["type"@] == "voice_call_accept"@,
        !members.contains_key("roomId"@) || text::blank(members["roomId"@])
            || !members.contains_key("inviter"@) || text::blank(members["inviter"@]),
    ensures
        step(st, sender, members, others, channel_open).0 == st,
        step(st, sender, members, others, channel_open).1.len() == 0,
{
    kinds_differ();
}

/// Who joins a room is its last participant, after all who were there, unless they were
/// there already; the room is of the type, server and channel that were asked for, and is
/// the one that they are in.
pub proof fn who_joins_comes_last(
    hub: &mut VoiceHub,
    username: &str,
    room_id: &str,
    room_type: &str,
    server_id: &Option<String>,
    channel_id: &Option<String>,
    r: Vec<Outgoing>,
)
    requires
        call_ensures(
            VoiceHub::join_voice_room,
            (hub, username, room_id, room_type, server_id, channel_id),
            r,
        ),
        old(hub)@.inv(),
    ensures
        ({
            let there = if old(hub)@.rooms.contains_key(room_id@) {
                old(hub)@.rooms[room_id@].participants
            } else {
                Seq::empty()
            };
            let room = final(hub)@.rooms[room_id@];
            &&& final(hub)@.rooms.contains_key(room_id@)
            &&& there.contains(username@) ==> room.participants == there
            &&& !there.contains(username@) ==> room.participants == there.push(username@)
            &&& room.room_type == room_type@
            &&& room.server_id == match server_id {
                Some(id) => Some(id@),
                None => None,
            }
            &&& room.channel_id == match channel_id {
                Some(id) => Some(id@),
                None => None,
            }
            &&& final(hub)@.user_rooms.contains_key(username@)
            &&& final(hub)@.user_rooms[username@] == room_id@
            &&& final(hub)@.inv()
        }),
{
    leave_is_local(old(hub)@, username@);
    joined_is_in(
        old(hub)@,
        username@,
        room_id@,
        room_type@,
        text::opt_text(*server_id),
        text::opt_text(*channel_id),
    );
}

/// Joining a room leaves everyone else where they are.
pub proof fn who_joins_moves_no_one_else(
    hub: &mut VoiceHub,
    username: &str,
    room_id: &str,
    room_type: &str,
    server_id: &Option<String>,
    channel_id: &Option<String>,
    r: Vec<Outgoing>,
    other: Seq<char>,
    other_room: Seq<char>,
)
    requires
        call_ensures(
            VoiceHub::join_voice_room,
            (hub, username, room_id, room_type, server_id, channel_id),
            r,
        ),
        other != username@,
        other_room != room_id@,
    ensures
        final(hub)@.user_rooms.contains_key(other) <==> old(hub)@.user_rooms.contains_key(other),
        old(hub)@.user_rooms.contains_key(other) ==> final(hub)@.user_rooms[other]
            == old(hub)@.user_rooms[other],
        !(old(hub)@.user_rooms.contains_key(username@) && old(hub)@.user_rooms[username@]
            == other_room) ==> {
            &&& final(hub)@.rooms.contains_key(other_room) <==> old(hub)@.rooms.contains_key(
                other_room,
            )
            &&& old(hub)@.rooms.contains_key(other_room) ==> final(hub)@.rooms[other_room]
                == old(hub)@.rooms[other_room]
        },
{
    joining_keeps_who_is_there(
        old(hub)@,
        username@,
        room_id@,
        room_type@,
        text::opt_text(*server_id),
        text::opt_text(*channel_id),
        other,
        other_room,
    );
}

/// Who joins a room while in no other is told its state, with everyone in it, and no one
/// is told anything else.
pub proof fn rooms_are_told_who_joins(
    hub: &mut VoiceHub,
    username: &str,
    room_id: &str,
    room_type: &str,
    server_id: &Option<String>,
    channel_id: &Option<String>,
    r: Vec<Outgoing>,
    i: int,
)
    requires
        call_ensures(
            VoiceHub::join_voice_room,
            (hub, username, room_id, room_type, server_id, channel_id),
            r,
        ),
        !old(hub)@.user_rooms.contains_key(username@) || old(hub)@.user_rooms[username@]
            == room_id@,
    ensures
        ({
            let now = final(hub)@.rooms[room_id@];
            &&& r@.len() == now.participants.len()
            &&& 0 <= i < r@.len() ==> tells_room_state(
                r@[i]@,
                order::sorted_texts(now.participants)[i],
                room_id@,
                now,
            )
        }),
{
    joins_are_told_to_the_room(
        old(hub)@,
        username@,
        room_id@,
        room_type@,
        text::opt_text(*server_id),
        text::opt_text(*channel_id),
    );
    assert(delivery::posts(r@).len() == r@.len());
    if 0 <= i < r@.len() {
        assert(delivery::posts(r@)[i] == r@[i]@);
    }
}

/// Who leaves is in no room; everyone else stays where they are, and no other room changes.
pub proof fn who_leaves_moves_no_one_else(
    hub: &mut VoiceHub,
    username: &str,
    r: Vec<Outgoing>,
    other: Seq<char>,
    other_room: Seq<char>,
)
    requires
        call_ensures(VoiceHub::leave_voice_room, (hub, username), r),
        old(hub)@.inv(),
        other != username@,
        !(old(hub)@.user_rooms.contains_key(username@) && old(hub)@.user_rooms[username@]
            == other_room),
    ensures
        !final(hub)@.user_rooms.contains_key(username@),
        final(hub)@.user_rooms.contains_key(other) <==> old(hub)@.user_rooms.contains_key(other),
        final(hub)@.user_rooms.contains_key(other) ==> final(hub)@.user_rooms[other]
            == old(hub)@.user_rooms[other],
        final(hub)@.rooms.contains_key(other_room) <==> old(hub)@.rooms.contains_key(other_room),
        old(hub)@.rooms.contains_key(other_room) ==> final(hub)@.rooms[other_room]
            == old(hub)@.rooms[other_room],
{
    leave_is_local(old(hub)@, username@);
}

/// Who leaves a room is taken out of it; the others stay in it, in their order.
pub proof fn who_leaves_is_taken_out(
    hub: &mut VoiceHub,
    username: &str,
    r: Vec<Outgoing>,
    room_id: Seq<char>,
)
    requires
        call_ensures(VoiceHub::leave_voice_room, (hub, username), r),
        old(hub)@.inv(),
        old(hub)@.user_rooms.contains_key(username@),
        old(hub)@.user_rooms[username@] == room_id,
        old(hub)@.rooms.contains_key(room_id),
    ensures
        ({
            let user = username@;
            let room = old(hub)@.rooms[room_id];
            let left = room.participants.filter(|x: Seq<char>| x != user);
            let needed: int = if room.room_type == "dm"@ {
                2
            } else {
                1
            };
            &&& final(hub)@.rooms.contains_key(room_id) <==> left.len() >= needed
            &&& left.len() >= needed ==> final(hub)@.rooms[room_id].participants == left
        }),
{
    let other = username@.push('x');
    assert(other.len() != username@.len());
    leaving_keeps_the_others(old(hub)@, username@, other);
}

/// The state of a room goes to its participants alone; a room that is not there has none.
pub proof fn who_is_told_a_room_state(hub: &VoiceHub, room_id: &str, r: Vec<Outgoing>, i: int)
    requires
        call_ensures(VoiceHub::broadcast_voice_room_state, (hub, room_id), r),
    ensures
        !hub@.rooms.contains_key(room_id@) ==> r@.len() == 0,
        hub@.rooms.contains_key(room_id@) ==> {
            let room = hub@.rooms[room_id@];
            &&& r@.len() == room.participants.len()
            &&& 0 <= i < r@.len() ==> tells_room_state(
                r@[i]@,
                order::sorted_texts(room.participants)[i],
                room_id@,
                room,
            )
        },
{
    assert(delivery::posts(r@).len() == r@.len());
    if hub@.rooms.contains_key(room_id@) {
        participants_are_told_the_room_state(room_id@, hub@.rooms[room_id@]);
        if 0 <= i < r@.len() {
            assert(delivery::posts(r@)[i] == r@[i]@);
        }
    }
}

/// The state of a room tells its id, type, server and channel, and its participants.
pub proof fn what_a_room_state_tells(room_id: &str, room: &VoiceRoom, r: JsonObject, to: Seq<char>)
    requires
        call_ensures(voice_room_payload, (room_id, room), r),
    ensures
        tells_room_state(
            (Post { to, payload: PayloadModel::Object(r@) }),
            to,
            room_id@,
            (RoomModel {
                room_type: room.room_type@,
                server_id: (match room.server_id {
                    Some(id) => Some(id@),
                    None => None,
                }),
                channel_id: (match room.channel_id {
                    Some(id) => Some(id@),
                    None => None,
                }),
                participants: room.participants@.map_values(|name: String| name@),
            }),
        ),
{
    order::sorted_texts_facts(room@.participants);
    order::text_leq_total();
    let sorted = order::sorted_texts(room@.participants);
    assert forall|i: int, j: int| 0 <= i < j < sorted.len() implies !text::text_less(
        #[trigger] sorted[j],
        #[trigger] sorted[i],
    ) by {
        assert(order::text_leq()(sorted[i], sorted[j]));
    }
    assert(room@.participants =~= room.participants@.map_values(|name: String| name@));
}

/// A new room is of the type, server and channel given, and has no one in it.
pub proof fn new_rooms_are_empty(
    room_type: String,
    server_id: Option<String>,
    channel_id: Option<String>,
    r: VoiceRoom,
)
    requires
        call_ensures(VoiceRoom::new, (room_type, server_id, channel_id), r),
    ensures
        r.room_type@ == room_type@,
        r.server_id is Some <==> server_id is Some,
        server_id is Some ==> r.server_id->0@ == server_id->0@,
        r.channel_id is Some <==> channel_id is Some,
        channel_id is Some ==> r.channel_id->0@ == channel_id->0@,
        r.participants@.len() == 0,
{
    assert(r@.participants.len() == r.participants@.len());
}

/// A room is found under its id as it is kept, and no other.
pub proof fn rooms_are_found(
    hub: &VoiceHub,
    room_id: &str,
    room: Option<VoiceRoom>,
    username: &str,
    of_user: Option<String>,
)
    requires
        call_ensures(VoiceHub::room, (hub, room_id), room),
        call_ensures(VoiceHub::room_of, (hub, username), of_user),
    ensures
        room is Some <==> hub@.rooms.contains_key(room_id@),
        room is Some ==> room->0@ == hub@.rooms[room_id@],
        of_user is Some <==> hub@.user_rooms.contains_key(username@),
        of_user is Some ==> of_user->0@ == hub@.user_rooms[username@],
{
}

/// The key of a room is named by what is given of it.
pub proof fn how_rooms_are_named(
    room_type: &str,
    server_id: Option<&str>,
    channel_id: Option<&str>,
    room_id: Option<&str>,
    r: String,
)
    requires
        call_ensures(voice_room_key, (room_type, server_id, channel_id, room_id), r),
    ensures
        room_type@ == "channel"@ && server_id is Some && channel_id is Some ==> r@
            == "voice:channel:"@ + server_id->0@ + ":"@ + channel_id->0@,
        room_type@ != "channel"@ && room_id is Some && text::trimmed(room_id->0@).len() > 0 ==> r@
            == "voice:"@ + room_type@ + ":"@ + text::trimmed(room_id->0@),
        room_type@ != "channel"@ && (room_id is None || text::trimmed(room_id->0@).len() == 0)
            ==> r@ == "voice:"@ + room_type@ + ":"@ + "pending"@,
{
    empty_is_blank();
}

/// An event acts on the rooms by the texts that the client sent, and what it leads to is
/// what clients are told.
pub proof fn events_act_by_their_texts(
    hub: &mut VoiceHub,
    sender: &str,
    payload: &Value,
    channel_open: bool,
    r: Vec<Outgoing>,
)
    requires
        call_ensures(VoiceHub::handle_voice_event, (hub, sender, payload, channel_open), r),
    ensures
        ({
            let (after, told) = step(
                old(hub)@,
                sender@,
                json::text_members(*payload),
                json::other_members(*payload),
                channel_open,
            );
            &&& final(hub)@ == after
            &&& r@.len() == told.len()
            &&& forall|i: int| 0 <= i < told.len() ==> (#[trigger] r@[i])@ == told[i]
        }),
{
    let told = delivery::posts(r@);
    assert(told.len() == r@.len());
    assert(forall|i: int| 0 <= i < told.len() ==> told[i] == (#[trigger] r@[i])@);
}

/// A signal goes where the client's texts say.
pub proof fn signals_go_by_their_texts(
    hub: &VoiceHub,
    sender: &str,
    payload: &Value,
    r: Vec<Outgoing>,
)
    requires
        call_ensures(VoiceHub::route_voice_signal, (hub, sender, payload), r),
    ensures
        ({
            let told = route(
                hub@,
                sender@,
                json::text_members(*payload),
                json::other_members(*payload),
            );
            &&& r@.len() == told.len()
            &&& forall|i: int| 0 <= i < told.len() ==> (#[trigger] r@[i])@ == told[i]
        }),
{
    let told = delivery::posts(r@);
    assert(told.len() == r@.len());
    assert(forall|i: int| 0 <= i < told.len() ==> told[i] == (#[trigger] r@[i])@);
}

/// The channel that has to be open for a join is the one that the client names, where it
/// names a room of a channel.
pub proof fn which_channel_has_to_be_open(payload: &Value, r: Option<(String, String)>)
    requires
        call_ensures(voice_join_access, (payload,), r),
    ensures
        ({
            let members = json::text_members(*payload);
            let asked = members.contains_key("type"@) && members["type"@] == "voice_join"@
                && members.contains_key("roomId"@) && text::trimmed(members["roomId"@]).len() > 0
                && (!members.contains_key("roomType"@) || members["roomType"@] == "channel"@)
                && members.contains_key("serverId"@) && members.contains_key("channelId"@);
            let (server, channel) = r->0;
            &&& r is Some <==> asked
            &&& r is Some ==> server@ == text::trimmed(members["serverId"@]) && channel@
                == text::trimmed(members["channelId"@])
        }),
{
}

} // verus!
