//! What the server hands to connected clients, and who is connected.

use crate::json;
use crate::json::JsonModel;
use crate::json::JsonObject;
use crate::text;
use crate::voice;
use crate::voice::VoiceHub;
use dashmap::DashMap;
use serde_json::Value;
use vstd::prelude::*;

verus! {

/// The content of one event for one user.
#[derive(Debug)]
pub enum Payload {
    /// An event that the server made.
    Object(JsonObject),
    /// An event of a client that is passed on.
    Forwarded(Value),
}

/// The model of an event's content.
pub enum PayloadModel {
    Object(Seq<(Seq<char>, JsonModel)>),
    Forwarded { texts: Map<Seq<char>, Seq<char>>, others: Map<Seq<char>, Seq<char>> },
}

impl View for Payload {
    type V = PayloadModel;

    open spec fn view(&self) -> PayloadModel {
        match self {
            Payload::Object(o) => PayloadModel::Object(o@),
            Payload::Forwarded(v) => PayloadModel::Forwarded {
                texts: json::text_members(*v),
                others: json::other_members(*v),
            },
        }
    }
}

/// One event for one user.
#[derive(Debug)]
pub struct Outgoing {
    pub to: String,
    pub payload: Payload,
}

/// The model of one event for one user.
pub struct Post {
    pub to: Seq<char>,
    pub payload: PayloadModel,
}

impl View for Outgoing {
    type V = Post;

    open spec fn view(&self) -> Post {
        Post { to: self.to@, payload: self.payload@ }
    }
}

/// The models of a list of events.
pub open spec fn posts(v: Seq<Outgoing>) -> Seq<Post> {
    v.map_values(|o: Outgoing| o@)
}

/// The same object for each of a list of users, in their order.
pub open spec fn same_for_all(
    users: Seq<Seq<char>>,
    object: Seq<(Seq<char>, JsonModel)>,
) -> Seq<Post> {
    users.map_values(|u: Seq<char>| Post { to: u, payload: PayloadModel::Object(object) })
}

/// An event of the server for one user.
pub fn object_for(to: &str, object: JsonObject) -> (r: Outgoing)
    ensures
        r@ == (Post { to: to@, payload: PayloadModel::Object(object@) }),
{
    Outgoing { to: to.to_string(), payload: Payload::Object(object) }
}

/// Hands the same object to each of a list of users.
pub fn send_to_all(users: &Vec<String>, object: &JsonObject) -> (r: Vec<Outgoing>)
    ensures
        posts(r@) == same_for_all(text::texts(users@), object@),
{
    let mut out: Vec<Outgoing> = Vec::new();
    let mut i: usize = 0;
    let ghost all = same_for_all(text::texts(users@), object@);
    while i < users.len()
        invariant
            i <= users@.len(),
            all == same_for_all(text::texts(users@), object@),
            posts(out@) =~= all.take(i as int),
        decreases users@.len() - i,
    {
        let ghost before = posts(out@);
        out.push(object_for(users[i].as_str(), object.copy()));
        i += 1;
        proof {
            assert(posts(out@) =~= before.push(all[i as int - 1]));
            assert(all.take(i as int) =~= before.push(all[i as int - 1]));
        }
    }
    proof {
        assert(all.take(all.len() as int) == all);
    }
    out
}

// ---------------------------------------------------------------------------
// Connections
// ---------------------------------------------------------------------------

/// The connections that a map holds for each user.
pub uninterp spec fn connections_of(m: DashMap<String, Vec<u64>>) -> Map<Seq<char>, Seq<u64>>;

/// The connections of a list that are not among those that are gone.
pub open spec fn still_open(ids: Seq<u64>, gone: Seq<u64>) -> Seq<u64>
    decreases ids.len(),
{
    if ids.len() == 0 {
        ids
    } else {
        let rest = still_open(ids.drop_last(), gone);
        if gone.contains(ids.last()) {
            rest
        } else {
            rest.push(ids.last())
        }
    }
}

/// What stays open is what was open and is not gone.
pub proof fn still_open_facts(ids: Seq<u64>, gone: Seq<u64>)
    ensures
        forall|id: u64| #[trigger]
            still_open(ids, gone).contains(id) <==> ids.contains(id) && !gone.contains(id),
        still_open(ids, gone).len() <= ids.len(),
    decreases ids.len(),
{
    if ids.len() > 0 {
        let init = ids.drop_last();
        let rest = still_open(init, gone);
        still_open_facts(init, gone);
        assert(ids =~= init.push(ids.last()));
        let result = still_open(ids, gone);
        assert forall|id: u64| #[trigger] result.contains(id) <==> ids.contains(id)
            && !gone.contains(id) by {
            if ids.contains(id) && !gone.contains(id) {
                let i = choose|i: int| 0 <= i < ids.len() && ids[i] == id;
                if i < init.len() {
                    assert(init[i] == id);
                    assert(init.contains(id));
                    assert(rest.contains(id));
                    let j = choose|j: int| 0 <= j < rest.len() && rest[j] == id;
                    assert(result[j] == id);
                } else {
                    assert(result[result.len() - 1] == id);
                }
            }
            if result.contains(id) {
                let j = choose|j: int| 0 <= j < result.len() && result[j] == id;
                if j < rest.len() {
                    assert(rest[j] == id);
                    assert(rest.contains(id));
                    assert(init.contains(id));
                    let i = choose|i: int| 0 <= i < init.len() && init[i] == id;
                    assert(ids[i] == id);
                } else {
                    assert(ids[ids.len() - 1] == id);
                }
            }
        }
    }
}

/// Whether a user has a connection.
pub open spec fn is_online(conns: Map<Seq<char>, Seq<u64>>, user: Seq<char>) -> bool {
    conns.contains_key(user) && conns[user].len() > 0
}

/// The users of a map who have a connection, with theirs.
pub open spec fn only_online(conns: Map<Seq<char>, Seq<u64>>) -> Map<Seq<char>, Seq<u64>> {
    Map::new(|u: Seq<char>| is_online(conns, u), |u: Seq<char>| conns[u])
}

/// Whether a user's list holds a connection.
fn in_use(ids: &Vec<u64>) -> (r: bool)
    ensures
        r == (ids@.len() > 0),
{
    ids.len() > 0
}

/// Calls `DashMap::new`: a map with nothing in it.
#[verifier::external_body]
fn new_connections() -> (r: DashMap<String, Vec<u64>>)
    ensures
        connections_of(r).dom() == Set::<Seq<char>>::empty(),
{
    DashMap::new()
}

/// Calls `DashMap::get`, and copies the list that the reference leads to.
#[verifier::external_body]
fn get_connections(m: &DashMap<String, Vec<u64>>, user: &str) -> (r: Option<Vec<u64>>)
    ensures
        match r {
            Some(ids) => connections_of(*m).contains_key(user@) && connections_of(*m)[user@]
                == ids@,
            None => !connections_of(*m).contains_key(user@),
        },
{
    m.get(user).map(|entry| entry.value().clone())
}

/// Calls `DashMap::insert`, which sets the value of one key.
#[verifier::external_body]
fn put_connections(m: &mut DashMap<String, Vec<u64>>, user: &str, ids: Vec<u64>)
    ensures
        connections_of(*final(m)) == connections_of(*old(m)).insert(user@, ids@),
{
    m.insert(user.to_string(), ids);
}

/// Calls `DashMap::retain`, which keeps the entries for which the closure holds;
/// it holds for the lists that are not empty.
#[verifier::external_body]
fn retain_in_use(m: &mut DashMap<String, Vec<u64>>)
    ensures
        connections_of(*final(m)) == only_online(connections_of(*old(m))),
{
    m.retain(|_, ids| in_use(ids));
}

/// Calls `DashMap::iter` and collects the keys: each key once, in no order that
/// can be relied on.
#[verifier::external_body]
fn connected_users(m: &DashMap<String, Vec<u64>>) -> (r: Vec<String>)
    ensures
        text::texts(r@).no_duplicates(),
        forall|u: Seq<char>| text::texts(r@).contains(u) <==> connections_of(*m).contains_key(u),
{
    m.iter().map(|entry| entry.key().clone()).collect()
}

fn drop_gone(ids: &Vec<u64>, gone: &Vec<u64>) -> (r: Vec<u64>)
    ensures
        r@ == still_open(ids@, gone@),
{
    let mut out: Vec<u64> = Vec::new();
    let mut i: usize = 0;
    proof {
        assert(out@ =~= still_open(ids@.take(0), gone@));
    }
    while i < ids.len()
        invariant
            i <= ids@.len(),
            out@ == still_open(ids@.take(i as int), gone@),
        decreases ids@.len() - i,
    {
        proof {
            assert(ids@.take(i as int + 1).drop_last() =~= ids@.take(i as int));
        }
        if !contains_id(gone, ids[i]) {
            out.push(ids[i]);
        }
        i += 1;
    }
    proof {
        assert(ids@.take(ids@.len() as int) == ids@);
    }
    out
}

fn contains_id(ids: &Vec<u64>, id: u64) -> (r: bool)
    ensures
        r == ids@.contains(id),
{
    let mut i: usize = 0;
    while i < ids.len()
        invariant
            i <= ids@.len(),
            forall|j: int| 0 <= j < i ==> ids@[j] != id,
        decreases ids@.len() - i,
    {
        if ids[i] == id {
            return true;
        }
        i += 1;
    }
    false
}

/// The open connections of a running server, by user. A connection is known by
/// its number.
pub struct Connections {
    map: DashMap<String, Vec<u64>>,
}

impl View for Connections {
    type V = Map<Seq<char>, Seq<u64>>;

    closed spec fn view(&self) -> Map<Seq<char>, Seq<u64>> {
        connections_of(self.map)
    }
}

impl Connections {
    /// No connection.
    pub fn new() -> (r: Connections)
        ensures
            r@ == Map::<Seq<char>, Seq<u64>>::empty(),
    {
        let r = Connections { map: new_connections() };
        proof {
            assert(r@ =~= Map::<Seq<char>, Seq<u64>>::empty());
        }
        r
    }

    /// A user opens a connection.
    pub fn connect(&mut self, user: &str, id: u64)
        ensures
            final(self)@ == connected(old(self)@, user@, id),
    {
        let mut ids = match get_connections(&self.map, user) {
            Some(ids) => ids,
            None => Vec::new(),
        };
        ids.push(id);
        proof {
            assert(ids@ =~= if old(self)@.contains_key(user@) {
                old(self)@[user@].push(id)
            } else {
                seq![id]
            });
        }
        put_connections(&mut self.map, user, ids);
    }

    /// Forgets the connections of a user that are gone, and hands out those that
    /// an event goes to.
    pub fn receivers(&mut self, user: &str, gone: &Vec<u64>) -> (r: Vec<u64>)
        ensures
            old(self)@.contains_key(user@) ==> r@ == still_open(old(self)@[user@], gone@)
                && final(self)@ == old(self)@.insert(user@, r@),
            !old(self)@.contains_key(user@) ==> r@.len() == 0 && final(self)@ == old(self)@,
    {
        match get_connections(&self.map, user) {
            Some(ids) => {
                let open = drop_gone(&ids, gone);
                put_connections(&mut self.map, user, drop_gone(&ids, gone));
                open
            },
            None => Vec::new(),
        }
    }

    /// A connection of a user ends: it is forgotten with those that are gone, and
    /// so is every user without a connection. Says whether the user has another.
    pub fn disconnect(&mut self, user: &str, id: u64, gone: &Vec<u64>) -> (r: bool)
        ensures
            final(self)@ == disconnected(old(self)@, user@, id, gone@),
            r == is_online(final(self)@, user@),
            !(final(self)@.contains_key(user@) && final(self)@[user@].contains(id)),
    {
        let mut all_gone: Vec<u64> = Vec::new();
        let mut i: usize = 0;
        while i < gone.len()
            invariant
                i <= gone@.len(),
                all_gone@ =~= gone@.take(i as int),
            decreases gone@.len() - i,
        {
            all_gone.push(gone[i]);
            i += 1;
        }
        all_gone.push(id);
        proof {
            assert(all_gone@ =~= gone@.push(id));
        }
        if let Some(ids) = get_connections(&self.map, user) {
            put_connections(&mut self.map, user, drop_gone(&ids, &all_gone));
            proof {
                still_open_facts(ids@, all_gone@);
                assert(all_gone@[gone@.len() as int] == id);
            }
        }
        retain_in_use(&mut self.map);
        self.is_connected(user)
    }

    /// Whether a user has a connection.
    pub fn is_connected(&self, user: &str) -> (r: bool)
        ensures
            r == is_online(self@, user@),
    {
        match get_connections(&self.map, user) {
            Some(ids) => in_use(&ids),
            None => false,
        }
    }

    /// Every user in the map, each once.
    pub fn users(&self) -> (r: Vec<String>)
        ensures
            text::texts(r@).no_duplicates(),
            forall|u: Seq<char>| text::texts(r@).contains(u) <==> self@.contains_key(u),
    {
        connected_users(&self.map)
    }
}

/// The connections after a user opened one.
pub open spec fn connected(conns: Map<Seq<char>, Seq<u64>>, user: Seq<char>, id: u64) -> Map<
    Seq<char>,
    Seq<u64>,
> {
    conns.insert(
        user,
        if conns.contains_key(user) {
            conns[user].push(id)
        } else {
            seq![id]
        },
    )
}

/// The connections after one of a user's ended, others being gone.
pub open spec fn disconnected(
    conns: Map<Seq<char>, Seq<u64>>,
    user: Seq<char>,
    id: u64,
    gone: Seq<u64>,
) -> Map<Seq<char>, Seq<u64>> {
    only_online(
        if conns.contains_key(user) {
            conns.insert(user, still_open(conns[user], gone.push(id)))
        } else {
            conns
        },
    )
}

/// Opening a connection makes a user reachable; when it ends, everything is as it was
/// before, and no one else was touched on the way.
pub proof fn disconnect_undoes_connect(conns: Map<Seq<char>, Seq<u64>>, user: Seq<char>, id: u64)
    requires
        conns.contains_key(user) ==> !conns[user].contains(id),
        only_online(conns) == conns,
    ensures
        is_online(connected(conns, user, id), user),
        disconnected(connected(conns, user, id), user, id, Seq::empty()) == conns,
{
    let gone = Seq::<u64>::empty().push(id);
    assert(gone[0] == id);
    let before = if conns.contains_key(user) {
        conns[user]
    } else {
        Seq::<u64>::empty()
    };
    let ids = before.push(id);
    assert(connected(conns, user, id)[user] =~= ids);
    assert(ids.drop_last() =~= before);
    assert(gone.contains(id));
    nothing_gone(before, gone);
    assert(still_open(ids, gone) == before);
    let after = disconnected(connected(conns, user, id), user, id, Seq::empty());
    assert forall|u: Seq<char>| #[trigger] after.contains_key(u) <==> conns.contains_key(u) by {
        assert(only_online(conns).contains_key(u) <==> conns.contains_key(u));
    }
    assert(after =~= conns);
}

proof fn nothing_gone(ids: Seq<u64>, gone: Seq<u64>)
    requires
        forall|i: int| 0 <= i < ids.len() ==> !gone.contains(#[trigger] ids[i]),
    ensures
        still_open(ids, gone) == ids,
    decreases ids.len(),
{
    if ids.len() > 0 {
        let init = ids.drop_last();
        assert(forall|i: int| 0 <= i < init.len() ==> init[i] == ids[i]);
        nothing_gone(init, gone);
        assert(!gone.contains(ids[ids.len() - 1]));
        assert(init.push(ids.last()) =~= ids);
    }
}

/// How many sends went through.
pub open spec fn sent_count(outcomes: Seq<bool>) -> nat
    decreases outcomes.len(),
{
    if outcomes.len() == 0 {
        0
    } else {
        sent_count(outcomes.drop_last()) + (if outcomes.last() {
            1nat
        } else {
            0nat
        })
    }
}

/// How many of a list of sends went through, and whether one did not.
pub fn count_sent(outcomes: &Vec<bool>) -> (r: (usize, bool))
    ensures
        r.0 == sent_count(outcomes@),
        r.1 == outcomes@.contains(false),
        !r.1 ==> r.0 == outcomes@.len(),
{
    let mut sent: usize = 0;
    let mut failed = false;
    let mut i: usize = 0;
    while i < outcomes.len()
        invariant
            i <= outcomes@.len(),
            sent <= i,
            sent == sent_count(outcomes@.take(i as int)),
            failed == (exists|j: int| 0 <= j < i && outcomes@[j] == false),
            !failed ==> sent == i,
        decreases outcomes@.len() - i,
    {
        proof {
            assert(outcomes@.take(i as int + 1).drop_last() =~= outcomes@.take(i as int));
        }
        if outcomes[i] {
            sent += 1;
        } else {
            failed = true;
        }
        i += 1;
    }
    proof {
        assert(outcomes@.take(outcomes@.len() as int) == outcomes@);
    }
    (sent, failed)
}

// ---------------------------------------------------------------------------
// A client's socket
// ---------------------------------------------------------------------------

/// What a socket yields.
#[derive(Debug)]
pub enum SocketEvent {
    /// An event for the client was handed to the socket; whether that worked.
    Sent(bool),
    Text(String),
    Binary,
    Ping,
    Pong,
    /// The client closed the socket, or it is at its end.
    Closed,
    Failed,
}

/// What is to be done next for a socket.
#[derive(Debug)]
pub enum SocketAction {
    Wait,
    /// The client sent a voice event.
    Voice(Value),
    AnswerPing,
    Stop,
}

/// Whether a text is a voice event: JSON with a `type` that starts with `voice_`.
pub open spec fn is_voice_event(s: Seq<char>) -> bool {
    match json::parsed_members(s) {
        Some((members, _)) => members.contains_key("type"@) && "voice_"@.is_prefix_of(
            members["type"@],
        ),
        None => false,
    }
}

/// What a socket event leads to. A voice event is acted on; other texts, binary
/// frames and pongs are passed over; a ping is answered; a failed send, a close
/// and an error end the connection.
pub fn socket_step(event: SocketEvent) -> (r: SocketAction)
    ensures
        match event {
            SocketEvent::Sent(worked) => if worked {
                r is Wait
            } else {
                r is Stop
            },
            SocketEvent::Text(s) => if is_voice_event(s@) {
                r is Voice && json::parsed_members(s@) == Some(
                    (json::text_members(r->Voice_0), json::other_members(r->Voice_0)),
                )
            } else {
                r is Wait
            },
            SocketEvent::Binary => r is Wait,
            SocketEvent::Ping => r is AnswerPing,
            SocketEvent::Pong => r is Wait,
            SocketEvent::Closed => r is Stop,
            SocketEvent::Failed => r is Stop,
        },
{
    match event {
        SocketEvent::Sent(worked) => if worked {
            SocketAction::Wait
        } else {
            SocketAction::Stop
        },
        SocketEvent::Text(s) => match json::parse_value(s.as_str()) {
            Some(value) => match json::text_member(&value, "type") {
                Some(kind) => match text::strip_prefix(kind.as_str(), "voice_") {
                    Some(rest) => {
                        proof {
                            assert(("voice_"@ + rest@).subrange(0, "voice_"@.len() as int)
                                =~= "voice_"@);
                        }
                        SocketAction::Voice(value)
                    },
                    None => SocketAction::Wait,
                },
                None => SocketAction::Wait,
            },
            None => SocketAction::Wait,
        },
        SocketEvent::Binary => SocketAction::Wait,
        SocketEvent::Ping => SocketAction::AnswerPing,
        SocketEvent::Pong => SocketAction::Wait,
        SocketEvent::Closed => SocketAction::Stop,
        SocketEvent::Failed => SocketAction::Stop,
    }
}

/// How long a user without a connection keeps their place in a voice room.
pub const LEAVE_DELAY_SECS: u64 = 12;

/// The delay after a user's last connection is over: without a new one, the user
/// leaves the voice room they are in.
pub fn leave_if_offline(hub: &mut VoiceHub, connections: &Connections, user: &str) -> (r: Vec<
    Outgoing,
>)
    requires
        old(hub)@.inv(),
    ensures
        final(hub)@.inv(),
        is_online(connections@, user@) ==> final(hub)@ == old(hub)@ && r@.len() == 0,
        !is_online(connections@, user@) ==> (final(hub)@, posts(r@)) == voice::leave(
            old(hub)@,
            user@,
        ),
{
    if connections.is_connected(user) {
        Vec::new()
    } else {
        hub.leave_voice_room(user)
    }
}

// ---------------------------------------------------------------------------
// Laws
// ---------------------------------------------------------------------------

/// An event for each of a list of users goes to each of them, in their order, and is the
/// same for all.
pub proof fn each_user_gets_the_object(
    users: Seq<Seq<char>>,
    object: Seq<(Seq<char>, JsonModel)>,
    i: int,
)
    requires
        0 <= i < users.len(),
    ensures
        same_for_all(users, object).len() == users.len(),
        same_for_all(users, object)[i].to == users[i],
        same_for_all(users, object)[i].payload == PayloadModel::Object(object),
{
}

/// A connection that is opened comes after those that the user has, which all stay, and
/// no one else's change.
pub proof fn connections_are_added(
    conns: Map<Seq<char>, Seq<u64>>,
    user: Seq<char>,
    id: u64,
    other: Seq<char>,
)
    requires
        other != user,
    ensures
        connected(conns, user, id).contains_key(user),
        connected(conns, user, id)[user].last() == id,
        connected(conns, user, id)[user].drop_last() == (if conns.contains_key(user) {
            conns[user]
        } else {
            Seq::empty()
        }),
        connected(conns, user, id).contains_key(other) <==> conns.contains_key(other),
        conns.contains_key(other) ==> connected(conns, user, id)[other] == conns[other],
{
    assert(connected(conns, user, id)[user].drop_last() =~= (if conns.contains_key(user) {
        conns[user]
    } else {
        Seq::empty()
    }));
}

/// When a connection ends, the user keeps exactly those of theirs that are neither that
/// one nor gone, and is forgotten with the last of them; of everyone else those who have
/// no connection are forgotten, and the rest keep theirs.
pub proof fn connections_are_taken_away(
    conns: Map<Seq<char>, Seq<u64>>,
    user: Seq<char>,
    id: u64,
    gone: Seq<u64>,
    other: Seq<char>,
    kept: u64,
)
    requires
        other != user,
    ensures
        ({
            let after = disconnected(conns, user, id, gone);
            let has = conns.contains_key(user) && conns[user].contains(kept);
            &&& after.contains_key(user) && after[user].contains(kept) <==> has && kept != id
                && !gone.contains(kept)
            &&& after.contains_key(user) ==> after[user].len() > 0
            &&& after.contains_key(other) <==> conns.contains_key(other) && conns[other].len() > 0
            &&& after.contains_key(other) ==> after[other] == conns[other]
        }),
{
    let all = gone.push(id);
    assert(all[gone.len() as int] == id);
    assert(all.contains(kept) <==> kept == id || gone.contains(kept)) by {
        if gone.contains(kept) {
            let i = choose|i: int| 0 <= i < gone.len() && gone[i] == kept;
            assert(all[i] == kept);
        }
    }
    if conns.contains_key(user) {
        let left = still_open(conns[user], all);
        still_open_facts(conns[user], all);
        if left.contains(kept) {
            let i = choose|i: int| 0 <= i < left.len() && left[i] == kept;
            assert(left.len() > 0);
        }
    }
}

/// What stays open keeps its order.
pub proof fn open_connections_keep_their_order(ids: Seq<u64>, gone: Seq<u64>)
    ensures
        still_open(ids, gone) == ids.filter(|id: u64| !gone.contains(id)),
    decreases ids.len(),
{
    reveal(Seq::filter);
    if ids.len() > 0 {
        open_connections_keep_their_order(ids.drop_last(), gone);
    } else {
        assert(ids =~= Seq::empty());
    }
}

/// The sends that went through are those that worked, each counted once.
pub proof fn sends_are_counted(outcomes: Seq<bool>)
    ensures
        sent_count(outcomes) == outcomes.filter(|worked: bool| worked).len(),
    decreases outcomes.len(),
{
    reveal(Seq::filter);
    if outcomes.len() > 0 {
        sends_are_counted(outcomes.drop_last());
    } else {
        assert(outcomes =~= Seq::empty());
    }
}

/// A text is a voice event exactly if it is JSON whose `type` starts with `voice_`.
pub proof fn what_a_voice_event_is(
    s: Seq<char>,
    members: Map<Seq<char>, Seq<char>>,
    others: Map<Seq<char>, Seq<char>>,
    rest: Seq<char>,
)
    ensures
        json::parsed_members(s) is None ==> !is_voice_event(s),
        json::parsed_members(s) == Some((members, others)) && !members.contains_key("type"@)
            ==> !is_voice_event(s),
        json::parsed_members(s) == Some((members, others)) && members.contains_key("type"@)
            && members["type"@] == "voice_"@ + rest ==> is_voice_event(s),
        json::parsed_members(s) == Some((members, others)) && members.contains_key("type"@) && !(
        members["type"@].len() >= 6 && members["type"@].take(6) == "voice_"@)
            ==> !is_voice_event(s),
{
    reveal_strlit("voice_");
    text::prefix_then_skip("voice_"@, rest);
    if json::parsed_members(s) == Some((members, others)) && is_voice_event(s) {
        assert(members["type"@].take(6) =~= members["type"@].subrange(0, 6));
    }
}

/// An event for one user is addressed to them and is the object.
pub proof fn events_are_addressed(to: &str, object: JsonObject, r: Outgoing)
    requires
        call_ensures(object_for, (to, object), r),
    ensures
        r.to@ == to@,
        r.payload is Object,
        r.payload->Object_0@ == object@,
{
}

/// Each of a list of users is sent the object, in their order, and no one else is.
pub proof fn all_are_sent_the_object(
    users: &Vec<String>,
    object: &JsonObject,
    r: Vec<Outgoing>,
    i: int,
)
    requires
        call_ensures(send_to_all, (users, object), r),
    ensures
        r@.len() == users@.len(),
        0 <= i < users@.len() ==> r@[i].to@ == users@[i]@ && r@[i].payload is Object
            && r@[i].payload->Object_0@ == object@,
{
    assert(posts(r@).len() == text::texts(users@).len());
    if 0 <= i < users@.len() {
        assert(posts(r@)[i] == r@[i]@);
        assert(text::texts(users@)[i] == users@[i]@);
    }
}

/// A user who connects has the connection after those they had; no one else's change.
pub proof fn connecting_adds_a_connection(
    connections: &mut Connections,
    user: &str,
    id: u64,
    other: Seq<char>,
)
    requires
        call_ensures(Connections::connect, (connections, user, id), ()),
        other != user@,
    ensures
        final(connections)@.contains_key(user@),
        final(connections)@[user@] == (if old(connections)@.contains_key(user@) {
            old(connections)@[user@].push(id)
        } else {
            seq![id]
        }),
        final(connections)@.contains_key(other) <==> old(connections)@.contains_key(other),
        old(connections)@.contains_key(other) ==> final(connections)@[other]
            == old(connections)@[other],
{
    connections_are_added(old(connections)@, user@, id, other);
    assert(final(connections)@[user@] =~= (if old(connections)@.contains_key(user@) {
        old(connections)@[user@].push(id)
    } else {
        seq![id]
    }));
}

/// An event for a user goes to their connections that are not gone, in their order, and
/// those that are gone are forgotten; no one else's change.
pub proof fn events_go_to_open_connections(
    connections: &mut Connections,
    user: &str,
    gone: &Vec<u64>,
    r: Vec<u64>,
    other: Seq<char>,
)
    requires
        call_ensures(Connections::receivers, (connections, user, gone), r),
        other != user@,
    ensures
        !old(connections)@.contains_key(user@) ==> r@.len() == 0
            && !final(connections)@.contains_key(user@),
        old(connections)@.contains_key(user@) ==> r@ == old(connections)@[user@].filter(
            |id: u64| !gone@.contains(id),
        ) && final(connections)@[user@] == r@,
        final(connections)@.contains_key(other) <==> old(connections)@.contains_key(other),
        old(connections)@.contains_key(other) ==> final(connections)@[other]
            == old(connections)@[other],
{
    open_connections_keep_their_order(old(connections)@[user@], gone@);
}

/// A user who disconnects keeps their other connections that are not gone; they stay
/// connected exactly if one is left.
pub proof fn disconnecting_takes_a_connection_away(
    connections: &mut Connections,
    user: &str,
    id: u64,
    gone: &Vec<u64>,
    r: bool,
    other: Seq<char>,
    kept: u64,
)
    requires
        call_ensures(Connections::disconnect, (connections, user, id, gone), r),
        other != user@,
    ensures
        final(connections)@.contains_key(user@) && final(connections)@[user@].contains(kept)
            <==> old(connections)@.contains_key(user@) && old(connections)@[user@].contains(kept)
            && kept != id && !gone@.contains(kept),
        r <==> final(connections)@.contains_key(user@),
        final(connections)@.contains_key(user@) ==> final(connections)@[user@].len() > 0,
        final(connections)@.contains_key(other) <==> old(connections)@.contains_key(other)
            && old(connections)@[other].len() > 0,
        final(connections)@.contains_key(other) ==> final(connections)@[other]
            == old(connections)@[other],
{
    connections_are_taken_away(old(connections)@, user@, id, gone@, other, kept);
}

/// A user is connected exactly if they have a connection.
pub proof fn who_is_connected(connections: &Connections, user: &str, r: bool)
    requires
        call_ensures(Connections::is_connected, (connections, user), r),
    ensures
        r <==> connections@.contains_key(user@) && connections@[user@].len() > 0,
{
}

/// What went through is counted, and a client is left as soon as one send does not.
pub proof fn what_went_through(outcomes: &Vec<bool>, r: (usize, bool))
    requires
        call_ensures(count_sent, (outcomes,), r),
    ensures
        r.0 == outcomes@.filter(|worked: bool| worked).len(),
        r.1 <==> outcomes@.contains(false),
{
    sends_are_counted(outcomes@);
}

/// A client's connection goes on until a send fails, or it is closed or fails; a ping is
/// answered, voice events are taken, and all else is passed over.
pub proof fn what_a_socket_does(event: SocketEvent, r: SocketAction)
    requires
        call_ensures(socket_step, (event,), r),
    ensures
        r is Stop <==> event is Closed || event is Failed || event == SocketEvent::Sent(false),
        r is AnswerPing <==> event is Ping,
        r is Voice <==> event is Text && is_voice_event(event->Text_0@),
        r is Voice ==> json::parsed_members(event->Text_0@) == Some(
            (json::text_members(r->Voice_0), json::other_members(r->Voice_0)),
        ),
{
}

/// Who has no connection left leaves the voice room; who has one stays where they are,
/// and no one is told anything.
pub proof fn who_is_offline_leaves(
    hub: &mut VoiceHub,
    connections: &Connections,
    user: &str,
    r: Vec<Outgoing>,
)
    requires
        call_ensures(leave_if_offline, (hub, connections, user), r),
        old(hub)@.inv(),
    ensures
        ({
            let online = connections@.contains_key(user@) && connections@[user@].len() > 0;
            &&& online ==> final(hub)@ == old(hub)@ && r@.len() == 0
            &&& !online ==> !final(hub)@.user_rooms.contains_key(user@)
        }),
{
}

} // verus!
