//! What the server keeps and what it answers with.

use crate::json::ReactionSummary;
use crate::json;
use crate::text;
use vstd::prelude::*;

verus! {

/// A point in time: seconds since the Unix epoch, and nanoseconds of that second.
#[derive(Debug, Clone, Copy, PartialEq, Eq, Structural)]
pub struct Timestamp {
    pub secs: i64,
    pub nanos: u32,
}

/// The last second that a point in time can have.
pub const LAST_SECOND: i64 = 8_210_266_876_799;

/// The first second that a point in time can have.
pub const FIRST_SECOND: i64 = -8_334_601_228_800;

// ---------------------------------------------------------------------------
// Servers and channels
// ---------------------------------------------------------------------------

/// A server as it is kept.
#[derive(Debug)]
pub struct ServerRecord {
    pub id: String,
    pub name: String,
    pub description: String,
    pub icon: String,
    pub color: String,
    pub join_link: String,
    pub owner: String,
    pub is_public: i64,
}

/// The model of a server as it is kept.
pub struct ServerModel {
    pub id: Seq<char>,
    pub name: Seq<char>,
    pub description: Seq<char>,
    pub icon: Seq<char>,
    pub color: Seq<char>,
    pub join_link: Seq<char>,
    pub owner: Seq<char>,
    pub is_public: int,
}

impl View for ServerRecord {
    type V = ServerModel;

    open spec fn view(&self) -> ServerModel {
        ServerModel {
            id: self.id@,
            name: self.name@,
            description: self.description@,
            icon: self.icon@,
            color: self.color@,
            join_link: self.join_link@,
            owner: self.owner@,
            is_public: self.is_public as int,
        }
    }
}

/// A channel as it is kept.
#[derive(Debug)]
pub struct ChannelRecord {
    pub id: String,
    pub server_id: String,
    pub name: String,
    pub topic: String,
    pub kind: String,
    pub position: i64,
}

/// A channel as clients see it.
#[derive(Debug)]
pub struct ChannelResponse {
    pub id: String,
    pub name: String,
    pub topic: String,
    pub kind: String,
    pub position: i64,
}

/// The model of a channel.
pub struct ChannelModel {
    pub id: Seq<char>,
    pub name: Seq<char>,
    pub topic: Seq<char>,
    pub kind: Seq<char>,
    pub position: int,
}

impl View for ChannelResponse {
    type V = ChannelModel;

    open spec fn view(&self) -> ChannelModel {
        ChannelModel {
            id: self.id@,
            name: self.name@,
            topic: self.topic@,
            kind: self.kind@,
            position: self.position as int,
        }
    }
}

impl ChannelRecord {
    /// The channel as clients see it.
    pub open spec fn shown(&self) -> ChannelModel {
        ChannelModel {
            id: self.id@,
            name: self.name@,
            topic: self.topic@,
            kind: self.kind@,
            position: self.position as int,
        }
    }

    /// The channel as clients see it.
    pub fn to_response(&self) -> (r: ChannelResponse)
        ensures
            r@ == self.shown(),
    {
        ChannelResponse {
            id: self.id.clone(),
            name: self.name.clone(),
            topic: self.topic.clone(),
            kind: self.kind.clone(),
            position: self.position,
        }
    }
}

/// The models of a list of channels.
pub open spec fn channels_model(v: Seq<ChannelResponse>) -> Seq<ChannelModel> {
    v.map_values(|c: ChannelResponse| c@)
}

/// The channels of one server in a list of channels, as clients see them.
pub open spec fn channels_of(v: Seq<ChannelRecord>, server_id: Seq<char>) -> Seq<ChannelModel>
    decreases v.len(),
{
    if v.len() == 0 {
        Seq::empty()
    } else {
        let rest = channels_of(v.drop_last(), server_id);
        if v.last().server_id@ == server_id {
            rest.push(v.last().shown())
        } else {
            rest
        }
    }
}

/// The channels of one server in a list of channels, as clients see them.
pub fn select_channels(v: &Vec<ChannelRecord>, server_id: &str) -> (r: Vec<ChannelResponse>)
    ensures
        channels_model(r@) == channels_of(v@, server_id@),
{
    let mut out: Vec<ChannelResponse> = Vec::new();
    let mut i: usize = 0;
    proof {
        assert(channels_model(out@) =~= channels_of(v@.take(0), server_id@));
    }
    while i < v.len()
        invariant
            i <= v@.len(),
            channels_model(out@) == channels_of(v@.take(i as int), server_id@),
        decreases v@.len() - i,
    {
        proof {
            assert(v@.take(i as int + 1).drop_last() =~= v@.take(i as int));
        }
        let ghost before = channels_model(out@);
        if text::str_eq(v[i].server_id.as_str(), server_id) {
            out.push(v[i].to_response());
            proof {
                assert(channels_model(out@) =~= before.push(v@[i as int].shown()));
            }
        }
        i += 1;
    }
    proof {
        assert(v@.take(v@.len() as int) == v@);
    }
    out
}

/// A server as clients see it.
#[derive(Debug)]
pub struct ServerResponse {
    pub id: String,
    pub name: String,
    pub description: String,
    pub icon: String,
    pub color: String,
    pub join_link: String,
    pub owner: String,
    pub is_public: bool,
    pub my_role: Option<String>,
    pub member_count: i64,
    pub channels: Vec<ChannelResponse>,
}

/// The model of a server as clients see it.
pub struct ServerView {
    pub id: Seq<char>,
    pub name: Seq<char>,
    pub description: Seq<char>,
    pub icon: Seq<char>,
    pub color: Seq<char>,
    pub join_link: Seq<char>,
    pub owner: Seq<char>,
    pub is_public: bool,
    pub my_role: Option<Seq<char>>,
    pub member_count: int,
    pub channels: Seq<ChannelModel>,
}

impl View for ServerResponse {
    type V = ServerView;

    open spec fn view(&self) -> ServerView {
        ServerView {
            id: self.id@,
            name: self.name@,
            description: self.description@,
            icon: self.icon@,
            color: self.color@,
            join_link: self.join_link@,
            owner: self.owner@,
            is_public: self.is_public,
            my_role: text::opt_text(self.my_role),
            member_count: self.member_count as int,
            channels: channels_model(self.channels@),
        }
    }
}

/// The models of a list of servers as clients see them.
pub open spec fn servers_model(v: Seq<ServerResponse>) -> Seq<ServerView> {
    v.map_values(|s: ServerResponse| s@)
}

/// A server as a client sees it who has a role, or none.
pub open spec fn server_shown(
    server: ServerModel,
    my_role: Option<Seq<char>>,
    member_count: int,
    channels: Seq<ChannelModel>,
) -> ServerView {
    ServerView {
        id: server.id,
        name: server.name,
        description: server.description,
        icon: server.icon,
        color: server.color,
        join_link: server.join_link,
        owner: server.owner,
        is_public: server.is_public != 0,
        my_role,
        member_count,
        channels,
    }
}

impl ServerRecord {
    /// The server as a client sees it who has a role, or none.
    pub fn to_response(
        &self,
        my_role: Option<String>,
        member_count: i64,
        channels: Vec<ChannelResponse>,
    ) -> (r: ServerResponse)
        ensures
            r@ == server_shown(
                self@,
                text::opt_text(my_role),
                member_count as int,
                channels_model(channels@),
            ),
    {
        ServerResponse {
            id: self.id.clone(),
            name: self.name.clone(),
            description: self.description.clone(),
            icon: self.icon.clone(),
            color: self.color.clone(),
            join_link: self.join_link.clone(),
            owner: self.owner.clone(),
            is_public: self.is_public != 0,
            my_role,
            member_count,
            channels,
        }
    }
}

// ---------------------------------------------------------------------------
// Messages
// ---------------------------------------------------------------------------

/// A message as it is kept.
#[derive(Debug)]
pub struct Message {
    pub id: String,
    pub client_id: Option<String>,
    pub sender: String,
    pub receiver: String,
    pub filename: String,
    pub timestamp: Timestamp,
    pub server_id: Option<String>,
    pub channel_id: Option<String>,
}

/// The model of a message.
pub struct MessageModel {
    pub id: Seq<char>,
    pub client_id: Option<Seq<char>>,
    pub sender: Seq<char>,
    pub receiver: Seq<char>,
    pub filename: Seq<char>,
    pub timestamp: Timestamp,
    pub server_id: Option<Seq<char>>,
    pub channel_id: Option<Seq<char>>,
}

impl View for Message {
    type V = MessageModel;

    open spec fn view(&self) -> MessageModel {
        MessageModel {
            id: self.id@,
            client_id: text::opt_text(self.client_id),
            sender: self.sender@,
            receiver: self.receiver@,
            filename: self.filename@,
            timestamp: self.timestamp,
            server_id: text::opt_text(self.server_id),
            channel_id: text::opt_text(self.channel_id),
        }
    }
}

/// A message as clients see it.
#[derive(Debug)]
pub struct MessageResponse {
    pub id: String,
    pub client_id: Option<String>,
    pub sender: String,
    pub receiver: String,
    pub filename: String,
    pub timestamp: Timestamp,
    pub server_id: Option<String>,
    pub channel_id: Option<String>,
    pub reactions: Vec<ReactionSummary>,
    pub my_reaction: Option<String>,
}

/// The model of a message as clients see it.
pub struct MessageView {
    pub message: MessageModel,
    pub reactions: Seq<(Seq<char>, int)>,
    pub my_reaction: Option<Seq<char>>,
}

impl View for MessageResponse {
    type V = MessageView;

    open spec fn view(&self) -> MessageView {
        MessageView {
            message: MessageModel {
                id: self.id@,
                client_id: text::opt_text(self.client_id),
                sender: self.sender@,
                receiver: self.receiver@,
                filename: self.filename@,
                timestamp: self.timestamp,
                server_id: text::opt_text(self.server_id),
                channel_id: text::opt_text(self.channel_id),
            },
            reactions: json::summaries(self.reactions@),
            my_reaction: text::opt_text(self.my_reaction),
        }
    }
}

/// A channel is shown as it is kept, but for the server that it belongs to.
pub proof fn channels_are_shown_as_kept(channel: ChannelRecord, r: ChannelResponse)
    requires
        r@ == channel.shown(),
    ensures
        r.id@ == channel.id@,
        r.name@ == channel.name@,
        r.topic@ == channel.topic@,
        r.kind@ == channel.kind@,
        r.position == channel.position,
{
}

/// The channels of a server are those of a list that belong to it, in their order.
pub proof fn channels_of_one_server(v: Seq<ChannelRecord>, server_id: Seq<char>)
    ensures
        channels_of(v, server_id) == v.filter(
            |c: ChannelRecord| c.server_id@ == server_id,
        ).map_values(|c: ChannelRecord| c.shown()),
    decreases v.len(),
{
    reveal(Seq::filter);
    let keep = |c: ChannelRecord| c.server_id@ == server_id;
    let show = |c: ChannelRecord| c.shown();
    if v.len() > 0 {
        channels_of_one_server(v.drop_last(), server_id);
        let kept = v.drop_last().filter(keep);
        assert(kept.push(v.last()).map_values(show) =~= kept.map_values(show).push(show(v.last())));
    } else {
        assert(v =~= Seq::empty());
        assert(channels_of(v, server_id) =~= v.filter(keep).map_values(show));
    }
}

/// A server is shown as it is kept, field by field, with what is said of the viewer.
pub proof fn server_fields_are_shown(
    server: ServerRecord,
    my_role: Option<Seq<char>>,
    member_count: int,
    channels: Seq<ChannelModel>,
    r: ServerResponse,
)
    requires
        r@ == server_shown(server@, my_role, member_count, channels),
    ensures
        r.id@ == server.id@,
        r.name@ == server.name@,
        r.description@ == server.description@,
        r.icon@ == server.icon@,
        r.color@ == server.color@,
        r.join_link@ == server.join_link@,
        r.owner@ == server.owner@,
        r.is_public <==> server.is_public != 0,
        text::opt_text(r.my_role) == my_role,
        r.member_count == member_count,
        channels_model(r.channels@) == channels,
{
}

/// A channel's answer says of it what is kept.
pub proof fn what_an_answer_says_of_a_channel(channel: &ChannelRecord, r: ChannelResponse)
    requires
        call_ensures(ChannelRecord::to_response, (channel,), r),
    ensures
        r.id@ == channel.id@,
        r.name@ == channel.name@,
        r.topic@ == channel.topic@,
        r.kind@ == channel.kind@,
        r.position == channel.position,
{
}

/// The channels of a server are those of a list that belong to it, in their order, each as
/// it is kept.
pub proof fn which_channels_a_server_has(
    v: &Vec<ChannelRecord>,
    server_id: &str,
    r: Vec<ChannelResponse>,
    i: int,
)
    requires
        call_ensures(select_channels, (v, server_id), r),
    ensures
        ({
            let id = server_id@;
            let own = v@.filter(|c: ChannelRecord| c.server_id@ == id);
            &&& r@.len() == own.len()
            &&& 0 <= i < r@.len() ==> {
                &&& r@[i].id@ == own[i].id@
                &&& r@[i].name@ == own[i].name@
                &&& r@[i].topic@ == own[i].topic@
                &&& r@[i].kind@ == own[i].kind@
                &&& r@[i].position == own[i].position
            }
        }),
{
    let id = server_id@;
    let own = v@.filter(|c: ChannelRecord| c.server_id@ == id);
    channels_of_one_server(v@, id);
    assert(channels_model(r@).len() == r@.len());
    if 0 <= i < r@.len() {
        assert(channels_model(r@)[i] == r@[i]@);
        assert(r@[i]@ == own[i].shown());
    }
}

/// A server's answer says of it what is kept, with what is said of the viewer.
pub proof fn what_is_shown_of_a_server(
    server: &ServerRecord,
    my_role: Option<String>,
    member_count: i64,
    channels: Vec<ChannelResponse>,
    r: ServerResponse,
)
    requires
        call_ensures(ServerRecord::to_response, (server, my_role, member_count, channels), r),
    ensures
        r.id@ == server.id@,
        r.name@ == server.name@,
        r.description@ == server.description@,
        r.icon@ == server.icon@,
        r.color@ == server.color@,
        r.join_link@ == server.join_link@,
        r.owner@ == server.owner@,
        r.is_public <==> server.is_public != 0,
        r.my_role is Some <==> my_role is Some,
        my_role is Some ==> r.my_role->0@ == my_role->0@,
        r.member_count == member_count,
        channels_model(r.channels@) == channels_model(channels@),
{
    assert(r@.my_role == text::opt_text(r.my_role));
}

} // verus!
