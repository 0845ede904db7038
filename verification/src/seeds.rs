//! What a store starts with: the first servers and their channels, and the columns
//! that older stores lack.

use crate::access;
use crate::records::ChannelRecord;
use crate::records::ServerModel;
use crate::records::ServerRecord;
use crate::servers;
use crate::servers::NewChannel;
use crate::text;
use vstd::prelude::*;

verus! {

/// A public server of the system.
pub open spec fn system_server(
    id: Seq<char>,
    name: Seq<char>,
    description: Seq<char>,
    icon: Seq<char>,
    color: Seq<char>,
) -> ServerModel {
    ServerModel {
        id,
        name,
        description,
        icon,
        color,
        join_link: servers::default_link(id),
        owner: "system"@,
        is_public: 1,
    }
}

/// The servers that a store starts with.
pub open spec fn first_servers() -> Seq<ServerModel> {
    seq![
        system_server("zali-hub"@, "Zali Hub"@, "Общий хаб"@, "Z"@, "#cbff00"@),
        system_server("dev-team"@, "Dev Team"@, "Разработка"@, "⚙"@, "#7b61ff"@),
        system_server("friends"@, "Friends"@, "Круг общения"@, "☺"@, "#ff6b6b"@),
        system_server("music"@, "Music"@, "Плейлисты"@, "♫"@, "#1fa7ff"@),
        system_server("games"@, "Games"@, "Игровой чат"@, "🎮"@, "#29c46a"@),
        system_server("study"@, "Study"@, "Учёба"@, "📚"@, "#ffb74d"@),
    ]
}

/// The models of a list of servers.
pub open spec fn server_models(v: Seq<ServerRecord>) -> Seq<ServerModel> {
    v.map_values(|s: ServerRecord| s@)
}

fn make_system_server(id: &str, name: &str, description: &str, icon: &str, color: &str) -> (r:
    ServerRecord)
    ensures
        r@ == system_server(id@, name@, description@, icon@, color@),
{
    ServerRecord {
        id: id.to_string(),
        name: name.to_string(),
        description: description.to_string(),
        icon: icon.to_string(),
        color: color.to_string(),
        join_link: text::join2("zali://server/", id),
        owner: "system".to_string(),
        is_public: 1,
    }
}

/// The servers to add to a store that has so many: the first ones to an empty store,
/// none to another.
pub fn seed_default_servers(server_count: i64) -> (r: Vec<ServerRecord>)
    ensures
        server_models(r@) == (if server_count > 0 {
            Seq::empty()
        } else {
            first_servers()
        }),
{
    let mut out: Vec<ServerRecord> = Vec::new();
    if server_count > 0 {
        proof {
            assert(server_models(out@) =~= Seq::empty());
        }
        return out;
    }
    out.push(make_system_server("zali-hub", "Zali Hub", "Общий хаб", "Z", "#cbff00"));
    out.push(make_system_server("dev-team", "Dev Team", "Разработка", "⚙", "#7b61ff"));
    out.push(make_system_server("friends", "Friends", "Круг общения", "☺", "#ff6b6b"));
    out.push(make_system_server("music", "Music", "Плейлисты", "♫", "#1fa7ff"));
    out.push(make_system_server("games", "Games", "Игровой чат", "🎮", "#29c46a"));
    out.push(make_system_server("study", "Study", "Учёба", "📚", "#ffb74d"));
    proof {
        assert(server_models(out@) =~= first_servers());
    }
    out
}

/// The channels that a server of the system starts with.
pub open spec fn seeded_channels(server_id: Seq<char>) -> Seq<NewChannel> {
    if server_id == "zali-hub"@ {
        seq![
            servers::keyed_channel(server_id, "general"@, "general"@, "Общий чат"@, "text"@, 0),
            servers::keyed_channel(server_id, "announcements"@, "announcements"@, "Новости и объявления"@, "text"@, 1),
            servers::keyed_channel(server_id, "media"@, "media"@, "Фото и видео"@, "text"@, 2),
            servers::keyed_channel(server_id, "voice"@, "voice"@, "Голосовой холл"@, "voice"@, 3),
        ]
    } else if server_id == "dev-team"@ {
        seq![
            servers::keyed_channel(server_id, "general"@, "general"@, "Обсуждение задач"@, "text"@, 0),
            servers::keyed_channel(server_id, "builds"@, "builds"@, "Сборки и релизы"@, "text"@, 1),
            servers::keyed_channel(server_id, "bugs"@, "bugs"@, "Баги и фиксы"@, "text"@, 2),
            servers::keyed_channel(server_id, "voice"@, "voice"@, "Созвон команды"@, "voice"@, 3),
        ]
    } else if server_id == "friends"@ {
        seq![
            servers::keyed_channel(server_id, "general"@, "general"@, "Разговоры"@, "text"@, 0),
            servers::keyed_channel(server_id, "memes"@, "memes"@, "Мемы"@, "text"@, 1),
            servers::keyed_channel(server_id, "voice"@, "voice"@, "Созвон друзей"@, "voice"@, 2),
        ]
    } else if server_id == "music"@ {
        seq![
            servers::keyed_channel(server_id, "general"@, "general"@, "Что слушаем"@, "text"@, 0),
            servers::keyed_channel(server_id, "tracks"@, "tracks"@, "Треки и подборки"@, "text"@, 1),
            servers::keyed_channel(server_id, "voice"@, "voice"@, "Музыкальная комната"@, "voice"@, 2),
        ]
    } else if server_id == "games"@ {
        seq![
            servers::keyed_channel(server_id, "general"@, "general"@, "Основной чат"@, "text"@, 0),
            servers::keyed_channel(server_id, "party"@, "party"@, "Собираем пати"@, "text"@, 1),
            servers::keyed_channel(server_id, "clips"@, "clips"@, "Клипы"@, "text"@, 2),
            servers::keyed_channel(server_id, "voice"@, "voice"@, "Голосовой рейд"@, "voice"@, 3),
        ]
    } else if server_id == "study"@ {
        seq![
            servers::keyed_channel(server_id, "general"@, "general"@, "Общий чат"@, "text"@, 0),
            servers::keyed_channel(server_id, "resources"@, "resources"@, "Материалы"@, "text"@, 1),
            servers::keyed_channel(server_id, "homework"@, "homework"@, "Домашка"@, "text"@, 2),
            servers::keyed_channel(server_id, "voice"@, "voice"@, "Учебный созвон"@, "voice"@, 3),
        ]
    } else {
        seq![
            servers::keyed_channel(server_id, "general"@, "general"@, "Общий чат"@, "text"@, 0),
            servers::keyed_channel(server_id, "voice"@, "voice"@, "Голосовой канал"@, "voice"@, 1),
        ]
    }
}

/// The channels that a server of the system starts with.
pub fn seed_channels(server_id: &str) -> (r: Vec<ChannelRecord>)
    ensures
        servers::channel_models(r@) == seeded_channels(server_id@),
{
    let mut out: Vec<ChannelRecord> = Vec::new();
    if text::str_eq(server_id, "zali-hub") {
        out.push(servers::make_channel(server_id, "general", "general", "Общий чат", "text", 0));
        out.push(servers::make_channel(server_id, "announcements", "announcements", "Новости и объявления", "text", 1));
        out.push(servers::make_channel(server_id, "media", "media", "Фото и видео", "text", 2));
        out.push(servers::make_channel(server_id, "voice", "voice", "Голосовой холл", "voice", 3));
    } else if text::str_eq(server_id, "dev-team") {
        out.push(servers::make_channel(server_id, "general", "general", "Обсуждение задач", "text", 0));
        out.push(servers::make_channel(server_id, "builds", "builds", "Сборки и релизы", "text", 1));
        out.push(servers::make_channel(server_id, "bugs", "bugs", "Баги и фиксы", "text", 2));
        out.push(servers::make_channel(server_id, "voice", "voice", "Созвон команды", "voice", 3));
    } else if text::str_eq(server_id, "friends") {
        out.push(servers::make_channel(server_id, "general", "general", "Разговоры", "text", 0));
        out.push(servers::make_channel(server_id, "memes", "memes", "Мемы", "text", 1));
        out.push(servers::make_channel(server_id, "voice", "voice", "Созвон друзей", "voice", 2));
    } else if text::str_eq(server_id, "music") {
        out.push(servers::make_channel(server_id, "general", "general", "Что слушаем", "text", 0));
        out.push(servers::make_channel(server_id, "tracks", "tracks", "Треки и подборки", "text", 1));
        out.push(servers::make_channel(server_id, "voice", "voice", "Музыкальная комната", "voice", 2));
    } else if text::str_eq(server_id, "games") {
        out.push(servers::make_channel(server_id, "general", "general", "Основной чат", "text", 0));
        out.push(servers::make_channel(server_id, "party", "party", "Собираем пати", "text", 1));
        out.push(servers::make_channel(server_id, "clips", "clips", "Клипы", "text", 2));
        out.push(servers::make_channel(server_id, "voice", "voice", "Голосовой рейд", "voice", 3));
    } else if text::str_eq(server_id, "study") {
        out.push(servers::make_channel(server_id, "general", "general", "Общий чат", "text", 0));
        out.push(servers::make_channel(server_id, "resources", "resources", "Материалы", "text", 1));
        out.push(servers::make_channel(server_id, "homework", "homework", "Домашка", "text", 2));
        out.push(servers::make_channel(server_id, "voice", "voice", "Учебный созвон", "voice", 3));
    } else {
        out.push(servers::make_channel(server_id, "general", "general", "Общий чат", "text", 0));
        out.push(servers::make_channel(server_id, "voice", "voice", "Голосовой канал", "voice", 1));
    }
    proof {
        assert(servers::channel_models(out@) =~= seeded_channels(server_id@));
    }
    out
}

/// By how many seconds a channel counts as younger than the store: channels of a
/// server, and servers, follow one another.
pub fn seed_delay_secs(server_index: usize, position: i64) -> (r: i64)
    requires
        server_index * 3 + position <= i64::MAX,
        0 <= position,
    ensures
        r == server_index * 3 + position,
{
    server_index as i64 * 3 + position
}

/// The columns of the messages' table that came later.
pub open spec fn later_columns() -> Seq<Seq<char>> {
    seq!["server_id"@, "channel_id"@, "client_id"@]
}

/// The names of a list that another list lacks.
pub open spec fn lacking(wanted: Seq<Seq<char>>, there: Seq<Seq<char>>) -> Seq<Seq<char>>
    decreases wanted.len(),
{
    if wanted.len() == 0 {
        wanted
    } else {
        let rest = lacking(wanted.drop_last(), there);
        if there.contains(wanted.last()) {
            rest
        } else {
            rest.push(wanted.last())
        }
    }
}

/// The columns that have to be added to the messages' table of an older store.
pub fn missing_message_columns(columns: &Vec<String>) -> (r: Vec<String>)
    ensures
        text::texts(r@) == lacking(later_columns(), text::texts(columns@)),
{
    let mut out: Vec<String> = Vec::new();
    let ghost there = text::texts(columns@);
    if !text::contains_text(columns, "server_id") {
        out.push("server_id".to_string());
    }
    if !text::contains_text(columns, "channel_id") {
        out.push("channel_id".to_string());
    }
    if !text::contains_text(columns, "client_id") {
        out.push("client_id".to_string());
    }
    proof {
        let a: Seq<Seq<char>> = seq!["server_id"@];
        let b: Seq<Seq<char>> = seq!["server_id"@, "channel_id"@];
        let c = later_columns();
        assert(a.drop_last() =~= Seq::<Seq<char>>::empty());
        assert(b.drop_last() =~= a);
        assert(c.drop_last() =~= b);
        assert(lacking(Seq::<Seq<char>>::empty(), there) =~= Seq::<Seq<char>>::empty());
        let la = lacking(a, there);
        let lb = lacking(b, there);
        assert(la == (if there.contains("server_id"@) {
            Seq::<Seq<char>>::empty()
        } else {
            Seq::<Seq<char>>::empty().push("server_id"@)
        }));
        assert(text::texts(out@) =~= lacking(c, there));
    }
    out
}

/// Every server that a store starts with is public and of the system, so that no
/// user but the system can manage it.
pub proof fn first_servers_are_public(i: int, user: Seq<char>)
    requires
        0 <= i < first_servers().len(),
        user != "system"@,
    ensures
        first_servers()[i].is_public != 0,
        first_servers()[i].owner == "system"@,
        !access::may_manage(first_servers()[i], user, None, None),
        access::may_act(first_servers()[i], user, None, None, None, "view"@),
{
}

/// The positions of a seeded server's channels count up from zero, and the last
/// channel is for voice.
pub proof fn seeded_channels_are_in_order(server_id: Seq<char>)
    ensures
        seeded_channels(server_id).len() >= 2,
        forall|i: int|
            0 <= i < seeded_channels(server_id).len() ==> (#[trigger] seeded_channels(
                server_id,
            )[i]).position == i && seeded_channels(server_id)[i].server_id == server_id,
        seeded_channels(server_id).last().kind == "voice"@,
{
}

/// Whether a server is a public one of the system, with these words and a link of its own.
pub open spec fn is_seeded(
    server: ServerModel,
    id: Seq<char>,
    name: Seq<char>,
    description: Seq<char>,
    icon: Seq<char>,
    color: Seq<char>,
) -> bool {
    &&& server.id == id
    &&& server.name == name
    &&& server.description == description
    &&& server.icon == icon
    &&& server.color == color
    &&& server.join_link == "zali://server/"@ + id
    &&& server.owner == "system"@
    &&& server.is_public == 1
}

/// A store starts with six servers, in this order.
pub proof fn what_the_first_servers_are()
    ensures
        first_servers().len() == 6,
        is_seeded(first_servers()[0], "zali-hub"@, "Zali Hub"@, "Общий хаб"@, "Z"@, "#cbff00"@),
        is_seeded(first_servers()[1], "dev-team"@, "Dev Team"@, "Разработка"@, "⚙"@, "#7b61ff"@),
        is_seeded(first_servers()[2], "friends"@, "Friends"@, "Круг общения"@, "☺"@, "#ff6b6b"@),
        is_seeded(first_servers()[3], "music"@, "Music"@, "Плейлисты"@, "♫"@, "#1fa7ff"@),
        is_seeded(first_servers()[4], "games"@, "Games"@, "Игровой чат"@, "🎮"@, "#29c46a"@),
        is_seeded(first_servers()[5], "study"@, "Study"@, "Учёба"@, "📚"@, "#ffb74d"@),
{
}

/// Whether a channel belongs to a server and has this name, which is also the end of its
/// id, with this topic and kind.
pub open spec fn is_channel(
    channel: NewChannel,
    server_id: Seq<char>,
    name: Seq<char>,
    topic: Seq<char>,
    kind: Seq<char>,
) -> bool {
    &&& channel.id == server_id + "-"@ + name
    &&& channel.server_id == server_id
    &&& channel.name == name
    &&& channel.topic == topic
    &&& channel.kind == kind
}

/// The servers of the system start with these channels.
pub proof fn what_the_seeded_channels_are()
    ensures
        seeded_channels("zali-hub"@).len() == 4,
        is_channel(seeded_channels("zali-hub"@)[0], "zali-hub"@, "general"@, "Общий чат"@, "text"@),
        is_channel(seeded_channels("zali-hub"@)[1], "zali-hub"@, "announcements"@, "Новости и объявления"@, "text"@),
        is_channel(seeded_channels("zali-hub"@)[2], "zali-hub"@, "media"@, "Фото и видео"@, "text"@),
        is_channel(seeded_channels("zali-hub"@)[3], "zali-hub"@, "voice"@, "Голосовой холл"@, "voice"@),
        seeded_channels("dev-team"@).len() == 4,
        is_channel(seeded_channels("dev-team"@)[0], "dev-team"@, "general"@, "Обсуждение задач"@, "text"@),
        is_channel(seeded_channels("dev-team"@)[1], "dev-team"@, "builds"@, "Сборки и релизы"@, "text"@),
        is_channel(seeded_channels("dev-team"@)[2], "dev-team"@, "bugs"@, "Баги и фиксы"@, "text"@),
        is_channel(seeded_channels("dev-team"@)[3], "dev-team"@, "voice"@, "Созвон команды"@, "voice"@),
        seeded_channels("friends"@).len() == 3,
        is_channel(seeded_channels("friends"@)[0], "friends"@, "general"@, "Разговоры"@, "text"@),
        is_channel(seeded_channels("friends"@)[1], "friends"@, "memes"@, "Мемы"@, "text"@),
        is_channel(seeded_channels("friends"@)[2], "friends"@, "voice"@, "Созвон друзей"@, "voice"@),
        seeded_channels("music"@).len() == 3,
        is_channel(seeded_channels("music"@)[0], "music"@, "general"@, "Что слушаем"@, "text"@),
        is_channel(seeded_channels("music"@)[1], "music"@, "tracks"@, "Треки и подборки"@, "text"@),
        is_channel(seeded_channels("music"@)[2], "music"@, "voice"@, "Музыкальная комната"@, "voice"@),
        seeded_channels("games"@).len() == 4,
        is_channel(seeded_channels("games"@)[0], "games"@, "general"@, "Основной чат"@, "text"@),
        is_channel(seeded_channels("games"@)[1], "games"@, "party"@, "Собираем пати"@, "text"@),
        is_channel(seeded_channels("games"@)[2], "games"@, "clips"@, "Клипы"@, "text"@),
        is_channel(seeded_channels("games"@)[3], "games"@, "voice"@, "Голосовой рейд"@, "voice"@),
        seeded_channels("study"@).len() == 4,
        is_channel(seeded_channels("study"@)[0], "study"@, "general"@, "Общий чат"@, "text"@),
        is_channel(seeded_channels("study"@)[1], "study"@, "resources"@, "Материалы"@, "text"@),
        is_channel(seeded_channels("study"@)[2], "study"@, "homework"@, "Домашка"@, "text"@),
        is_channel(seeded_channels("study"@)[3], "study"@, "voice"@, "Учебный созвон"@, "voice"@),
{
    reveal_strlit("zali-hub");
    reveal_strlit("dev-team");
    reveal_strlit("friends");
    reveal_strlit("music");
    reveal_strlit("games");
    reveal_strlit("study");
    assert("zali-hub"@[0] == 'z' && "dev-team"@[0] == 'd' && "friends"@[0] == 'f');
    assert("music"@[0] == 'm' && "games"@[0] == 'g' && "study"@[0] == 's');
}

/// The columns that are added are those of the three that a store lacks, and no other.
pub proof fn lacking_columns_are_added(there: Seq<Seq<char>>, name: Seq<char>)
    ensures
        lacking(later_columns(), there).contains(name) <==> (name == "server_id"@ || name
            == "channel_id"@ || name == "client_id"@) && !there.contains(name),
{
    lacking_facts(later_columns(), there);
    let c = later_columns();
    assert(c[0] == "server_id"@ && c[1] == "channel_id"@ && c[2] == "client_id"@);
    assert(c.contains(name) <==> name == "server_id"@ || name == "channel_id"@ || name
        == "client_id"@);
}

/// What a list lacks is what is wanted and not there, in the order in which it is wanted.
pub proof fn lacking_facts(wanted: Seq<Seq<char>>, there: Seq<Seq<char>>)
    ensures
        lacking(wanted, there) == wanted.filter(|n: Seq<char>| !there.contains(n)),
        forall|n: Seq<char>| #[trigger]
            lacking(wanted, there).contains(n) <==> wanted.contains(n) && !there.contains(n),
    decreases wanted.len(),
{
    reveal(Seq::filter);
    let result = lacking(wanted, there);
    if wanted.len() > 0 {
        let init = wanted.drop_last();
        let rest = lacking(init, there);
        lacking_facts(init, there);
        assert(wanted =~= init.push(wanted.last()));
        assert forall|n: Seq<char>| #[trigger] result.contains(n) <==> wanted.contains(n)
            && !there.contains(n) by {
            if wanted.contains(n) && !there.contains(n) {
                let i = choose|i: int| 0 <= i < wanted.len() && wanted[i] == n;
                if i < init.len() {
                    assert(init[i] == n);
                    assert(rest.contains(n));
                    let j = choose|j: int| 0 <= j < rest.len() && rest[j] == n;
                    assert(result[j] == n);
                } else {
                    assert(result[result.len() - 1] == n);
                }
            }
            if result.contains(n) {
                let j = choose|j: int| 0 <= j < result.len() && result[j] == n;
                if j < rest.len() {
                    assert(rest[j] == n);
                    assert(rest.contains(n));
                    let i = choose|i: int| 0 <= i < init.len() && init[i] == n;
                    assert(wanted[i] == n);
                } else {
                    assert(wanted[wanted.len() - 1] == n);
                }
            }
        }
    } else {
        assert(wanted =~= Seq::empty());
    }
}

/// An empty store gets the six first servers, in their order, and no other gets any.
pub proof fn which_servers_are_added(server_count: i64, r: Vec<ServerRecord>)
    requires
        call_ensures(seed_default_servers, (server_count,), r),
    ensures
        server_count > 0 ==> r@.len() == 0,
        server_count <= 0 ==> r@.len() == 6,
        server_count <= 0 ==> {
            &&& is_seeded(r@[0]@, "zali-hub"@, "Zali Hub"@, "Общий хаб"@, "Z"@, "#cbff00"@)
            &&& is_seeded(r@[1]@, "dev-team"@, "Dev Team"@, "Разработка"@, "⚙"@, "#7b61ff"@)
            &&& is_seeded(r@[2]@, "friends"@, "Friends"@, "Круг общения"@, "☺"@, "#ff6b6b"@)
            &&& is_seeded(r@[3]@, "music"@, "Music"@, "Плейлисты"@, "♫"@, "#1fa7ff"@)
            &&& is_seeded(r@[4]@, "games"@, "Games"@, "Игровой чат"@, "🎮"@, "#29c46a"@)
            &&& is_seeded(r@[5]@, "study"@, "Study"@, "Учёба"@, "📚"@, "#ffb74d"@)
        },
{
    what_the_first_servers_are();
    assert(server_models(r@).len() == r@.len());
    if server_count <= 0 {
        assert(forall|i: int| 0 <= i < 6 ==> server_models(r@)[i] == (#[trigger] r@[i])@);
    }
}

/// The channels of a server of the system are in their places, from the first on, and belong
/// to it; the last is for voice and every other for text. A server that is not one of the six
/// has two.
pub proof fn seeded_channels_are_in_their_places(server_id: &str, r: Vec<ChannelRecord>, i: int)
    requires
        call_ensures(seed_channels, (server_id,), r),
        0 <= i < r@.len(),
    ensures
        r@[i].position == i,
        r@[i].server_id@ == server_id@,
        r@[i].id@ == server_id@ + "-"@ + r@[i].name@,
        i == r@.len() - 1 ==> r@[i].name@ == "voice"@ && r@[i].kind@ == "voice"@,
        i < r@.len() - 1 ==> r@[i].kind@ == "text"@,
        i == 0 ==> r@[i].name@ == "general"@,
        r@[i].topic@ == seeded_channels(server_id@)[i].topic,
        r@[i].name@ == seeded_channels(server_id@)[i].name,
        server_id@ != "zali-hub"@ && server_id@ != "dev-team"@ && server_id@ != "friends"@
            && server_id@ != "music"@ && server_id@ != "games"@ && server_id@ != "study"@ ==> {
            &&& r@.len() == 2
            &&& r@[0].topic@ == "Общий чат"@
            &&& r@[1].topic@ == "Голосовой канал"@
        },
{
    let models = servers::channel_models(r@);
    assert(models.len() == r@.len());
    assert(forall|k: int| 0 <= k < r@.len() ==> models[k] == (#[trigger] r@[k])@);
}

/// The channels follow one another by a second, and the servers by three.
pub proof fn how_channels_follow(server_index: usize, position: i64, r: i64)
    requires
        call_ensures(seed_delay_secs, (server_index, position), r),
    ensures
        r == 3 * server_index + position,
{
}

/// The columns that are added to a store are those of the three that it lacks, in their order.
pub proof fn which_columns_are_added(columns: &Vec<String>, r: Vec<String>)
    requires
        call_ensures(missing_message_columns, (columns,), r),
    ensures
        text::texts(r@) == seq!["server_id"@, "channel_id"@, "client_id"@].filter(
            |name: Seq<char>| !text::texts(columns@).contains(name),
        ),
{
    let there = text::texts(columns@);
    lacking_facts(later_columns(), there);
    let stated = |name: Seq<char>| !text::texts(columns@).contains(name);
    let meant = |n: Seq<char>| !there.contains(n);
    assert(stated =~= meant);
}

} // verus!
