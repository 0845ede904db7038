use zali_server::access::{
    build_server_response, build_server_responses_batch, can_access_channel, can_access_message,
    can_delete_message, can_manage_by_role, can_manage_server, channel_allows_action,
    channel_permissions_map, fallback_role_permissions, list_channels,
    resolve_server_message_viewers, role_permissions_for_view, server_access, server_member_role,
    server_role_permissions, server_role_permissions_map, visible_channels_for_server, ChannelRow,
    CountRow, MemberRow, MembershipRow, RoleRow,
};
use zali_server::records::{
    select_channels, ChannelRecord, ChannelResponse, Message, ServerRecord, Timestamp,
};
use zali_server::refusal::{Lookup, Refusal};

fn server(id: &str, owner: &str, public: i64) -> ServerRecord {
    ServerRecord {
        id: id.to_string(),
        name: format!("name {}", id),
        description: String::new(),
        icon: "S".to_string(),
        color: "#fff".to_string(),
        join_link: format!("zali://server/{}", id),
        owner: owner.to_string(),
        is_public: public,
    }
}

fn role_row(server: &str, role: &str, rights: (i64, i64, i64)) -> RoleRow {
    RoleRow {
        server_id: server.to_string(),
        role_id: role.to_string(),
        can_view: rights.0,
        can_send: rights.1,
        can_manage: rights.2,
    }
}

fn channel_row(server: &str, channel: &str, role: &str, rights: (i64, i64, i64)) -> ChannelRow {
    ChannelRow {
        server_id: server.to_string(),
        channel_id: channel.to_string(),
        role: role.to_string(),
        can_view: rights.0,
        can_send: rights.1,
        can_manage: rights.2,
    }
}

fn channel(server: &str, id: &str, position: i64) -> ChannelRecord {
    ChannelRecord {
        id: id.to_string(),
        server_id: server.to_string(),
        name: format!("#{}", id),
        topic: String::new(),
        kind: "text".to_string(),
        position,
    }
}

fn ids(channels: &Vec<ChannelResponse>) -> Vec<String> {
    channels.iter().map(|c| c.id.clone()).collect()
}

fn some(s: &str) -> Option<String> {
    Some(s.to_string())
}

fn message(sender: &str, receiver: &str, place: Option<(&str, &str)>) -> Message {
    Message {
        id: "m".to_string(),
        client_id: None,
        sender: sender.to_string(),
        receiver: receiver.to_string(),
        filename: "m.zali".to_string(),
        timestamp: Timestamp { secs: 1, nanos: 0 },
        server_id: place.map(|p| p.0.to_string()),
        channel_id: place.map(|p| p.1.to_string()),
    }
}

#[test]
fn actions_and_rights() {
    assert!(role_permissions_for_view("view", true, false, false));
    assert!(!role_permissions_for_view("send", true, false, true));
    assert!(role_permissions_for_view("manage", false, false, true));
    assert!(!role_permissions_for_view("dance", true, true, true));
    assert_eq!(fallback_role_permissions("owner"), (true, true, true));
    assert_eq!(fallback_role_permissions("admin"), (true, true, true));
    assert_eq!(fallback_role_permissions("member"), (true, true, false));
    assert_eq!(fallback_role_permissions("other"), (true, true, false));
    assert!(can_manage_by_role(Some("owner")));
    assert!(can_manage_by_role(Some("admin")));
    assert!(!can_manage_by_role(Some("Admin")));
    assert!(!can_manage_by_role(None));
}

#[test]
fn roles_of_users() {
    assert_eq!(server_member_role(Some("ann"), "ann", some("member")), some("owner"));
    assert_eq!(server_member_role(Some("ann"), "bob", some("member")), some("member"));
    assert_eq!(server_member_role(Some("ann"), "bob", None), None);
    assert_eq!(server_member_role(Some("  "), "  ", some("member")), None);
    assert_eq!(server_member_role(None, "bob", some("admin")), some("admin"));
    assert_eq!(server_role_permissions("owner", Some((false, false, false))), (true, true, true));
    assert_eq!(server_role_permissions("vip", Some((true, false, true))), (true, false, true));
    assert_eq!(server_role_permissions("admin", None), (true, true, true));
    assert_eq!(server_role_permissions("vip", None), (true, true, false));
}

#[test]
fn open_servers() {
    let public = server("s", "ann", 1);
    let private = server("s", "ann", 0);
    assert!(server_access(&public, "bob", &None));
    assert!(!server_access(&private, "bob", &None));
    assert!(server_access(&private, "ann", &None));
    assert!(server_access(&private, "bob", &some("member")));
}

#[test]
fn managing_a_server() {
    let s = server("s", "ann", 1);
    assert!(can_manage_server(Some(&s), "ann", &None, None));
    assert!(can_manage_server(Some(&s), "bob", &some("admin"), Some((false, false, false))));
    assert!(can_manage_server(Some(&s), "bob", &some("vip"), Some((false, false, true))));
    assert!(!can_manage_server(Some(&s), "bob", &some("vip"), None));
    assert!(!can_manage_server(Some(&s), "bob", &None, Some((true, true, true))));
    assert!(!can_manage_server(None, "ann", &some("owner"), None));
}

#[test]
fn acting_in_a_channel() {
    let s = server("s", "ann", 1);
    let p = server("s", "ann", 0);
    assert!(can_access_channel(Some(&s), "ann", &None, Some((false, false, false)), None, "manage"));
    assert!(can_access_channel(Some(&s), "bob", &None, None, None, "view"));
    assert!(!can_access_channel(Some(&s), "bob", &None, None, None, "send"));
    assert!(!can_access_channel(Some(&p), "bob", &None, None, None, "view"));
    let member = some("member");
    assert!(can_access_channel(Some(&p), "bob", &member, None, None, "send"));
    assert!(!can_access_channel(Some(&p), "bob", &member, Some((true, false, false)), None, "send"));
    assert!(!can_access_channel(Some(&p), "bob", &member, None, Some((false, true, true)), "view"));
    assert!(!can_access_channel(None, "ann", &member, None, None, "view"));
    assert!(!can_access_channel(Some(&s), "bob", &member, None, None, "other"));
}

#[test]
fn channel_rights_come_before_server_rights() {
    let roles = vec![role_row("s", "vip", (0, 1, 0)), role_row("t", "vip", (1, 1, 1))];
    let rows = vec![
        channel_row("s", "c", "vip", (0, 0, 0)),
        channel_row("s", "c", "vip", (1, 0, 0)),
        channel_row("t", "d", "vip", (1, 1, 1)),
    ];
    let by_role = server_role_permissions_map(&roles, "s");
    let by_channel = channel_permissions_map(&rows, "s");
    assert!(channel_allows_action(&by_channel, &by_role, "vip", "c", "view"));
    assert!(!channel_allows_action(&by_channel, &by_role, "vip", "c", "send"));
    assert!(!channel_allows_action(&by_channel, &by_role, "vip", "d", "view"));
    assert!(channel_allows_action(&by_channel, &by_role, "vip", "d", "send"));
    assert!(channel_allows_action(&by_channel, &by_role, "unknown", "d", "view"));
    assert!(!channel_allows_action(&by_channel, &by_role, "unknown", "d", "manage"));
    assert!(channel_allows_action(&by_channel, &by_role, "admin", "d", "manage"));
    assert!(!channel_allows_action(&by_channel, &by_role, "member", "c", "manage"));
}

#[test]
fn a_recorded_member_role_counts_for_unknown_roles() {
    let roles = vec![role_row("s", "member", (0, 0, 0))];
    let by_role = server_role_permissions_map(&roles, "s");
    let by_channel = channel_permissions_map(&vec![], "s");
    assert!(!channel_allows_action(&by_channel, &by_role, "unknown", "c", "view"));
}

#[test]
fn channels_that_are_seen() {
    let all = vec![channel("s", "a", 0), channel("t", "x", 0), channel("s", "b", 1)];
    let mine = || select_channels(&all, "s");
    assert_eq!(ids(&mine()), vec!["a", "b"]);
    let rows = vec![channel_row("s", "a", "member", (0, 0, 0))];
    let s = server("s", "ann", 0);
    let seen = |user: &str, role: Option<String>, srv: Option<&ServerRecord>| {
        ids(&visible_channels_for_server(srv, user, &role, mine(), &rows, &vec![]))
    };
    assert_eq!(seen("ann", None, Some(&s)), vec!["a", "b"]);
    assert_eq!(seen("bob", some("member"), Some(&s)), vec!["b"]);
    assert!(seen("bob", None, Some(&s)).is_empty());
    let public = server("s", "ann", 1);
    assert_eq!(seen("bob", None, Some(&public)), vec!["a", "b"]);
    assert!(seen("ann", None, None).is_empty());
}

#[test]
fn one_server_as_seen() {
    let s = server("s", "ann", 0);
    let all = vec![channel("s", "a", 0), channel("s", "b", 1)];
    let rows = vec![
        channel_row("s", "a", "member", (0, 0, 0)),
        channel_row("s", "a", "vip", (0, 0, 0)),
    ];
    let roles = vec![role_row("s", "vip", (1, 1, 1))];
    let r = build_server_response(
        &s, "bob", some("member"), select_channels(&all, "s"), &rows, &roles, 7,
    );
    assert_eq!(ids(&r.channels), vec!["b"]);
    assert_eq!(r.my_role, some("member"));
    assert_eq!(r.member_count, 7);
    assert!(!r.is_public);
    assert_eq!(r.name, "name s");
    let r = build_server_response(
        &s, "eve", some("vip"), select_channels(&all, "s"), &rows, &roles, 7,
    );
    assert_eq!(ids(&r.channels), vec!["a", "b"]);
    let r = build_server_response(
        &s, "ann", some("member"), select_channels(&all, "s"), &rows, &roles, 7,
    );
    assert_eq!(r.my_role, some("owner"));
    assert_eq!(ids(&r.channels), vec!["a", "b"]);
}

#[test]
fn lists_of_servers_agree_with_single_ones() {
    let records = vec![server("s", "ann", 0), server("t", "bob", 1), server("u", "eve", 0), server("v", "eve", 1)];
    let channels = vec![
        channel("s", "s1", 0),
        channel("s", "s2", 1),
        channel("t", "t1", 0),
        channel("u", "u1", 0),
        channel("v", "v1", 0),
    ];
    let channel_rows = vec![channel_row("s", "s1", "vip", (0, 1, 0))];
    let role_rows = vec![role_row("s", "vip", (1, 1, 0))];
    let counts = vec![
        CountRow { server_id: "s".to_string(), count: 4 },
        CountRow { server_id: "t".to_string(), count: 1 },
    ];
    let memberships = vec![
        MembershipRow { server_id: "s".to_string(), role: "vip".to_string() },
        MembershipRow { server_id: "t".to_string(), role: "member".to_string() },
    ];
    let list = build_server_responses_batch(
        &records, "bob", &counts, &memberships, &channels, &channel_rows, &role_rows,
    );
    assert_eq!(list.len(), 4);
    let shown: Vec<Vec<String>> = list.iter().map(|r| ids(&r.channels)).collect();
    assert_eq!(shown, vec![vec!["s2"], vec!["t1"], vec![], vec!["v1"]]);
    assert_eq!(list[0].my_role, some("vip"));
    assert_eq!(list[1].my_role, some("owner"));
    assert_eq!(list[2].my_role, None);
    assert_eq!(list[0].member_count, 4);
    assert_eq!(list[2].member_count, 0);
    let member_of = |id: &str| {
        memberships.iter().find(|m| m.server_id == id).map(|m| m.role.clone())
    };
    for (i, record) in records.iter().enumerate() {
        let single = build_server_response(
            record,
            "bob",
            member_of(&record.id),
            select_channels(&channels, &record.id),
            &channel_rows,
            &role_rows,
            list[i].member_count,
        );
        assert_eq!(single.my_role, list[i].my_role);
        assert_eq!(ids(&single.channels), ids(&list[i].channels));
    }
}

#[test]
fn a_repeated_id_has_its_channels_once() {
    let records = vec![server("s", "ann", 1), server("s", "ann", 1)];
    let list = build_server_responses_batch(
        &records, "bob", &vec![], &vec![], &vec![channel("s", "a", 0)], &vec![], &vec![],
    );
    assert_eq!(ids(&list[0].channels), vec!["a"]);
    assert!(list[1].channels.is_empty());
}

#[test]
fn listing_channels_needs_access() {
    let all = vec![channel("s", "a", 0)];
    let get = |srv: Lookup<ServerRecord>, user: &str, role: Option<String>| {
        list_channels(&srv, user, role, select_channels(&all, "s"), &vec![], &vec![])
            .map(|v| ids(&v))
    };
    assert_eq!(get(Lookup::Failed, "bob", None).unwrap_err(), Refusal::Internal);
    assert_eq!(get(Lookup::Missing, "bob", None).unwrap_err(), Refusal::Forbidden);
    assert_eq!(
        get(Lookup::Found(server("s", "ann", 0)), "bob", None).unwrap_err(),
        Refusal::Forbidden
    );
    assert_eq!(get(Lookup::Found(server("s", "ann", 1)), "bob", None).unwrap(), vec!["a"]);
    assert_eq!(
        get(Lookup::Found(server("s", "ann", 0)), "bob", some("member")).unwrap(),
        vec!["a"]
    );
}

#[test]
fn receivers_of_channel_messages() {
    let viewers: Vec<String> = ["ann", "bob", "eve", "joe", "kim"].iter().map(|s| s.to_string()).collect();
    let members = vec![
        MemberRow { username: "bob".to_string(), role: "member".to_string() },
        MemberRow { username: "eve".to_string(), role: "muted".to_string() },
        MemberRow { username: "joe".to_string(), role: "vip".to_string() },
    ];
    let channel_rows = vec![channel_row("s", "c", "vip", (0, 0, 0))];
    let role_rows = vec![role_row("s", "muted", (0, 0, 0)), role_row("s", "vip", (1, 1, 1))];
    let private = server("s", "ann", 0);
    assert_eq!(
        resolve_server_message_viewers(&private, "c", &viewers, &channel_rows, &role_rows, &members),
        vec!["ann", "bob"]
    );
    let public = server("s", "ann", 1);
    assert_eq!(
        resolve_server_message_viewers(&public, "c", &viewers, &channel_rows, &role_rows, &members),
        vec!["ann", "bob", "kim"]
    );
    assert_eq!(
        resolve_server_message_viewers(&private, "d", &viewers, &channel_rows, &role_rows, &members),
        vec!["ann", "bob", "joe"]
    );
    assert!(resolve_server_message_viewers(&public, "c", &vec![], &vec![], &vec![], &vec![]).is_empty());
}

#[test]
fn reading_messages() {
    let dm = message("ann", "bob", None);
    assert!(can_access_message(&dm, "ann", None, &None, None, None));
    assert!(can_access_message(&dm, "bob", None, &None, None, None));
    assert!(!can_access_message(&dm, "eve", None, &some("owner"), None, None));
    let s = server("s", "own", 0);
    let m = message("ann", "c", Some(("s", "c")));
    assert!(!can_access_message(&m, "ann", None, &None, None, None));
    assert!(!can_access_message(&m, "ann", Some(&s), &None, None, None));
    assert!(can_access_message(&m, "ann", Some(&s), &some("member"), Some((false, false, false)), None));
    assert!(can_access_message(&m, "own", Some(&s), &some("owner"), None, None));
    assert!(can_access_message(&m, "bob", Some(&s), &some("member"), None, None));
    assert!(!can_access_message(&m, "bob", Some(&s), &some("member"), Some((false, true, true)), None));
    let public = server("s", "own", 1);
    assert!(can_access_message(&m, "eve", Some(&public), &None, None, None));
    let mut loose = message("ann", "c", Some(("s", "c")));
    loose.channel_id = None;
    assert!(can_access_message(&loose, "eve", Some(&public), &None, None, None));
    assert!(!can_access_message(&loose, "bob", Some(&s), &some("member"), None, None));
}

#[test]
fn deleting_messages() {
    let dm = message("ann", "bob", None);
    assert!(can_delete_message(&dm, "ann", None, &None, None, None));
    assert!(!can_delete_message(&dm, "bob", None, &some("admin"), None, None));
    let s = server("s", "own", 1);
    let m = message("ann", "c", Some(("s", "c")));
    assert!(can_delete_message(&m, "ann", None, &None, None, None));
    assert!(can_delete_message(&m, "own", Some(&s), &None, None, None));
    assert!(can_delete_message(&m, "adm", Some(&s), &some("admin"), None, None));
    assert!(!can_delete_message(&m, "bob", Some(&s), &some("member"), None, None));
    assert!(can_delete_message(&m, "bob", Some(&s), &some("member"), Some((true, true, true)), None));
    assert!(can_delete_message(&m, "mod", Some(&s), &some("mod"), None, Some((true, true, true))));
    assert!(!can_delete_message(&m, "eve", Some(&s), &None, None, None));
}
