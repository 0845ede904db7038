use zali_server::records::{ChannelRecord, ServerRecord, Timestamp};
use zali_server::refusal::{Lookup, Refusal};
use zali_server::roles::{FlagInput, ServerRolePayload};
use zali_server::seeds::{
    missing_message_columns, seed_channels, seed_default_servers, seed_delay_secs,
};
use zali_server::servers::{
    add_contact, change_member, check_access, check_channel_deletion, check_manager,
    check_server_deletion, create_channel, create_server, create_server_invite_record,
    default_channels, deletion_answer, expiry_is_possible, first_member, invite_url, join_by_invite,
    make_invite, make_new_channel, make_server, name_can_conflict, next_channel_name,
    next_deletion_step, read_server_link, roles_to_make, update_channel, update_server,
    ChannelPayload, ChannelUpdatePayload, Deleted, DeletionStep, MemberChange, ServerInvite,
    ServerPayload, ServerSettingsPayload,
};

fn some(s: &str) -> Option<String> {
    Some(s.to_string())
}

fn server() -> ServerRecord {
    ServerRecord {
        id: "s".to_string(),
        name: "Name".to_string(),
        description: " about ".to_string(),
        icon: "N".to_string(),
        color: "#000".to_string(),
        join_link: "zali://server/s".to_string(),
        owner: "ann".to_string(),
        is_public: 1,
    }
}

fn server_payload(name: &str) -> ServerPayload {
    ServerPayload {
        name: name.to_string(),
        description: None,
        icon: None,
        color: None,
        join_link: None,
        is_public: None,
    }
}

fn settings() -> ServerSettingsPayload {
    ServerSettingsPayload {
        name: None,
        description: None,
        icon: None,
        color: None,
        join_link: None,
        is_public: None,
    }
}

fn channel() -> ChannelRecord {
    ChannelRecord {
        id: "c".to_string(),
        server_id: "s".to_string(),
        name: "general".to_string(),
        topic: "talk".to_string(),
        kind: "text".to_string(),
        position: 2,
    }
}

fn channel_payload(name: &str) -> ChannelPayload {
    ChannelPayload {
        name: name.to_string(),
        topic: None,
        kind: None,
        can_view: None,
        can_send: None,
    }
}

fn channel_change() -> ChannelUpdatePayload {
    ChannelUpdatePayload {
        name: None,
        topic: None,
        kind: None,
        position: None,
    }
}

fn at(secs: i64, nanos: u32) -> Timestamp {
    Timestamp { secs, nanos }
}

fn invite(max_uses: i64, uses: i64, expires_at: Option<Timestamp>) -> Lookup<ServerInvite> {
    Lookup::Found(ServerInvite {
        code: "abc".to_string(),
        server_id: "s".to_string(),
        created_by: "ann".to_string(),
        max_uses,
        uses,
        expires_at,
        created_at: at(0, 0),
    })
}

#[test]
fn new_servers() {
    let s = make_server(&server_payload("  Клуб "), "id", "ann").unwrap();
    assert_eq!(s.id, "id");
    assert_eq!(s.name, "Клуб");
    assert_eq!(s.description, "");
    assert_eq!(s.icon, "К");
    assert_eq!(s.color, "#cbff00");
    assert_eq!(s.join_link, "zali://server/id");
    assert_eq!(s.owner, "ann");
    assert_eq!(s.is_public, 1);
    let mut p = server_payload("x");
    p.description = some(" d ");
    p.icon = some("");
    p.color = some("red");
    p.join_link = some("  my-link ");
    p.is_public = Some(false);
    let s = make_server(&p, "id", "ann").unwrap();
    assert_eq!(s.description, " d ");
    assert_eq!(s.icon, "");
    assert_eq!(s.color, "red");
    assert_eq!(s.join_link, "my-link");
    assert_eq!(s.is_public, 0);
    p.join_link = some("   ");
    assert_eq!(make_server(&p, "id", "ann").unwrap().join_link, "zali://server/id");
    assert_eq!(
        make_server(&server_payload("  "), "id", "ann").unwrap_err(),
        Refusal::EmptyServerName
    );
}

#[test]
fn new_servers_draw_their_id() {
    let a = create_server(&server_payload("x"), "ann").unwrap();
    let b = create_server(&server_payload("x"), "ann").unwrap();
    assert_eq!(a.id.len(), 36);
    assert_ne!(a.id, b.id);
    assert_eq!(a.join_link, format!("zali://server/{}", a.id));
    assert_eq!(read_server_link(&a.join_link).unwrap(), (a.join_link.clone(), a.id.clone()));
    assert!(create_server(&server_payload(" "), "ann").is_err());
    assert_eq!(a.id.chars().filter(|c| *c == '-').count(), 4);
}

#[test]
fn custom_roles_of_a_new_server() {
    let role = |name: &str| ServerRolePayload {
        name: name.to_string(),
        color: None,
        flags: FlagInput {
            view: None,
            send: None,
            manage: None,
            manage_channels: None,
            manage_roles: None,
            invite: None,
            attach: None,
            embed: None,
            react: None,
            pin: None,
            mention: None,
            voice: None,
            kick: None,
            ban: None,
        },
    };
    assert_eq!(roles_to_make(&vec![]), (0, Ok(())));
    assert_eq!(roles_to_make(&vec![role("a"), role("b")]), (2, Ok(())));
    assert_eq!(
        roles_to_make(&vec![role("a"), role(" "), role("b")]),
        (1, Err(Refusal::EmptyRoleName))
    );
}

#[test]
fn first_channels_of_a_server() {
    let channels = default_channels("s");
    assert_eq!(channels.len(), 2);
    assert_eq!(channels[0].id, "s-general");
    assert_eq!(channels[0].name, "Общий чат");
    assert_eq!(channels[0].topic, "");
    assert_eq!(channels[0].kind, "text");
    assert_eq!(channels[0].position, 0);
    assert_eq!(channels[1].id, "s-announcements");
    assert_eq!(channels[1].name, "Объявления");
    assert_eq!(channels[1].position, 1);
}

#[test]
fn servers_change_where_something_is_said() {
    let s = Lookup::Found(server());
    let same = update_server(&s, true, &settings()).unwrap();
    assert_eq!(same.name, "Name");
    assert_eq!(same.description, "about");
    assert_eq!(same.is_public, 1);
    let mut p = settings();
    p.name = some("  New ");
    p.description = some("  ");
    p.icon = some("  ");
    p.color = some(" #fff ");
    p.join_link = some(" link ");
    p.is_public = Some(false);
    let next = update_server(&s, true, &p).unwrap();
    assert_eq!(next.name, "New");
    assert_eq!(next.description, "");
    assert_eq!(next.icon, "N");
    assert_eq!(next.color, "#fff");
    assert_eq!(next.join_link, "link");
    assert_eq!(next.is_public, 0);
    assert_eq!(next.owner, "ann");
    assert_eq!(update_server(&s, false, &p).unwrap_err(), Refusal::Forbidden);
    assert_eq!(update_server(&Lookup::Missing, true, &p).unwrap_err(), Refusal::NotFound);
    assert_eq!(update_server(&Lookup::Failed, false, &p).unwrap_err(), Refusal::Internal);
}

#[test]
fn only_owners_delete_servers() {
    assert_eq!(check_server_deletion(&Lookup::Found(server()), "ann"), Ok(()));
    assert_eq!(
        check_server_deletion(&Lookup::Found(server()), "bob"),
        Err(Refusal::Forbidden)
    );
    assert_eq!(check_server_deletion(&Lookup::Missing, "ann"), Err(Refusal::NotFound));
    assert_eq!(check_server_deletion(&Lookup::Failed, "ann"), Err(Refusal::Internal));
    assert_eq!(check_manager(true), Ok(()));
    assert_eq!(check_manager(false), Err(Refusal::Forbidden));
    assert_eq!(check_access(&Lookup::Found(server()), "bob", &None), Ok(()));
    let mut private = server();
    private.is_public = 0;
    assert_eq!(check_access(&Lookup::Found(private), "bob", &None), Err(Refusal::Forbidden));
    assert_eq!(check_access(&Lookup::Missing, "bob", &None), Err(Refusal::Forbidden));
    assert_eq!(check_access(&Lookup::Failed, "bob", &None), Err(Refusal::Internal));
}

#[test]
fn new_channels() {
    let s = Lookup::Found(server());
    let c = make_new_channel(&s, true, &channel_payload(" news "), false, "77", 3).unwrap();
    assert_eq!(c.id, "s-77");
    assert_eq!(c.server_id, "s");
    assert_eq!(c.name, "news");
    assert_eq!(c.topic, "");
    assert_eq!(c.kind, "text");
    assert_eq!(c.position, 3);
    let mut p = channel_payload("talk");
    p.kind = some(" Voice");
    p.topic = some(" t ");
    let c = create_channel(&s, true, &p, false, 0).unwrap();
    assert_eq!(c.kind, "voice");
    assert_eq!(c.topic, " t ");
    assert_eq!(c.id.len(), 38);
    assert!(c.id.starts_with("s-"));
    let err = |s: &Lookup<ServerRecord>, may: bool, name: &str, taken: bool| {
        create_channel(s, may, &channel_payload(name), taken, 0).unwrap_err()
    };
    assert_eq!(err(&Lookup::Failed, true, "x", false), Refusal::Internal);
    assert_eq!(err(&Lookup::Missing, true, "x", false), Refusal::NotFound);
    assert_eq!(err(&s, false, "x", false), Refusal::Forbidden);
    assert_eq!(err(&s, true, "  ", true), Refusal::EmptyChannelName);
    assert_eq!(err(&s, true, "x", true), Refusal::ChannelNameTaken);
    assert!(name_can_conflict("x"));
    assert!(!name_can_conflict(" "));
}

#[test]
fn channels_change_where_something_is_said() {
    let c = Lookup::Found(channel());
    let same = update_channel(true, &c, &channel_change(), true).unwrap();
    assert_eq!(same.name, "general");
    assert_eq!(same.topic, "talk");
    assert_eq!(same.position, 2);
    let mut p = channel_change();
    p.name = some(" news ");
    p.topic = some("  ");
    p.kind = some("VOICE");
    p.position = Some(-5);
    assert_eq!(next_channel_name(&channel(), &p), "news");
    let next = update_channel(true, &c, &p, false).unwrap();
    assert_eq!(next.name, "news");
    assert_eq!(next.topic, "");
    assert_eq!(next.kind, "voice");
    assert_eq!(next.position, 0);
    assert_eq!(next.id, "c");
    assert_eq!(update_channel(true, &c, &p, true).unwrap_err(), Refusal::ChannelNameTaken);
    assert_eq!(update_channel(false, &c, &p, true).unwrap_err(), Refusal::Forbidden);
    assert_eq!(
        update_channel(true, &Lookup::Missing, &p, false).unwrap_err(),
        Refusal::NotFound
    );
    assert_eq!(
        update_channel(true, &Lookup::Failed, &p, false).unwrap_err(),
        Refusal::Internal
    );
    let mut blank = channel();
    blank.name = " ".to_string();
    assert_eq!(
        update_channel(true, &Lookup::Found(blank), &channel_change(), false).unwrap_err(),
        Refusal::EmptyChannelName
    );
    assert_eq!(check_channel_deletion(true, &c), Ok(()));
    assert_eq!(check_channel_deletion(false, &Lookup::Failed), Err(Refusal::Forbidden));
    assert_eq!(check_channel_deletion(true, &Lookup::Missing), Err(Refusal::NotFound));
    assert_eq!(check_channel_deletion(true, &Lookup::Failed), Err(Refusal::Internal));
}

#[test]
fn deletions_run_through_their_steps() {
    let mut step = DeletionStep::ListFiles;
    let mut seen = Vec::new();
    while deletion_answer(step).is_none() {
        seen.push(step);
        step = next_deletion_step(Deleted::Channel, step, true);
    }
    assert_eq!(
        seen,
        vec![
            DeletionStep::ListFiles,
            DeletionStep::RemoveFiles,
            DeletionStep::Begin,
            DeletionStep::DropReactions,
            DeletionStep::DropMessages,
            DeletionStep::DropPermissions,
            DeletionStep::DropChannels,
            DeletionStep::Commit,
        ]
    );
    assert_eq!(deletion_answer(step), Some(Ok(())));
    let mut step = DeletionStep::ListFiles;
    let mut count = 0;
    while deletion_answer(step).is_none() {
        count += 1;
        step = next_deletion_step(Deleted::Server, step, true);
    }
    assert_eq!(count, 9);
    assert_eq!(step, DeletionStep::Done);
}

#[test]
fn a_failed_step_undoes_a_deletion() {
    let step = next_deletion_step(Deleted::Server, DeletionStep::DropMembers, false);
    assert_eq!(step, DeletionStep::Undone);
    assert_eq!(next_deletion_step(Deleted::Server, step, true), DeletionStep::Undone);
    assert_eq!(deletion_answer(step), Some(Err(Refusal::Internal)));
    assert_eq!(
        next_deletion_step(Deleted::Channel, DeletionStep::RemoveFiles, false),
        DeletionStep::Begin
    );
}

#[test]
fn members_change() {
    let s = Lookup::Found(server());
    let change = |c: MemberChange, may: bool, name: &str, role: Option<String>| {
        change_member(c, may, &s, name, &role)
    };
    assert_eq!(
        change(MemberChange::Add, true, " bob ", some("admin")).unwrap(),
        ("bob".to_string(), "admin".to_string())
    );
    assert_eq!(
        change(MemberChange::SetRole, true, "bob", some("vip-1")).unwrap(),
        ("bob".to_string(), "member".to_string())
    );
    assert_eq!(change(MemberChange::Remove, true, "bob", None).unwrap().0, "bob");
    assert_eq!(
        change(MemberChange::Add, false, "bob", some("admin")).unwrap_err(),
        Refusal::Forbidden
    );
    assert_eq!(
        change(MemberChange::Add, true, "  ", some("admin")).unwrap_err(),
        Refusal::EmptyMemberName
    );
    assert_eq!(
        change(MemberChange::Add, true, "ann", some("admin")).unwrap_err(),
        Refusal::OwnerIsMember
    );
    assert_eq!(
        change(MemberChange::SetRole, true, "ann", some("admin")).unwrap_err(),
        Refusal::OwnerRoleFixed
    );
    assert_eq!(
        change(MemberChange::Remove, true, "ann", None).unwrap_err(),
        Refusal::OwnerStays
    );
    assert_eq!(
        change(MemberChange::Add, true, "bob", None).unwrap_err(),
        Refusal::UnknownRole
    );
    assert_eq!(
        change(MemberChange::Add, true, "bob", some("owner")).unwrap_err(),
        Refusal::OwnerRoleNotGiven
    );
    assert_eq!(
        change_member(MemberChange::Add, true, &Lookup::Missing, "bob", &None).unwrap_err(),
        Refusal::NotFound
    );
    assert_eq!(
        change_member(MemberChange::Add, true, &Lookup::Failed, "bob", &None).unwrap_err(),
        Refusal::Internal
    );
}

#[test]
fn contacts_are_other_users() {
    let there = Lookup::Found("bob".to_string());
    assert_eq!(add_contact("ann", " bob ", &there).unwrap(), "bob");
    assert_eq!(add_contact("ann", " ", &there).unwrap_err(), Refusal::EmptyContact);
    assert_eq!(add_contact("ann", " ann ", &there).unwrap_err(), Refusal::OwnContact);
    assert_eq!(
        add_contact("ann", "bob", &Lookup::Missing).unwrap_err(),
        Refusal::UserNotFound
    );
    assert_eq!(add_contact("ann", "bob", &Lookup::Failed).unwrap_err(), Refusal::Internal);
}

#[test]
fn new_invites() {
    let i = make_invite("s", "ann", Some(5), Some(2), at(100, 7), "0123456789");
    assert_eq!(i.code, "01234567");
    assert_eq!(i.max_uses, 5);
    assert_eq!(i.uses, 0);
    assert_eq!(i.expires_at, Some(at(7300, 7)));
    assert_eq!(i.created_at, at(100, 7));
    let i = make_invite("s", "ann", Some(-5), Some(0), at(100, 7), "0123456789");
    assert_eq!(i.max_uses, 0);
    assert_eq!(i.expires_at, None);
    let i = create_server_invite_record("s", "ann", None, None, at(100, 7));
    assert_eq!(i.code.len(), 8);
    assert_eq!(i.server_id, "s");
    assert_eq!(i.created_by, "ann");
    assert_eq!(invite_url("abc"), "zali://invite/abc");
    assert!(expiry_is_possible(at(0, 0), Some(1)));
    assert!(expiry_is_possible(at(0, 0), Some(-1)));
    assert!(expiry_is_possible(at(0, 0), None));
    assert!(!expiry_is_possible(at(0, 0), Some(i64::MAX)));
}

#[test]
fn joining_by_invite() {
    let now = at(1000, 5);
    let join = |i: &Lookup<ServerInvite>| join_by_invite("abc", i, now);
    assert_eq!(join(&invite(0, 99, None)).unwrap(), "s");
    assert_eq!(join(&invite(2, 1, None)).unwrap(), "s");
    assert_eq!(join(&invite(2, 2, None)).unwrap_err(), Refusal::InviteUsedUp);
    assert_eq!(join(&invite(0, 0, Some(at(1000, 5)))).unwrap(), "s");
    assert_eq!(
        join(&invite(0, 0, Some(at(1000, 4)))).unwrap_err(),
        Refusal::InviteExpired
    );
    assert_eq!(
        join(&invite(1, 1, Some(at(999, 9)))).unwrap_err(),
        Refusal::InviteExpired
    );
    assert_eq!(
        join_by_invite("  ", &invite(0, 0, None), now).unwrap_err(),
        Refusal::InviteCodeMissing
    );
    assert_eq!(join(&Lookup::Missing).unwrap_err(), Refusal::NotFound);
    assert_eq!(join(&Lookup::Failed).unwrap_err(), Refusal::Internal);
}

#[test]
fn links_to_servers() {
    let read = |s: &str| read_server_link(s).unwrap();
    assert_eq!(
        read("  zali://server/ abc "),
        ("zali://server/ abc".to_string(), "abc".to_string())
    );
    assert_eq!(read("server/abc"), ("server/abc".to_string(), "abc".to_string()));
    assert_eq!(read("abc"), ("abc".to_string(), "abc".to_string()));
    assert_eq!(read_server_link("  ").unwrap_err(), Refusal::ServerLinkMissing);
}

#[test]
fn seeds_of_a_store() {
    assert!(seed_default_servers(1).is_empty());
    let servers = seed_default_servers(0);
    let ids: Vec<&str> = servers.iter().map(|s| s.id.as_str()).collect();
    assert_eq!(ids, vec!["zali-hub", "dev-team", "friends", "music", "games", "study"]);
    assert_eq!(servers[1].name, "Dev Team");
    assert_eq!(servers[1].description, "Разработка");
    assert_eq!(servers[1].icon, "⚙");
    assert_eq!(servers[1].color, "#7b61ff");
    assert_eq!(servers[1].join_link, "zali://server/dev-team");
    assert_eq!(servers[1].owner, "system");
    assert_eq!(servers[1].is_public, 1);
    let counts: Vec<usize> = ids.iter().map(|id| seed_channels(id).len()).collect();
    assert_eq!(counts, vec![4, 4, 3, 3, 4, 4]);
    let music = seed_channels("music");
    assert_eq!(music[1].id, "music-tracks");
    assert_eq!(music[1].name, "tracks");
    assert_eq!(music[1].topic, "Треки и подборки");
    assert_eq!(music[2].kind, "voice");
    assert_eq!(music[2].position, 2);
    let other = seed_channels("x");
    assert_eq!(other[1].id, "x-voice");
    assert_eq!(other[1].topic, "Голосовой канал");
    assert_eq!(seed_delay_secs(4, 3), 15);
}

#[test]
fn columns_of_older_stores() {
    let none: Vec<String> = vec!["id".to_string()];
    assert_eq!(missing_message_columns(&none), vec!["server_id", "channel_id", "client_id"]);
    let some: Vec<String> = vec!["channel_id".to_string(), "id".to_string()];
    assert_eq!(missing_message_columns(&some), vec!["server_id", "client_id"]);
    let all: Vec<String> = ["client_id", "server_id", "channel_id"].iter().map(|s| s.to_string()).collect();
    assert!(missing_message_columns(&all).is_empty());
}

#[test]
fn owners_are_the_first_members() {
    let m = first_member(&server());
    assert_eq!(m.server_id, "s");
    assert_eq!(m.username, "ann");
    assert_eq!(m.role, "owner");
}
