use zali_server::access::ChannelRow;
use zali_server::refusal::Refusal;
use zali_server::roles::{
    channel_permission_updates, channel_permissions, create_server_role_record,
    default_server_roles, delete_server_role_record, make_server_role, member_role_input, needs_default_roles,
    new_channel_permission, normalize_channel_kind, normalize_server_role,
    resolve_member_role_input, server_roles, slug_role_id,
    stored_member_role, update_server_role_record, ChannelPermissionInput, FlagInput, RoleFlags,
    RoleInput, ServerRolePayload, ServerRoleRecord,
};

fn open_flags() -> FlagInput {
    FlagInput {
        view: None,
        send: None,
        manage: None,
        manage_channels: None,
        manage_roles: None,
        invite: None,
        attach: None,
        embed: None,
        react: None,
        pin: None,
        mention: None,
        voice: None,
        kick: None,
        ban: None,
    }
}

fn payload(name: &str) -> ServerRolePayload {
    ServerRolePayload {
        name: name.to_string(),
        color: None,
        flags: open_flags(),
    }
}

fn record() -> ServerRoleRecord {
    ServerRoleRecord {
        role_id: "vip-1".to_string(),
        name: "VIP".to_string(),
        color: "#111".to_string(),
        can_view: 1,
        can_send: 0,
        can_manage: 2,
        can_manage_channels: 0,
        can_manage_roles: 0,
        can_invite: -1,
        can_attach: 0,
        can_embed: 0,
        can_react: 0,
        can_pin: 0,
        can_mention: 0,
        can_voice: 0,
        can_kick: 0,
        can_ban: 1,
        position: 4,
    }
}

fn some(s: &str) -> Option<String> {
    Some(s.to_string())
}

#[test]
fn channel_kinds() {
    assert_eq!(normalize_channel_kind(Some("  VOICE ")), "voice");
    assert_eq!(normalize_channel_kind(Some("text")), "text");
    assert_eq!(normalize_channel_kind(Some("video")), "text");
    assert_eq!(normalize_channel_kind(None), "text");
    assert_eq!(normalize_channel_kind(Some(&normalize_channel_kind(Some("Voice")))), "voice");
}

#[test]
fn builtin_roles() {
    assert_eq!(normalize_server_role(Some(" Owner ")), some("owner"));
    assert_eq!(normalize_server_role(Some("ADMIN")), some("admin"));
    assert_eq!(normalize_server_role(Some("member")), some("member"));
    assert_eq!(normalize_server_role(Some("vip")), None);
    assert_eq!(normalize_server_role(Some("")), None);
    assert_eq!(normalize_server_role(None), None);
}

#[test]
fn roles_that_clients_name() {
    assert_eq!(resolve_member_role_input(None, None), some("member"));
    assert_eq!(resolve_member_role_input(Some("  "), None), some("member"));
    assert_eq!(resolve_member_role_input(Some("Admin"), None), some("admin"));
    assert_eq!(resolve_member_role_input(Some("vip"), some("vip")), some("vip"));
    assert_eq!(resolve_member_role_input(Some("vip"), None), None);
    match member_role_input(Some(" vip ")) {
        RoleInput::Custom(id) => assert_eq!(id, "vip"),
        RoleInput::Known(_) => panic!("no built-in role"),
    }
    match member_role_input(None) {
        RoleInput::Known(name) => assert_eq!(name, "member"),
        RoleInput::Custom(_) => panic!("a built-in role"),
    }
    assert_eq!(stored_member_role("Admin"), "admin");
    assert_eq!(stored_member_role("vip"), "member");
    assert_eq!(stored_member_role(&stored_member_role("OWNER")), "owner");
}

#[test]
fn slugs() {
    assert_eq!(slug_role_id("Super Mod"), "super-mod");
    assert_eq!(slug_role_id("  a -_ b__c  "), "a-b-c");
    assert_eq!(slug_role_id("--x--"), "x");
    assert_eq!(slug_role_id("Модератор 7"), "7");
    assert_eq!(slug_role_id("Модератор"), "role");
    assert_eq!(slug_role_id(""), "role");
    assert_eq!(slug_role_id("a!b?c"), "abc");
    assert_eq!(slug_role_id("a\u{3000}b"), "a-b");
    assert_eq!(slug_role_id("Модератор VIP"), "vip");
    assert_eq!(slug_role_id("\u{212a}ing \u{130}D"), "king-id");
    for name in ["Super Mod", "Модератор VIP", "", "--A_b--", "\u{212a}ing"] {
        let slug = slug_role_id(name);
        assert_eq!(slug_role_id(&slug), slug);
    }
}

#[test]
fn new_roles() {
    let role = make_server_role(&payload("  Super Mod "), "0123456789abcdef", 3).unwrap();
    assert_eq!(role.role_id, "super-mod-012345");
    assert_eq!(role.name, "Super Mod");
    assert_eq!(role.color, "#cbff00");
    assert_eq!(role.position, 3);
    assert_eq!(
        role.flags,
        RoleFlags {
            view: true,
            send: true,
            manage: false,
            manage_channels: false,
            manage_roles: false,
            invite: true,
            attach: true,
            embed: true,
            react: true,
            pin: false,
            mention: false,
            voice: true,
            kick: false,
            ban: false,
        }
    );
    assert!(make_server_role(&payload("  "), "0123456789abcdef", 3).is_none());
}

#[test]
fn new_roles_draw_their_id() {
    let a = create_server_role_record(&payload("VIP"), 0).unwrap();
    let b = create_server_role_record(&payload("VIP"), 0).unwrap();
    assert!(a.role_id.starts_with("vip-"));
    assert_eq!(a.role_id.len(), 10);
    assert!(a.role_id[4..].chars().all(|c| c.is_ascii_hexdigit()));
    assert_ne!(a.role_id, b.role_id);
    assert!(delete_server_role_record(&a.role_id).is_ok());
    assert!(create_server_role_record(&payload(" "), 0).is_none());
}

#[test]
fn roles_change_where_something_is_said() {
    let same = update_server_role_record(&record(), &payload(" "));
    assert_eq!(same.role_id, "vip-1");
    assert_eq!(same.name, "VIP");
    assert_eq!(same.color, "#111");
    assert_eq!(same.position, 4);
    assert!(same.flags.view && !same.flags.send && same.flags.manage && same.flags.invite);
    assert!(same.flags.ban && !same.flags.kick);
    let mut change = payload("  Very ");
    change.color = some("#222");
    change.flags.send = Some(true);
    change.flags.ban = Some(false);
    let next = update_server_role_record(&record(), &change);
    assert_eq!(next.name, "Very");
    assert_eq!(next.color, "#222");
    assert!(next.flags.send && !next.flags.ban && next.flags.manage);
}

#[test]
fn builtin_roles_stay() {
    for role in ["owner", "admin", "member"] {
        assert_eq!(delete_server_role_record(role), Err(Refusal::Internal));
    }
    assert_eq!(delete_server_role_record("vip-1").unwrap(), "member");
}

#[test]
fn first_roles_of_a_server() {
    let roles = default_server_roles();
    assert_eq!(roles.len(), 2);
    assert_eq!(roles[0].role_id, "member");
    assert_eq!(roles[0].name, "Участник");
    assert_eq!(roles[0].color, "#5f6a7a");
    assert_eq!(roles[0].position, 0);
    let f = roles[0].flags;
    assert!(f.view && f.send && f.attach && f.embed && f.react && f.voice);
    assert!(!f.manage && !f.manage_channels && !f.manage_roles && !f.invite && !f.pin);
    assert!(!f.mention && !f.kick && !f.ban);
    assert_eq!(roles[1].role_id, "admin");
    assert_eq!(roles[1].name, "Админ");
    assert_eq!(roles[1].color, "#8c7bff");
    assert_eq!(roles[1].position, 1);
    let f = roles[1].flags;
    assert!(f.view && f.manage && f.invite && f.mention && f.kick && f.ban);
    assert!(needs_default_roles(0));
    assert!(!needs_default_roles(2));
    assert_eq!(server_roles(&vec![record()])[0].role_id, "vip-1");
}

#[test]
fn rights_in_channels() {
    let input = |role: &str, v: Option<bool>, s: Option<bool>, m: Option<bool>| {
        ChannelPermissionInput {
            role: role.to_string(),
            can_view: v,
            can_send: s,
            can_manage: m,
        }
    };
    let (kept, all) = channel_permission_updates(&vec![
        input("Owner", Some(false), None, None),
        input(" Member ", None, Some(false), None),
        input("admin", None, None, Some(true)),
    ]);
    assert!(all);
    assert_eq!(kept.len(), 2);
    assert_eq!(kept[0].role, "member");
    assert_eq!(
        (kept[0].can_view, kept[0].can_send, kept[0].can_manage),
        (true, false, false)
    );
    assert_eq!(kept[1].role, "admin");
    assert_eq!(
        (kept[1].can_view, kept[1].can_send, kept[1].can_manage),
        (true, true, true)
    );
    let (kept, all) = channel_permission_updates(&vec![
        input("member", None, None, None),
        input("vip", None, None, None),
        input("admin", None, None, None),
    ]);
    assert!(!all);
    assert_eq!(kept.len(), 1);
    assert_eq!(new_channel_permission(None, None), None);
    assert_eq!(new_channel_permission(Some(false), None), Some((false, true, false)));
    assert_eq!(new_channel_permission(None, Some(false)), Some((true, false, false)));
    let shown = channel_permissions(&vec![ChannelRow {
        server_id: "s".to_string(),
        channel_id: "c".to_string(),
        role: "vip".to_string(),
        can_view: 3,
        can_send: 0,
        can_manage: 1,
    }]);
    assert_eq!(shown[0].role, "vip");
    assert!(shown[0].can_view && !shown[0].can_send && shown[0].can_manage);
}
