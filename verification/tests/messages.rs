use zali_server::delivery::Payload;
use zali_server::json::{JsonObject, JsonValue, ReactionSummary};
use zali_server::messages::{
    audience, direct_recipients, load_reactions, message_list, my_reaction, plan_channel_messages,
    plan_reaction, reaction_audience, reaction_events, reaction_payload, reaction_viewers,
    requested_page, Audience, Page, ReactionRow,
};
use zali_server::records::{Message, Timestamp};
use zali_server::refusal::{Lookup, Refusal};

fn row(message: &str, emoji: &str, reactor: &str) -> ReactionRow {
    ReactionRow {
        message_id: message.to_string(),
        emoji: emoji.to_string(),
        reactor: reactor.to_string(),
    }
}

fn message(id: &str, sender: &str, receiver: &str) -> Message {
    Message {
        id: id.to_string(),
        client_id: Some("k".to_string()),
        sender: sender.to_string(),
        receiver: receiver.to_string(),
        filename: format!("{}.zali", id),
        timestamp: Timestamp { secs: 5, nanos: 6 },
        server_id: None,
        channel_id: None,
    }
}

fn pairs(v: &Vec<ReactionSummary>) -> Vec<(String, i64)> {
    v.iter().map(|s| (s.emoji.clone(), s.count)).collect()
}

fn member<'a>(o: &'a JsonObject, key: &str) -> &'a JsonValue {
    &o.members.iter().find(|m| m.key == key).unwrap().value
}

#[test]
fn pages() {
    assert_eq!(requested_page(None, Some(5)), Page::All);
    assert_eq!(requested_page(Some(0), Some(5)), Page::All);
    assert_eq!(requested_page(Some(-3), None), Page::All);
    assert_eq!(requested_page(Some(20), None), Page::Part { limit: 20, offset: 0 });
    assert_eq!(requested_page(Some(20), Some(-4)), Page::Part { limit: 20, offset: 0 });
    assert_eq!(requested_page(Some(501), Some(40)), Page::Part { limit: 500, offset: 40 });
}

#[test]
fn reactions_are_counted_and_ordered() {
    let rows = vec![
        row("m", "🔥", "ann"),
        row("m", "👍", "bob"),
        row("n", "🔥", "bob"),
        row("m", "🔥", "eve"),
        row("m", "❤", "joe"),
    ];
    assert_eq!(
        pairs(&load_reactions(&rows, "m")),
        vec![("🔥".to_string(), 2), ("❤".to_string(), 1), ("👍".to_string(), 1)]
    );
    assert_eq!(pairs(&load_reactions(&rows, "n")), vec![("🔥".to_string(), 1)]);
    assert!(load_reactions(&rows, "x").is_empty());
    let total: i64 = load_reactions(&rows, "m").iter().map(|s| s.count).sum();
    assert_eq!(total, 4);
    assert_eq!(my_reaction(&rows, "m", "bob").as_deref(), Some("👍"));
    assert_eq!(my_reaction(&rows, "n", "ann"), None);
}

#[test]
fn reactions_that_clients_give() {
    assert_eq!(plan_reaction(true, true, " 👍 ").unwrap().as_deref(), Some("👍"));
    assert_eq!(plan_reaction(true, true, "  ").unwrap(), None);
    assert_eq!(plan_reaction(true, true, "12345678").unwrap().as_deref(), Some("12345678"));
    assert_eq!(
        plan_reaction(true, true, "123456789").unwrap_err(),
        Refusal::ReactionTooLong
    );
    assert!(plan_reaction(true, true, "яяяяяяяя").is_ok());
    assert_eq!(plan_reaction(false, true, "x").unwrap_err(), Refusal::NotFound);
    assert_eq!(plan_reaction(true, false, "123456789").unwrap_err(), Refusal::Forbidden);
}

#[test]
fn what_is_told_of_reactions() {
    let rows = vec![row("m", "👍", "bob")];
    let m = message("m", "ann", "bob");
    let o = reaction_payload(&m, &rows, "bob");
    assert!(matches!(member(&o, "type"), JsonValue::Text(s) if s == "reaction_updated"));
    assert!(matches!(member(&o, "messageId"), JsonValue::Text(s) if s == "m"));
    assert!(matches!(member(&o, "sender"), JsonValue::Text(s) if s == "ann"));
    assert!(matches!(member(&o, "receiver"), JsonValue::Text(s) if s == "bob"));
    assert!(matches!(member(&o, "serverId"), JsonValue::Null));
    assert!(matches!(member(&o, "channelId"), JsonValue::Null));
    match member(&o, "reactions") {
        JsonValue::Reactions(v) => assert_eq!(pairs(v), vec![("👍".to_string(), 1)]),
        other => panic!("{:?}", other),
    }
    assert!(matches!(member(&o, "myReaction"), JsonValue::Text(s) if s == "👍"));
    let viewers = reaction_viewers(&m);
    assert_eq!(viewers, vec!["ann", "bob"]);
    let events = reaction_events(&m, &rows, &viewers);
    assert_eq!(events.len(), 2);
    assert_eq!(events[0].to, "ann");
    match &events[0].payload {
        Payload::Object(o) => assert!(matches!(member(o, "myReaction"), JsonValue::Null)),
        Payload::Forwarded(_) => panic!("forwarded"),
    }
    assert_eq!(reaction_viewers(&message("m", "ann", "ann")), vec!["ann"]);
}

#[test]
fn lists_leave_out_messages_without_file() {
    let messages = vec![message("a", "ann", "bob"), message("b", "ann", "bob"), message("c", "bob", "ann")];
    let rows = vec![row("c", "👍", "ann")];
    let list = message_list(&messages, &vec![true, false, true], &rows, "ann");
    assert_eq!(list.len(), 2);
    assert_eq!(list[0].id, "a");
    assert!(list[0].reactions.is_empty());
    assert_eq!(list[0].my_reaction, None);
    assert_eq!(list[1].id, "c");
    assert_eq!(list[1].client_id.as_deref(), Some("k"));
    assert_eq!(list[1].filename, "c.zali");
    assert_eq!(list[1].timestamp, Timestamp { secs: 5, nanos: 6 });
    assert_eq!(pairs(&list[1].reactions), vec![("👍".to_string(), 1)]);
    assert_eq!(list[1].my_reaction.as_deref(), Some("👍"));
}

#[test]
fn channel_messages_need_access() {
    assert_eq!(plan_channel_messages(Lookup::Found(true), true), Ok(()));
    assert_eq!(plan_channel_messages(Lookup::Found(true), false), Err(Refusal::Forbidden));
    assert_eq!(plan_channel_messages(Lookup::Found(false), true), Err(Refusal::Forbidden));
    assert_eq!(plan_channel_messages(Lookup::Missing, true), Err(Refusal::Forbidden));
    assert_eq!(plan_channel_messages(Lookup::Failed, true), Err(Refusal::Internal));
}

#[test]
fn direct_messages_go_to_both_ends() {
    assert_eq!(direct_recipients(&message("m", "ann", "bob")), vec!["bob", "ann"]);
    assert_eq!(direct_recipients(&message("m", "ann", "ann")), vec!["ann"]);
}

fn users(a: Audience) -> Vec<String> {
    match a {
        Audience::Users(users) => users,
        other => panic!("{:?}", other),
    }
}

fn channel(a: Audience) -> (String, String) {
    match a {
        Audience::Channel { server_id, channel_id } => (server_id, channel_id),
        other => panic!("{:?}", other),
    }
}

#[test]
fn who_is_told() {
    let mut m = message("m", "ann", "bob");
    assert_eq!(users(audience(&m)), vec!["bob", "ann"]);
    assert_eq!(users(reaction_audience(&m)), vec!["ann", "bob"]);
    m.server_id = Some("s".to_string());
    assert!(users(audience(&m)).is_empty());
    assert_eq!(users(reaction_audience(&m)), vec!["ann", "bob"]);
    m.channel_id = Some("c".to_string());
    let place = ("s".to_string(), "c".to_string());
    assert_eq!(channel(audience(&m)), place);
    assert_eq!(channel(reaction_audience(&m)), place);
    m.server_id = None;
    assert_eq!(users(audience(&m)), vec!["bob", "ann"]);
}
