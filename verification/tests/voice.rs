use serde_json::Value;
use zali_server::delivery::{
    leave_if_offline, Connections, Outgoing, Payload, SocketAction, SocketEvent,
};
use zali_server::delivery::{count_sent, socket_step};
use zali_server::json::{JsonObject, JsonValue};
use zali_server::voice::{voice_join_access, voice_room_key, voice_room_payload, VoiceHub, VoiceRoom};

fn value(text: &str) -> Value {
    serde_json::from_str(text).unwrap()
}

fn object(out: &Outgoing) -> &JsonObject {
    match &out.payload {
        Payload::Object(o) => o,
        Payload::Forwarded(_) => panic!("a forwarded event"),
    }
}

fn member<'a>(o: &'a JsonObject, key: &str) -> &'a JsonValue {
    &o.members.iter().find(|m| m.key == key).unwrap().value
}

fn text(o: &JsonObject, key: &str) -> String {
    match member(o, key) {
        JsonValue::Text(s) => s.clone(),
        other => panic!("{:?}", other),
    }
}

fn texts(o: &JsonObject, key: &str) -> Vec<String> {
    match member(o, key) {
        JsonValue::Texts(v) => v.clone(),
        other => panic!("{:?}", other),
    }
}

fn join(hub: &mut VoiceHub, user: &str, room: &str, kind: &str) -> Vec<Outgoing> {
    hub.join_voice_room(user, room, kind, &None, &None)
}

#[test]
fn room_keys() {
    assert_eq!(
        voice_room_key("channel", Some("s"), Some("c"), None),
        "voice:channel:s:c"
    );
    assert_eq!(voice_room_key("channel", None, None, Some("x")), "voice:channel::");
    assert_eq!(voice_room_key("dm", None, None, Some(" a:b ")), "voice:dm:a:b");
    assert_eq!(voice_room_key("dm", None, None, Some("  ")), "voice:dm:pending");
    assert_eq!(voice_room_key("dm", None, None, None), "voice:dm:pending");
    assert_eq!(voice_room_key("stage", None, None, Some("7")), "voice:stage:7");
    assert_eq!(voice_room_key("stage", None, None, None), "voice:stage:pending");
}

#[test]
fn room_payload_lists_participants_sorted() {
    let room = VoiceRoom {
        room_type: "channel".to_string(),
        server_id: Some("s".to_string()),
        channel_id: None,
        participants: vec!["zoe".to_string(), "Ann".to_string(), "bob".to_string()],
    };
    let o = voice_room_payload("r", &room);
    assert_eq!(text(&o, "type"), "voice_room_state");
    assert_eq!(text(&o, "roomId"), "r");
    assert_eq!(text(&o, "roomType"), "channel");
    assert_eq!(text(&o, "serverId"), "s");
    assert!(matches!(member(&o, "channelId"), JsonValue::Null));
    assert_eq!(texts(&o, "participants"), vec!["Ann", "bob", "zoe"]);
}

#[test]
fn new_room_is_empty() {
    let room = VoiceRoom::new("dm".to_string(), None, Some("c".to_string()));
    assert_eq!(room.room_type, "dm");
    assert_eq!(room.server_id, None);
    assert_eq!(room.channel_id.as_deref(), Some("c"));
    assert!(room.participants.is_empty());
}

#[test]
fn joining_tells_everyone_in_the_room() {
    let mut hub = VoiceHub::new();
    let first = join(&mut hub, "bob", "r", "channel");
    assert_eq!(first.len(), 1);
    let told = join(&mut hub, "ann", "r", "channel");
    assert_eq!(told.len(), 2);
    assert_eq!(told[0].to, "ann");
    assert_eq!(told[1].to, "bob");
    assert_eq!(texts(object(&told[0]), "participants"), vec!["ann", "bob"]);
    assert_eq!(hub.room("r").unwrap().participants, vec!["bob", "ann"]);
    assert_eq!(hub.room_of("ann").as_deref(), Some("r"));
}

#[test]
fn joining_twice_lists_a_user_once() {
    let mut hub = VoiceHub::new();
    join(&mut hub, "bob", "r", "channel");
    join(&mut hub, "bob", "r", "channel");
    assert_eq!(hub.room("r").unwrap().participants, vec!["bob"]);
}

#[test]
fn joining_another_room_leaves_the_first() {
    let mut hub = VoiceHub::new();
    join(&mut hub, "ann", "one", "channel");
    join(&mut hub, "bob", "one", "channel");
    let told = join(&mut hub, "bob", "two", "channel");
    assert_eq!(told.len(), 2);
    assert_eq!(told[0].to, "ann");
    assert_eq!(text(object(&told[0]), "roomId"), "one");
    assert_eq!(told[1].to, "bob");
    assert_eq!(text(object(&told[1]), "roomId"), "two");
    assert_eq!(hub.room("one").unwrap().participants, vec!["ann"]);
}

#[test]
fn the_last_to_leave_closes_the_room() {
    let mut hub = VoiceHub::new();
    join(&mut hub, "bob", "r", "channel");
    assert!(hub.leave_voice_room("bob").is_empty());
    assert!(hub.room("r").is_none());
    assert!(hub.room_of("bob").is_none());
    assert!(hub.leave_voice_room("bob").is_empty());
}

#[test]
fn leaving_a_call_ends_it_for_the_other() {
    let mut hub = VoiceHub::new();
    let accept = value(r#"{"type":"voice_call_accept","inviter":"ann","roomId":"r"}"#);
    hub.handle_voice_event("bob", &accept, true);
    let told = hub.leave_voice_room("bob");
    assert_eq!(told.len(), 1);
    assert_eq!(told[0].to, "ann");
    assert_eq!(text(object(&told[0]), "type"), "voice_call_ended");
    assert_eq!(text(object(&told[0]), "roomId"), "r");
    assert_eq!(text(object(&told[0]), "from"), "bob");
    assert!(hub.room("r").is_none());
    assert_eq!(hub.room_of("ann").as_deref(), Some("r"));
}

#[test]
fn accepting_a_call_connects_the_two() {
    let mut hub = VoiceHub::new();
    join(&mut hub, "eve", "r", "channel");
    let accept = value(r#"{"type":"voice_call_accept","inviter":" ann ","roomId":" r "}"#);
    let told = hub.handle_voice_event("bob", &accept, true);
    let kinds: Vec<(String, String)> = told
        .iter()
        .map(|o| (o.to.clone(), text(object(o), "type")))
        .collect();
    assert_eq!(
        kinds,
        vec![
            ("ann".to_string(), "voice_call_accepted".to_string()),
            ("bob".to_string(), "voice_call_accepted".to_string()),
            ("ann".to_string(), "voice_call_connected".to_string()),
            ("bob".to_string(), "voice_call_connected".to_string()),
        ]
    );
    assert_eq!(texts(object(&told[0]), "participants"), vec!["bob", "ann"]);
    let room = hub.room("r").unwrap();
    assert_eq!(room.room_type, "dm");
    assert_eq!(room.participants, vec!["bob", "ann"]);
    assert_eq!(hub.room_of("ann").as_deref(), Some("r"));
    assert_eq!(hub.room_of("bob").as_deref(), Some("r"));
}

#[test]
fn accepting_needs_a_room_and_an_inviter() {
    let mut hub = VoiceHub::new();
    let none = value(r#"{"type":"voice_call_accept","inviter":"ann","roomId":"  "}"#);
    assert!(hub.handle_voice_event("bob", &none, true).is_empty());
    let none = value(r#"{"type":"voice_call_accept","roomId":"r"}"#);
    assert!(hub.handle_voice_event("bob", &none, true).is_empty());
    assert!(hub.room("r").is_none());
}

#[test]
fn an_invite_names_the_room_by_the_two() {
    let mut hub = VoiceHub::new();
    let invite = value(r#"{"type":"voice_call_invite","target":" bob "}"#);
    let told = hub.handle_voice_event("zed", &invite, true);
    assert_eq!(told.len(), 2);
    assert_eq!(told[0].to, "bob");
    assert_eq!(text(object(&told[0]), "type"), "voice_call_invite");
    assert_eq!(text(object(&told[0]), "roomId"), "voice:dm:bob:zed");
    assert_eq!(text(object(&told[0]), "roomType"), "dm");
    assert_eq!(text(object(&told[0]), "from"), "zed");
    assert_eq!(text(object(&told[0]), "target"), "bob");
    assert_eq!(told[1].to, "zed");
    assert_eq!(text(object(&told[1]), "type"), "voice_call_outgoing");
    let back = value(r#"{"type":"voice_call_invite","target":"zed"}"#);
    let told = hub.handle_voice_event("bob", &back, true);
    assert_eq!(text(object(&told[0]), "roomId"), "voice:dm:bob:zed");
    let named = value(r#"{"type":"voice_call_invite","target":"zed","roomId":"x"}"#);
    let told = hub.handle_voice_event("bob", &named, true);
    assert_eq!(text(object(&told[0]), "roomId"), "x");
    let none = value(r#"{"type":"voice_call_invite","target":" "}"#);
    assert!(hub.handle_voice_event("bob", &none, true).is_empty());
}

#[test]
fn rejecting_and_cancelling_tell_the_other() {
    let mut hub = VoiceHub::new();
    let reject = value(r#"{"type":"voice_call_reject","inviter":"ann","roomId":"r"}"#);
    let told = hub.handle_voice_event("bob", &reject, true);
    assert_eq!(told.len(), 1);
    assert_eq!(told[0].to, "ann");
    assert_eq!(text(object(&told[0]), "type"), "voice_call_rejected");
    let cancel = value(r#"{"type":"voice_call_cancel","target":"ann","roomId":"r"}"#);
    let told = hub.handle_voice_event("bob", &cancel, true);
    assert_eq!(told.len(), 1);
    assert_eq!(told[0].to, "ann");
    assert_eq!(text(object(&told[0]), "type"), "voice_call_cancelled");
    assert_eq!(text(object(&told[0]), "target"), "ann");
}

#[test]
fn access_is_asked_for_channels_only() {
    let join = value(
        r#"{"type":"voice_join","roomId":"r","roomType":"channel","serverId":" s ","channelId":"c"}"#,
    );
    assert_eq!(
        voice_join_access(&join),
        Some(("s".to_string(), "c".to_string()))
    );
    let default_type = value(r#"{"type":"voice_join","roomId":"r","serverId":"s","channelId":"c"}"#);
    assert!(voice_join_access(&default_type).is_some());
    let dm = value(
        r#"{"type":"voice_join","roomId":"r","roomType":"dm","serverId":"s","channelId":"c"}"#,
    );
    assert!(voice_join_access(&dm).is_none());
    let no_channel = value(r#"{"type":"voice_join","roomId":"r","serverId":"s"}"#);
    assert!(voice_join_access(&no_channel).is_none());
    let leave = value(r#"{"type":"voice_leave","roomId":"r","serverId":"s","channelId":"c"}"#);
    assert!(voice_join_access(&leave).is_none());
    assert!(voice_join_access(&value("17")).is_none());
}

#[test]
fn a_closed_channel_is_refused() {
    let mut hub = VoiceHub::new();
    let event = value(r#"{"type":"voice_join","roomId":"r","serverId":"s","channelId":"c"}"#);
    let told = hub.handle_voice_event("bob", &event, false);
    assert_eq!(told.len(), 1);
    assert_eq!(told[0].to, "bob");
    assert_eq!(text(object(&told[0]), "type"), "voice_error");
    assert_eq!(
        text(object(&told[0]), "message"),
        "Нет доступа к голосовому каналу"
    );
    assert!(hub.room("r").is_none());
    let told = hub.handle_voice_event("bob", &event, true);
    assert_eq!(told.len(), 1);
    let room = hub.room("r").unwrap();
    assert_eq!(room.room_type, "channel");
    assert_eq!(room.server_id.as_deref(), Some("s"));
    assert_eq!(room.channel_id.as_deref(), Some("c"));
}

#[test]
fn signals_go_to_the_target_or_to_the_room() {
    let mut hub = VoiceHub::new();
    for user in ["ann", "bob", "eve"] {
        join(&mut hub, user, "r", "channel");
    }
    let direct = value(
        r#"{"type":"voice_signal","roomId":"r","to":" eve ","from":"mallory","signal":{"type":"offer"}}"#,
    );
    let told = hub.handle_voice_event("bob", &direct, true);
    assert_eq!(told.len(), 1);
    assert_eq!(told[0].to, "eve");
    match &told[0].payload {
        Payload::Forwarded(v) => {
            assert_eq!(v["from"].as_str(), Some("bob"));
            assert_eq!(v["signal"]["type"].as_str(), Some("offer"));
            assert_eq!(v["to"].as_str(), Some(" eve "));
        }
        Payload::Object(_) => panic!("not forwarded"),
    }
    let wide = value(r#"{"type":"voice_signal","roomId":"r","from":17}"#);
    let told = hub.handle_voice_event("bob", &wide, true);
    let to: Vec<&str> = told.iter().map(|o| o.to.as_str()).collect();
    assert_eq!(to, vec!["ann", "eve"]);
    match &told[0].payload {
        Payload::Forwarded(v) => assert_eq!(v["from"].as_str(), Some("bob")),
        Payload::Object(_) => panic!("not forwarded"),
    }
    let nowhere = value(r#"{"type":"voice_signal","to":"eve"}"#);
    assert!(hub.handle_voice_event("bob", &nowhere, true).is_empty());
    let empty = value(r#"{"type":"voice_signal","roomId":"none"}"#);
    assert!(hub.handle_voice_event("bob", &empty, true).is_empty());
}

#[test]
fn leaving_events_and_unknown_events() {
    let mut hub = VoiceHub::new();
    for kind in ["voice_leave", "voice_call_end"] {
        join(&mut hub, "bob", "r", "channel");
        let event = value(&format!(r#"{{"type":"{}"}}"#, kind));
        hub.handle_voice_event("bob", &event, true);
        assert!(hub.room("r").is_none());
    }
    join(&mut hub, "bob", "r", "channel");
    assert!(hub
        .handle_voice_event("bob", &value(r#"{"type":"voice_dance"}"#), true)
        .is_empty());
    assert!(hub.handle_voice_event("bob", &value("[]"), true).is_empty());
    assert!(hub.room("r").is_some());
    let blank = value(r#"{"type":"voice_join","roomId":" "}"#);
    assert!(hub.handle_voice_event("bob", &blank, true).is_empty());
}

#[test]
fn connections_come_and_go() {
    let mut conns = Connections::new();
    assert!(!conns.is_connected("bob"));
    conns.connect("bob", 1);
    conns.connect("bob", 2);
    conns.connect("ann", 3);
    assert!(conns.is_connected("bob"));
    let mut users = conns.users();
    users.sort();
    assert_eq!(users, vec!["ann", "bob"]);
    assert_eq!(conns.receivers("bob", &vec![]), vec![1, 2]);
    assert_eq!(conns.receivers("bob", &vec![1]), vec![2]);
    assert_eq!(conns.receivers("bob", &vec![]), vec![2]);
    assert_eq!(conns.receivers("eve", &vec![]), Vec::<u64>::new());
    conns.connect("bob", 4);
    assert!(conns.disconnect("bob", 2, &vec![]));
    assert!(!conns.disconnect("bob", 4, &vec![]));
    assert_eq!(conns.users(), vec!["ann"]);
    assert!(!conns.disconnect("ann", 9, &vec![3]));
    assert!(conns.users().is_empty());
}

#[test]
fn sends_are_counted() {
    assert_eq!(count_sent(&vec![]), (0, false));
    assert_eq!(count_sent(&vec![true, true]), (2, false));
    assert_eq!(count_sent(&vec![true, false, true]), (2, true));
}

#[test]
fn a_user_without_connection_leaves_the_room() {
    let mut hub = VoiceHub::new();
    let mut conns = Connections::new();
    join(&mut hub, "bob", "r", "channel");
    conns.connect("bob", 1);
    assert!(leave_if_offline(&mut hub, &conns, "bob").is_empty());
    assert!(hub.room("r").is_some());
    conns.disconnect("bob", 1, &vec![]);
    leave_if_offline(&mut hub, &conns, "bob");
    assert!(hub.room("r").is_none());
}

#[test]
fn socket_steps() {
    assert!(matches!(socket_step(SocketEvent::Sent(true)), SocketAction::Wait));
    assert!(matches!(socket_step(SocketEvent::Sent(false)), SocketAction::Stop));
    assert!(matches!(socket_step(SocketEvent::Binary), SocketAction::Wait));
    assert!(matches!(socket_step(SocketEvent::Ping), SocketAction::AnswerPing));
    assert!(matches!(socket_step(SocketEvent::Pong), SocketAction::Wait));
    assert!(matches!(socket_step(SocketEvent::Closed), SocketAction::Stop));
    assert!(matches!(socket_step(SocketEvent::Failed), SocketAction::Stop));
    let event = |s: &str| socket_step(SocketEvent::Text(s.to_string()));
    assert!(matches!(event("not json"), SocketAction::Wait));
    assert!(matches!(event(r#"{"type":"ping"}"#), SocketAction::Wait));
    assert!(matches!(event(r#"{"type":7}"#), SocketAction::Wait));
    match event(r#"{"type":"voice_join","roomId":"r"}"#) {
        SocketAction::Voice(v) => assert_eq!(v["roomId"].as_str(), Some("r")),
        other => panic!("{:?}", other),
    }
}

#[test]
fn leave_restores_what_was_before_join() {
    let mut hub = VoiceHub::new();
    join(&mut hub, "ann", "one", "channel");
    join(&mut hub, "bob", "two", "dm");
    hub.leave_voice_room("bob");
    assert!(hub.room("two").is_none());
    assert!(hub.room_of("bob").is_none());
    assert_eq!(hub.room("one").unwrap().participants, vec!["ann"]);
}
