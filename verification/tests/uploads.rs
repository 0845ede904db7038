use zali_server::json::{JsonObject, JsonValue};
use zali_server::records::Timestamp;
use zali_server::refusal::{Lookup, Refusal};
use zali_server::uploads::{
    avatar_answer, avatar_event, avatar_mime, broadcast_avatar_event, check_avatar,
    content_disposition, field_kind, find_message_by_client_scope, finish_avatar, has_signature,
    plan_file_access,
    plan_message_access, prepare_draft, Draft, FieldKind, Stage, Upload, UploadEvent,
    UploadFields,
};

fn archive() -> Vec<u8> {
    b"ZALIMSSG and more".to_vec()
}

fn form() -> UploadFields {
    let mut f = UploadFields::new();
    f.put_text(FieldKind::Sender, "mallory".to_string());
    f.put_text(FieldKind::Receiver, " bob ".to_string());
    f.put_text(FieldKind::ClientId, " k1 ".to_string());
    f.put_file(archive());
    f
}

fn draft(server: bool, client_id: &str, file: Vec<u8>) -> Draft {
    Draft {
        client_id: client_id.to_string(),
        sender: "ann".to_string(),
        receiver: "bob".to_string(),
        server_id: if server { Some("s".to_string()) } else { None },
        channel_id: if server { Some("c".to_string()) } else { None },
        file,
    }
}

fn upload(server: bool, client_id: &str) -> Upload {
    Upload::start(draft(server, client_id, archive()), "id1".to_string())
}

fn text(o: &JsonObject, key: &str) -> Option<String> {
    match &o.members.iter().find(|m| m.key == key).unwrap().value {
        JsonValue::Text(s) => Some(s.clone()),
        JsonValue::Null => None,
        other => panic!("{:?}", other),
    }
}

#[test]
fn fields_of_a_form() {
    assert_eq!(field_kind("sender"), FieldKind::Sender);
    assert_eq!(field_kind("receiver"), FieldKind::Receiver);
    assert_eq!(field_kind("server_id"), FieldKind::ServerId);
    assert_eq!(field_kind("channel_id"), FieldKind::ChannelId);
    assert_eq!(field_kind("client_id"), FieldKind::ClientId);
    assert_eq!(field_kind("clientId"), FieldKind::ClientId);
    assert_eq!(field_kind("file"), FieldKind::File);
    assert_eq!(field_kind("File"), FieldKind::Other);
    let mut f = form();
    f.put_text(FieldKind::Sender, "again".to_string());
    f.put_text(FieldKind::Other, "x".to_string());
    assert_eq!(f.sender, "again");
}

#[test]
fn drafts() {
    let d = prepare_draft(form(), "ann", None, None).unwrap();
    assert_eq!(d.sender, "ann");
    assert_eq!(d.receiver, " bob ");
    assert_eq!(d.client_id, "k1");
    assert_eq!(d.server_id, None);
    assert_eq!(d.channel_id, None);
    let d = prepare_draft(form(), "ann", Some(" s ".to_string()), Some("c".to_string())).unwrap();
    assert_eq!(d.server_id.as_deref(), Some("s"));
    assert_eq!(d.channel_id.as_deref(), Some("c"));
    let mut f = form();
    f.put_text(FieldKind::ServerId, "s".to_string());
    assert_eq!(prepare_draft(f, "ann", None, None).unwrap_err(), Refusal::ServerIdsMissing);
    let mut f = form();
    f.put_text(FieldKind::Sender, String::new());
    assert_eq!(prepare_draft(f, "ann", None, None).unwrap_err(), Refusal::UploadFieldsMissing);
    let mut f = form();
    f.put_file(Vec::new());
    assert_eq!(prepare_draft(f, "ann", None, None).unwrap_err(), Refusal::UploadFieldsMissing);
    let mut f = form();
    f.put_text(FieldKind::ServerId, "own".to_string());
    f.put_text(FieldKind::ChannelId, "own".to_string());
    let d = prepare_draft(f, "ann", Some("s".to_string()), None).unwrap();
    assert_eq!(d.server_id.as_deref(), Some("s"));
    assert_eq!(d.channel_id.as_deref(), Some("own"));
}

#[test]
fn signatures() {
    assert!(has_signature(&archive()));
    assert!(has_signature(&b"ZALIMSSG".to_vec()));
    assert!(!has_signature(&b"ZALIMSS".to_vec()));
    assert!(!has_signature(&b"ZALIMSSH".to_vec()));
    assert!(!has_signature(&b"zalimssg".to_vec()));
}

#[test]
fn a_direct_message_is_stored() {
    let mut u = upload(false, "");
    assert_eq!(u.stage, Stage::WriteTemp);
    assert!(u.answer().is_none());
    u.advance(UploadEvent::Wrote(true));
    assert_eq!(u.stage, Stage::MoveTemp);
    u.advance(UploadEvent::Moved(true));
    assert_eq!(u.stage, Stage::Insert);
    u.advance(UploadEvent::Inserted(true));
    assert_eq!(u.stage, Stage::Deliver);
    u.advance(UploadEvent::Delivered);
    assert_eq!(u.stage, Stage::Created);
    let o = u.answer().unwrap().unwrap();
    assert_eq!(text(&o, "id").as_deref(), Some("id1"));
    assert_eq!(text(&o, "clientId"), None);
    u.advance(UploadEvent::Inserted(false));
    assert_eq!(u.stage, Stage::Created);
    let m = u.message(Timestamp { secs: 9, nanos: 1 });
    assert_eq!(m.id, "id1");
    assert_eq!(m.filename, "id1.zali");
    assert_eq!(m.client_id, None);
    assert_eq!(m.sender, "ann");
    assert_eq!(m.timestamp.secs, 9);
    assert_eq!(u.temp_filename(), "id1.zali.tmp");
}

#[test]
fn a_server_message_is_checked_first() {
    let mut u = upload(true, "");
    assert_eq!(u.stage, Stage::AskServer);
    u.advance(UploadEvent::Wrote(true));
    assert_eq!(u.stage, Stage::AskServer);
    u.advance(UploadEvent::Server(Lookup::Found(true)));
    assert_eq!(u.stage, Stage::AskChannel);
    u.advance(UploadEvent::Channel(Lookup::Found(())));
    assert_eq!(u.stage, Stage::WriteTemp);
    let refused = |event: UploadEvent| {
        let mut u = upload(true, "");
        u.advance(event);
        u.answer().unwrap().unwrap_err()
    };
    assert_eq!(refused(UploadEvent::Server(Lookup::Missing)), Refusal::ServerNotFound);
    assert_eq!(refused(UploadEvent::Server(Lookup::Failed)), Refusal::Internal);
    assert_eq!(refused(UploadEvent::Server(Lookup::Found(false))), Refusal::Forbidden);
    let refused = |event: UploadEvent| {
        let mut u = upload(true, "");
        u.advance(UploadEvent::Server(Lookup::Found(true)));
        u.advance(event);
        u.answer().unwrap().unwrap_err()
    };
    assert_eq!(refused(UploadEvent::Channel(Lookup::Missing)), Refusal::ChannelNotFound);
    assert_eq!(refused(UploadEvent::Channel(Lookup::Failed)), Refusal::Internal);
}

#[test]
fn a_file_that_is_no_archive_is_refused() {
    let u = Upload::start(draft(false, "", b"whatever".to_vec()), "x".to_string());
    assert_eq!(u.answer().unwrap().unwrap_err(), Refusal::BadSignature);
    let mut u = Upload::start(draft(true, "", b"whatever".to_vec()), "x".to_string());
    assert_eq!(u.stage, Stage::AskServer);
    u.advance(UploadEvent::Server(Lookup::Found(true)));
    u.advance(UploadEvent::Channel(Lookup::Found(())));
    assert_eq!(u.stage, Stage::Refused(Refusal::BadSignature));
}

#[test]
fn a_message_that_was_sent_before_is_known() {
    let mut u = upload(false, "k1");
    assert_eq!(u.stage, Stage::AskExisting);
    u.advance(UploadEvent::Existing(Lookup::Found("old".to_string())));
    assert_eq!(u.stage, Stage::Known);
    let o = u.answer().unwrap().unwrap();
    assert_eq!(text(&o, "id").as_deref(), Some("old"));
    assert_eq!(text(&o, "clientId").as_deref(), Some("k1"));
    let mut u = upload(false, "k1");
    u.advance(UploadEvent::Existing(Lookup::Failed));
    assert_eq!(u.stage, Stage::Refused(Refusal::Internal));
    let mut u = upload(false, "k1");
    u.advance(UploadEvent::Existing(Lookup::Missing));
    assert_eq!(u.stage, Stage::WriteTemp);
}

#[test]
fn a_message_that_is_sent_again_is_answered_as_before() {
    let stamp = Timestamp { secs: 1, nanos: 0 };
    let first = prepare_draft(form(), "ann", None, None).unwrap();
    let first = Upload::start(first, "one".to_string());
    let rows = vec![upload(true, "k1").message(stamp), first.message(stamp)];
    let again = prepare_draft(form(), "ann", None, None).unwrap();
    let found = find_message_by_client_scope(&rows, &again);
    assert_eq!(found.as_deref(), Some("one"));
    let mut u = Upload::start(again, "two".to_string());
    assert_eq!(u.stage, Stage::AskExisting);
    u.advance(UploadEvent::Existing(Lookup::Found(found.unwrap())));
    let o = u.answer().unwrap().unwrap();
    assert_eq!(text(&o, "id").as_deref(), Some("one"));
    assert_eq!(text(&o, "clientId").as_deref(), Some("k1"));
    u.advance(UploadEvent::Wrote(true));
    assert_eq!(u.stage, Stage::Known);
}

#[test]
fn scopes_of_messages() {
    let rows = vec![upload(true, "k1").message(Timestamp { secs: 1, nanos: 0 })];
    let find = |d: &Draft| find_message_by_client_scope(&rows, d);
    assert_eq!(find(&draft(true, "k1", archive())).as_deref(), Some("id1"));
    assert_eq!(find(&draft(true, "k2", archive())), None);
    assert_eq!(find(&draft(false, "k1", archive())), None);
    assert_eq!(find(&draft(true, " ", archive())), None);
    let change: [fn(&mut Draft); 4] = [
        |d| d.sender = "x".to_string(),
        |d| d.receiver = "x".to_string(),
        |d| d.server_id = Some("x".to_string()),
        |d| d.channel_id = Some("x".to_string()),
    ];
    for f in change {
        let mut d = draft(true, "k1", archive());
        f(&mut d);
        assert_eq!(find(&d), None);
    }
    let rows = vec![upload(false, "k1").message(Timestamp { secs: 1, nanos: 0 })];
    let mut d = draft(false, "k1", archive());
    d.server_id = Some(String::new());
    assert_eq!(find_message_by_client_scope(&rows, &d).as_deref(), Some("id1"));
    assert_eq!(find_message_by_client_scope(&Vec::new(), &d), None);
}

#[test]
fn failures_clean_up() {
    let mut u = upload(false, "");
    u.advance(UploadEvent::Wrote(false));
    assert_eq!(u.stage, Stage::Refused(Refusal::Internal));
    let mut u = upload(false, "");
    u.advance(UploadEvent::Wrote(true));
    u.advance(UploadEvent::Moved(false));
    assert_eq!(u.stage, Stage::RemoveTemp);
    u.advance(UploadEvent::Removed);
    assert_eq!(u.stage, Stage::Refused(Refusal::Internal));
    let broken = |client: &str| {
        let mut u = upload(false, client);
        u.advance(UploadEvent::Existing(Lookup::Missing));
        u.advance(UploadEvent::Wrote(true));
        u.advance(UploadEvent::Moved(true));
        u.advance(UploadEvent::Inserted(false));
        assert_eq!(u.stage, Stage::RemoveFile);
        u.advance(UploadEvent::Removed);
        u
    };
    assert_eq!(broken("").stage, Stage::Refused(Refusal::Internal));
    let mut u = broken("k1");
    assert_eq!(u.stage, Stage::AskAgain);
    u.advance(UploadEvent::Existing(Lookup::Found("won".to_string())));
    assert_eq!(text(&u.answer().unwrap().unwrap(), "id").as_deref(), Some("won"));
    let mut u = broken("k1");
    u.advance(UploadEvent::Existing(Lookup::Failed));
    assert_eq!(u.stage, Stage::Refused(Refusal::Internal));
}

#[test]
fn uploads_draw_their_id() {
    let a = Upload::begin(draft(false, "", archive()));
    let b = Upload::begin(draft(false, "", archive()));
    assert_eq!(a.id.len(), 36);
    assert_ne!(a.id, b.id);
    assert_eq!(a.filename(), format!("{}.zali", a.id));
    assert!(content_disposition(&a.filename()).contains(&a.id));
}

#[test]
fn files_are_offered_under_their_name() {
    assert_eq!(content_disposition("a.zali"), "attachment; filename=\"a.zali\"");
    assert_eq!(content_disposition("я.zali"), "attachment; filename=\"я.zali\"");
    assert_eq!(content_disposition("a\nb"), "attachment");
    assert_eq!(content_disposition("a\u{7f}b"), "attachment");
    assert_eq!(content_disposition("a\tb"), "attachment; filename=\"a\tb\"");
}

#[test]
fn access_to_files() {
    assert_eq!(plan_message_access(true, true), Ok(()));
    assert_eq!(plan_message_access(false, true), Err(Refusal::NotFound));
    assert_eq!(plan_message_access(true, false), Err(Refusal::Forbidden));
    assert_eq!(plan_file_access(Lookup::Found(true)), Ok(()));
    assert_eq!(plan_file_access(Lookup::Found(false)), Err(Refusal::Forbidden));
    assert_eq!(plan_file_access(Lookup::Missing), Err(Refusal::NotFound));
    assert_eq!(plan_file_access(Lookup::Failed), Err(Refusal::Internal));
}

#[test]
fn avatars() {
    assert_eq!(avatar_mime(None), "image/png");
    assert_eq!(avatar_mime(Some("image/gif".to_string())), "image/gif");
    assert_eq!(check_avatar(&vec![1], "image/png"), Ok(()));
    assert_eq!(check_avatar(&vec![], "image/png"), Err(Refusal::AvatarMissing));
    assert_eq!(check_avatar(&vec![1], "text/html"), Err(Refusal::AvatarNotImage));
    assert_eq!(check_avatar(&vec![0; 2_097_152], "image/png"), Ok(()));
    assert_eq!(check_avatar(&vec![0; 2_097_153], "image/png"), Err(Refusal::AvatarTooLarge));
    assert_eq!(finish_avatar(true, true), (Ok(()), false));
    assert_eq!(finish_avatar(false, false), (Err(Refusal::Internal), false));
    assert_eq!(finish_avatar(true, false), (Err(Refusal::Internal), true));
}

#[test]
fn what_is_told_of_avatars() {
    let o = avatar_event("ann", true, &None);
    assert_eq!(text(&o, "type").as_deref(), Some("avatar_deleted"));
    assert_eq!(text(&o, "username").as_deref(), Some("ann"));
    assert!(matches!(
        o.members.iter().find(|m| m.key == "deleted").unwrap().value,
        JsonValue::Bool(true)
    ));
    assert_eq!(text(&o, "updated_at"), None);
    let o = broadcast_avatar_event("ann", false, Some(Timestamp { secs: 0, nanos: 0 }));
    assert_eq!(text(&o, "type").as_deref(), Some("avatar_updated"));
    assert_eq!(text(&o, "updated_at").as_deref(), Some("1970-01-01T00:00:00+00:00"));
    let o = avatar_answer("ann", Timestamp { secs: 1, nanos: 500_000_000 }, "image/png");
    assert_eq!(text(&o, "updatedAt").as_deref(), Some("1970-01-01T00:00:01.500+00:00"));
    assert_eq!(text(&o, "mimeType").as_deref(), Some("image/png"));
    assert_eq!(text(&o, "username").as_deref(), Some("ann"));
}
