use slack_system_bot::db::Db;
use slack_system_bot::events::{
    handle_message, process_push_event, rewrite_content, strip_trigger, Block, FileInfo,
    MessageContent, MessageEvent, PushEvent, PushOutcome, Segment,
};
use slack_system_bot::member::MemberView;
use slack_system_bot::message::MessageLog;
use slack_system_bot::system::{SlackOauthToken, System};
use slack_system_bot::trigger::{Trigger, Type};
use slack_system_bot::trust::Trusted;
use slack_system_bot::user;

fn owner(name: &str) -> user::Id<Trusted> {
    user::Id::from_authenticated(name.to_string())
}

fn profile(display: &str) -> MemberView {
    MemberView {
        full_name: display.to_string(),
        display_name: display.to_string(),
        profile_picture_url: Some(format!("https://example.test/{display}.png")),
        title: None,
        pronouns: None,
        name_pronunciation: None,
        name_recording_url: None,
    }
}

fn text_event(sender: &str, channel: &str, ts: &str, text: &str) -> MessageEvent {
    MessageEvent {
        sender: Some(sender.to_string()),
        channel: Some(channel.to_string()),
        ts: ts.to_string(),
        content: Some(MessageContent {
            text: Some(text.to_string()),
            blocks: None,
            files: None,
        }),
    }
}

#[test]
fn no_trigger_no_fronting_no_run() {
    let mut db = Db::new();
    let sid = System::upsert(owner("U1"), SlackOauthToken::new("SECRET-REDACTED".into()), 0, &mut db);
    profile("Rae").add(sid, 0, &mut db);

    let before_members = db.members.len();
    let plan = handle_message(&mut db, text_event("U1", "C1", "1.0", "plain message"));
    assert!(plan.is_none());
    assert_eq!(db.members.len(), before_members);
    assert_eq!(db.message_logs.len(), 0);
    let system = sid.fetch(&db).unwrap();
    assert!(system.currently_fronting_member_id.is_none());
}

#[test]
fn fronting_member_reposts_unchanged() {
    let mut db = Db::new();
    let sid = System::upsert(owner("U1"), SlackOauthToken::new("SECRET-REDACTED".into()), 0, &mut db);
    let c = profile("C").add(sid, 0, &mut db);
    let c_id = slack_system_bot::member::Id::new(c)
        .validate_by_system(sid, &db)
        .unwrap();
    sid.change_fronting_member(Some(c_id), &mut db);

    let plan = handle_message(&mut db, text_event("U1", "C1", "2.0", "no trigger here"))
        .expect("fronting member should repost");
    assert_eq!(plan.member_id.value(), c);
    assert_eq!(plan.display_name, "C");
    assert_eq!(plan.content.text.as_deref(), Some("no trigger here"));
    assert_eq!(plan.channel, "C1");
    assert_eq!(plan.original_ts, "2.0");

    // one log entry is created once the caller reports the posted id
    let log = MessageLog::insert(plan.member_id, "2.1".to_string(), &mut db).unwrap();
    assert_eq!(log.member_id.value(), c);
    assert_eq!(db.message_logs.len(), 1);
}

#[test]
fn end_to_end_trigger_substitution() {
    let mut db = Db::new();
    let sid = System::upsert(owner("U1"), SlackOauthToken::new("SECRET-REDACTED".into()), 0, &mut db);
    let rae = profile("Rae").add(sid, 0, &mut db);
    let rae_id = slack_system_bot::member::Id::new(rae)
        .validate_by_system(sid, &db)
        .unwrap();
    Trigger::insert(rae_id, sid, Type::Prefix, "R:".to_string(), &mut db);
    sid.set_auto_switch(true, &mut db);

    let plan = handle_message(&mut db, text_event("U1", "C1", "3.0", "R: hi"))
        .expect("trigger should select Rae");
    assert_eq!(plan.member_id.value(), rae);
    assert_eq!(plan.display_name, "Rae");
    assert_eq!(plan.content.text.as_deref(), Some("hi"));
    assert_eq!(plan.channel, "C1");
    assert_eq!(plan.original_ts, "3.0");
    assert_eq!(plan.user_token.expose(), "SECRET-REDACTED");

    // auto-switch moved the fronting pointer before the post
    let system = sid.fetch(&db).unwrap();
    assert_eq!(
        system.currently_fronting_member_id.unwrap().value(),
        rae
    );

    // the caller posts, then records the new message id
    MessageLog::insert(plan.member_id, "3.5".to_string(), &mut db).unwrap();
    let log = MessageLog::fetch_by_message_id("3.5", &db).unwrap();
    assert_eq!(log.member_id.value(), rae);
}

#[test]
fn without_auto_switch_fronting_stays() {
    let mut db = Db::new();
    let sid = System::upsert(owner("U1"), SlackOauthToken::new("SECRET-REDACTED".into()), 0, &mut db);
    let rae = profile("Rae").add(sid, 0, &mut db);
    let rae_id = slack_system_bot::member::Id::new(rae)
        .validate_by_system(sid, &db)
        .unwrap();
    Trigger::insert(rae_id, sid, Type::Prefix, "R:".to_string(), &mut db);

    handle_message(&mut db, text_event("U1", "C1", "4.0", "R: hi")).unwrap();
    let system = sid.fetch(&db).unwrap();
    assert!(system.currently_fronting_member_id.is_none());
}

#[test]
fn unknown_sender_or_missing_parts_do_nothing() {
    let mut db = Db::new();
    let sid = System::upsert(owner("U1"), SlackOauthToken::new("SECRET-REDACTED".into()), 0, &mut db);
    profile("Rae").add(sid, 0, &mut db);

    let mut no_sender = text_event("U1", "C1", "5.0", "R: hi");
    no_sender.sender = None;
    assert!(handle_message(&mut db, no_sender).is_none());

    assert!(handle_message(&mut db, text_event("U9", "C1", "5.1", "R: hi")).is_none());

    let mut no_channel = text_event("U1", "C1", "5.2", "R: hi");
    no_channel.channel = None;
    assert!(handle_message(&mut db, no_channel).is_none());

    let mut no_content = text_event("U1", "C1", "5.3", "R: hi");
    no_content.content = None;
    assert!(handle_message(&mut db, no_content).is_none());
}

#[test]
fn rich_text_first_segment_loses_prefix() {
    let mut db = Db::new();
    let sid = System::upsert(owner("U1"), SlackOauthToken::new("SECRET-REDACTED".into()), 0, &mut db);
    let rae = profile("Rae").add(sid, 0, &mut db);
    let rae_id = slack_system_bot::member::Id::new(rae)
        .validate_by_system(sid, &db)
        .unwrap();
    Trigger::insert(rae_id, sid, Type::Prefix, "R:".to_string(), &mut db);

    let event = MessageEvent {
        sender: Some("U1".to_string()),
        channel: Some("C1".to_string()),
        ts: "6.0".to_string(),
        content: Some(MessageContent {
            text: Some("R: hi there".to_string()),
            blocks: Some(vec![Block::RichText {
                elements: vec![
                    Segment { text: Some("R: hi".to_string()) },
                    Segment { text: Some(" there".to_string()) },
                ],
            }]),
            files: None,
        }),
    };
    let plan = handle_message(&mut db, event).unwrap();
    assert_eq!(plan.content.text.as_deref(), Some("hi there"));
    let blocks = plan.content.blocks.unwrap();
    assert_eq!(blocks.len(), 1);
    match &blocks[0] {
        Block::RichText { elements } => {
            assert_eq!(elements.len(), 2);
            assert_eq!(elements[0].text.as_deref(), Some("hi"));
            // only the first segment loses the prefix and its whitespace
            assert_eq!(elements[1].text.as_deref(), Some(" there"));
        }
        other => panic!("expected a rich text block, got {other:?}"),
    }
}

#[test]
fn attachments_become_blocks_in_order() {
    let mut db = Db::new();
    let sid = System::upsert(owner("U1"), SlackOauthToken::new("SECRET-REDACTED".into()), 0, &mut db);
    let c = profile("C").add(sid, 0, &mut db);
    let c_id = slack_system_bot::member::Id::new(c)
        .validate_by_system(sid, &db)
        .unwrap();
    sid.change_fronting_member(Some(c_id), &mut db);

    let event = MessageEvent {
        sender: Some("U1".to_string()),
        channel: Some("C1".to_string()),
        ts: "7.0".to_string(),
        content: Some(MessageContent {
            text: Some("look".to_string()),
            blocks: None,
            files: Some(vec![
                FileInfo {
                    id: "F1".to_string(),
                    name: Some("cat.png".to_string()),
                    permalink: Some("https://example.test/f1".to_string()),
                    filetype: Some("png".to_string()),
                },
                FileInfo {
                    id: "F2".to_string(),
                    name: Some("clip.mp4".to_string()),
                    permalink: Some("https://example.test/f2".to_string()),
                    filetype: Some("mp4".to_string()),
                },
                FileInfo {
                    id: "F3".to_string(),
                    name: Some("notes.txt".to_string()),
                    permalink: Some("https://example.test/f3".to_string()),
                    filetype: Some("txt".to_string()),
                },
                FileInfo {
                    id: "F4".to_string(),
                    name: None,
                    permalink: None,
                    filetype: Some("mov".to_string()),
                },
            ]),
        }),
    };
    let plan = handle_message(&mut db, event).unwrap();
    assert!(plan.content.files.is_none());
    let blocks = plan.content.blocks.unwrap();
    // link lines first (video, then plain attachment), then the image
    assert_eq!(blocks.len(), 3);
    match &blocks[0] {
        Block::FileLink { video, name, permalink } => {
            assert!(*video);
            assert_eq!(name, "clip.mp4");
            assert_eq!(permalink, "https://example.test/f2");
        }
        other => panic!("expected a video link block, got {other:?}"),
    }
    match &blocks[1] {
        Block::FileLink { video, name, .. } => {
            assert!(!*video);
            assert_eq!(name, "notes.txt");
        }
        other => panic!("expected an attachment link block, got {other:?}"),
    }
    match &blocks[2] {
        Block::Image { file_id } => assert_eq!(file_id, "F1"),
        other => panic!("expected an image block, got {other:?}"),
    }
}

#[test]
fn rewriting_is_a_defensive_no_op_without_the_pattern() {
    // the plain strip helper leaves text without the pattern unchanged
    assert_eq!(strip_trigger("hello", "J:", Type::Prefix), "hello");
    assert_eq!(strip_trigger("hello", "-B", Type::Suffix), "hello");

    // stripping takes the pattern and all the whitespace next to it, and
    // nothing when the pattern sits flush against the body
    assert_eq!(strip_trigger("J:hello", "J:", Type::Prefix), "hello");
    assert_eq!(strip_trigger("J: \t hello", "J:", Type::Prefix), "hello");
    assert_eq!(strip_trigger("hi \t -B", "-B", Type::Suffix), "hi");
    assert_eq!(strip_trigger("hi-B", "-B", Type::Suffix), "hi");
    // the untouched side keeps its whitespace
    assert_eq!(strip_trigger("J: hi ", "J:", Type::Prefix), "hi ");

    // a fronting member (empty trigger) rewrites nothing at all
    let mut db = Db::new();
    let sid = System::upsert(owner("U1"), SlackOauthToken::new("SECRET-REDACTED".into()), 0, &mut db);
    let c = profile("C").add(sid, 0, &mut db);
    let member: slack_system_bot::member::Member = slack_system_bot::member::Id::new(c)
        .validate_by_system(sid, &db)
        .unwrap()
        .fetch(&db)
        .unwrap();
    let tm = slack_system_bot::member::TriggeredMember::from_member(&member);
    let mut content = MessageContent {
        text: Some("anything at all".to_string()),
        blocks: Some(vec![Block::RichText {
            elements: vec![Segment { text: Some("anything".to_string()) }],
        }]),
        files: None,
    };
    rewrite_content(&mut content, &tm);
    assert_eq!(content.text.as_deref(), Some("anything at all"));
    match &content.blocks.as_ref().unwrap()[0] {
        Block::RichText { elements } => {
            assert_eq!(elements[0].text.as_deref(), Some("anything"))
        }
        other => panic!("expected rich text, got {other:?}"),
    }
}

#[test]
fn suffix_rewrite_touches_only_the_last_segment() {
    let mut db = Db::new();
    let sid = System::upsert(owner("U1"), SlackOauthToken::new("SECRET-REDACTED".into()), 0, &mut db);
    let b = profile("B").add(sid, 0, &mut db);
    let b_id = slack_system_bot::member::Id::new(b)
        .validate_by_system(sid, &db)
        .unwrap();
    Trigger::insert(b_id, sid, Type::Suffix, "-B".to_string(), &mut db);

    let event = MessageEvent {
        sender: Some("U1".to_string()),
        channel: Some("C1".to_string()),
        ts: "9.0".to_string(),
        content: Some(MessageContent {
            text: Some("hi -B".to_string()),
            blocks: Some(vec![Block::RichText {
                elements: vec![
                    Segment { text: Some("-B is not stripped here".to_string()) },
                    Segment { text: Some("hi -B".to_string()) },
                ],
            }]),
            files: None,
        }),
    };
    let plan = handle_message(&mut db, event).unwrap();
    assert_eq!(plan.content.text.as_deref(), Some("hi"));
    match &plan.content.blocks.unwrap()[0] {
        Block::RichText { elements } => {
            assert_eq!(elements[0].text.as_deref(), Some("-B is not stripped here"));
            assert_eq!(elements[1].text.as_deref(), Some("hi"));
        }
        other => panic!("expected rich text, got {other:?}"),
    }
}

#[test]
fn push_event_routing() {
    let mut db = Db::new();
    let sid = System::upsert(owner("U1"), SlackOauthToken::new("SECRET-REDACTED".into()), 0, &mut db);
    let c = profile("C").add(sid, 0, &mut db);
    let c_id = slack_system_bot::member::Id::new(c)
        .validate_by_system(sid, &db)
        .unwrap();
    MessageLog::insert(c_id, "8.0".to_string(), &mut db).unwrap();

    match process_push_event(
        &mut db,
        PushEvent::UrlVerification { challenge: "tok".to_string() },
    ) {
        PushOutcome::Challenge { challenge } => assert_eq!(challenge, "tok"),
        other => panic!("expected the challenge back, got {other:?}"),
    }

    match process_push_event(&mut db, PushEvent::MessageDeleted { deleted_ts: "8.0".to_string() }) {
        PushOutcome::LogDeleted { rows } => assert_eq!(rows, 1),
        other => panic!("expected the log row purged, got {other:?}"),
    }
    assert_eq!(db.message_logs.len(), 0);

    match process_push_event(&mut db, PushEvent::Other) {
        PushOutcome::NoAction => {}
        other => panic!("expected no action, got {other:?}"),
    }
}
