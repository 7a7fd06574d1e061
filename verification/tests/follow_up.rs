use slack_system_bot::db::Db;
use slack_system_bot::form::FormField;
use slack_system_bot::interactions::{
    authorize_follow_up, delete, edit, encode_external_id, info, parse_external_id, reproxy,
    sender_is_requester, DeleteOutcome, EditMessageView, EditOutcome, FollowUpAuth, PendingAction,
    ReproxyOutcome, ReproxyView,
};
use slack_system_bot::member::{self, MemberRef, MemberView};
use slack_system_bot::message::MessageLog;
use slack_system_bot::ops::{create_member, edit_member, CreateMemberOutcome, EditMemberOutcome};
use slack_system_bot::system::{SlackOauthToken, System};
use slack_system_bot::trust::Trusted;
use slack_system_bot::user;

fn owner(name: &str) -> user::Id<Trusted> {
    user::Id::from_authenticated(name.to_string())
}

fn profile(display: &str) -> MemberView {
    MemberView {
        full_name: display.to_string(),
        display_name: display.to_string(),
        profile_picture_url: None,
        title: None,
        pronouns: None,
        name_pronunciation: None,
        name_recording_url: None,
    }
}

/// A store with one system (owner U1), one member, and one logged message.
fn logged_message(db: &mut Db) -> (member::Id<Trusted>, String) {
    let sid = System::upsert(owner("U1"), SlackOauthToken::new("SECRET-REDACTED".into()), 0, db);
    let m = profile("Rae").add(sid, 0, db);
    let m_id = member::Id::new(m).validate_by_system(sid, db).unwrap();
    MessageLog::insert(m_id, "10.5".to_string(), db).unwrap();
    (m_id, "10.5".to_string())
}

#[test]
fn edit_by_non_owner_is_rejected_without_update() {
    let mut db = Db::new();
    let (_m, ts) = logged_message(&mut db);
    System::upsert(owner("U2"), SlackOauthToken::new("SECRET-REDACTED".into()), 0, &mut db);

    let before_logs = db.message_logs.len();
    let outcome = edit(
        EditMessageView { message: "new text".to_string() },
        ts.as_str(),
        &owner("U2"),
        &db,
    );
    assert!(matches!(outcome, EditOutcome::NotOwner));
    assert_eq!(db.message_logs.len(), before_logs);

    let allowed = edit(
        EditMessageView { message: "new text".to_string() },
        ts.as_str(),
        &owner("U1"),
        &db,
    );
    match allowed {
        EditOutcome::Update { message } => assert_eq!(message, "new text"),
        other => panic!("the owner's edit should go through, got {other:?}"),
    }
}

#[test]
fn edit_of_unlogged_message_is_not_logged() {
    let mut db = Db::new();
    logged_message(&mut db);
    let outcome = edit(
        EditMessageView { message: "x".to_string() },
        "99.99",
        &owner("U1"),
        &db,
    );
    assert!(matches!(outcome, EditOutcome::NotLogged));
}

#[test]
fn delete_notification_without_log_is_a_no_op() {
    let mut db = Db::new();
    let (_m, ts) = logged_message(&mut db);

    // an id with no log row: nothing changes, no error
    let rows = MessageLog::delete_by_message_id("77.77", &mut db);
    assert_eq!(rows, 0);
    assert_eq!(db.message_logs.len(), 1);

    // the real row goes; a repeated delivery is then the same no-op
    assert_eq!(MessageLog::delete_by_message_id(ts.as_str(), &mut db), 1);
    assert_eq!(db.message_logs.len(), 0);
    assert_eq!(MessageLog::delete_by_message_id(ts.as_str(), &mut db), 0);
    assert_eq!(db.message_logs.len(), 0);
}

#[test]
fn authorize_and_delete_follow_ownership() {
    let mut db = Db::new();
    let (m, ts) = logged_message(&mut db);
    System::upsert(owner("U2"), SlackOauthToken::new("SECRET-REDACTED".into()), 0, &mut db);

    match authorize_follow_up(ts.as_str(), &owner("U1"), &db) {
        FollowUpAuth::Authorized { member, system } => {
            assert_eq!(member.id.value(), m.value());
            assert!(system.owner_id.same_as(&owner("U1")));
        }
        other => panic!("the owner should be authorized, got {other:?}"),
    }
    assert!(matches!(
        authorize_follow_up(ts.as_str(), &owner("U2"), &db),
        FollowUpAuth::NotOwner
    ));
    assert!(matches!(
        authorize_follow_up("0.0", &owner("U1"), &db),
        FollowUpAuth::NotLogged
    ));

    assert!(matches!(delete(ts.as_str(), &owner("U2"), &db), DeleteOutcome::NotOwner));
    assert!(matches!(delete(ts.as_str(), &owner("U1"), &db), DeleteOutcome::Delete));
    assert!(matches!(delete("0.0", &owner("U1"), &db), DeleteOutcome::NotLogged));
}

#[test]
fn info_resolves_without_ownership() {
    let mut db = Db::new();
    let (m, ts) = logged_message(&mut db);
    let (member, system) = info(ts.as_str(), &db).unwrap();
    assert_eq!(member.id.value(), m.value());
    assert!(system.owner_id.same_as(&owner("U1")));
    assert!(info("0.0", &db).is_none());
}

#[test]
fn reproxy_validates_the_chosen_member() {
    let mut db = Db::new();
    let (m, _ts) = logged_message(&mut db);
    let sid2 = System::upsert(owner("U2"), SlackOauthToken::new("SECRET-REDACTED".into()), 0, &mut db);
    let other = profile("Other").add(sid2, 0, &mut db);

    match reproxy(&MemberRef::Id(member::Id::new(m.value())), &owner("U1"), &db) {
        ReproxyOutcome::Reproxy { member, user_token } => {
            assert_eq!(member.id.value(), m.value());
            assert_eq!(user_token.expose(), "SECRET-REDACTED");
        }
        other => panic!("expected a reproxy, got {other:?}"),
    }
    // another tenant's member id is not usable
    assert!(matches!(
        reproxy(&MemberRef::Id(member::Id::new(other)), &owner("U1"), &db),
        ReproxyOutcome::MemberNotFound
    ));
    assert!(matches!(
        reproxy(&MemberRef::Id(member::Id::new(m.value())), &owner("U3"), &db),
        ReproxyOutcome::NoSystem
    ));
}

#[test]
fn reproxy_of_own_message_checks_the_sender() {
    let requester = owner("U1");
    assert!(sender_is_requester(&Some("U1".to_string()), &requester));
    assert!(!sender_is_requester(&Some("U2".to_string()), &requester));
    assert!(!sender_is_requester(&None, &requester));
}

#[test]
fn external_ids_round_trip() {
    let cases = vec![
        PendingAction::CreateMember,
        PendingAction::EditMember { member_id: 42 },
        PendingAction::EditMessage {
            message_ts: "123.456".to_string(),
            channel: "C0AB".to_string(),
        },
        PendingAction::ReproxyMessage {
            message_ts: "9.9".to_string(),
            channel: "C_with_underscores".to_string(),
        },
    ];
    for action in &cases {
        let encoded = encode_external_id(action);
        let parsed = parse_external_id(encoded.as_str()).expect("written ids read back");
        match (action, &parsed) {
            (PendingAction::CreateMember, PendingAction::CreateMember) => {}
            (
                PendingAction::EditMember { member_id: a },
                PendingAction::EditMember { member_id: b },
            ) => assert_eq!(a, b),
            (
                PendingAction::EditMessage { message_ts: t1, channel: c1 },
                PendingAction::EditMessage { message_ts: t2, channel: c2 },
            ) => {
                assert_eq!(t1, t2);
                assert_eq!(c1, c2);
            }
            (
                PendingAction::ReproxyMessage { message_ts: t1, channel: c1 },
                PendingAction::ReproxyMessage { message_ts: t2, channel: c2 },
            ) => {
                assert_eq!(t1, t2);
                assert_eq!(c1, c2);
            }
            (a, b) => panic!("{a:?} read back as {b:?}"),
        }
    }
    assert_eq!(encode_external_id(&PendingAction::EditMember { member_id: 42 }), "edit_member_42");
    assert!(parse_external_id("edit_member_notanumber").is_none());
    assert!(parse_external_id("edit_message_nounderscore").is_none());
    assert!(parse_external_id("somethingelse").is_none());
}

#[test]
fn member_forms_create_and_edit_with_ownership() {
    let mut db = Db::new();
    System::upsert(owner("U1"), SlackOauthToken::new("SECRET-REDACTED".into()), 0, &mut db);
    System::upsert(owner("U2"), SlackOauthToken::new("SECRET-REDACTED".into()), 0, &mut db);

    let form = |full: &str, display: &str| {
        vec![
            FormField { id: "full_name".to_string(), value: Some(full.to_string()), selected: None },
            FormField {
                id: "display_name".to_string(),
                value: Some(display.to_string()),
                selected: None,
            },
        ]
    };

    // a malformed submission writes nothing
    let missing = vec![FormField { id: "full_name".to_string(), value: None, selected: None }];
    assert!(matches!(
        create_member(&owner("U1"), &missing, 0, &mut db),
        CreateMemberOutcome::Malformed { .. }
    ));
    assert_eq!(db.members.len(), 0);

    assert!(matches!(
        create_member(&owner("U9"), &form("Rae Doe", "Rae"), 0, &mut db),
        CreateMemberOutcome::NoSystem
    ));

    let created = create_member(&owner("U1"), &form("Rae Doe", "Rae"), 0, &mut db);
    let rae = match created {
        CreateMemberOutcome::Created { member_id } => member_id,
        other => panic!("expected a created member, got {other:?}"),
    };
    assert_eq!(db.members.len(), 1);

    // editing someone else's member is refused without a write
    assert!(matches!(
        edit_member(&owner("U2"), member::Id::new(rae), &form("Mallory", "M"), &mut db),
        EditMemberOutcome::NotYourMember
    ));
    let kept = member::Id::new(rae).validate_by_system(db.systems[0].id, &db).unwrap();
    assert_eq!(kept.fetch(&db).unwrap().full_name, "Rae Doe");

    assert!(matches!(
        edit_member(&owner("U1"), member::Id::new(rae), &form("Rae D. Doe", "Rae"), &mut db),
        EditMemberOutcome::Edited
    ));
    assert_eq!(kept.fetch(&db).unwrap().full_name, "Rae D. Doe");
}

#[test]
fn forms_reject_missing_required_fields() {
    let fields = vec![
        FormField { id: "message".to_string(), value: None, selected: None },
    ];
    assert!(EditMessageView::from_form(&fields).is_err());

    let fields = vec![
        FormField { id: "message".to_string(), value: Some("hi".to_string()), selected: None },
    ];
    assert_eq!(EditMessageView::from_form(&fields).unwrap().message, "hi");

    // empty at the end is missing too
    let fields = vec![
        FormField { id: "message".to_string(), value: Some(String::new()), selected: None },
    ];
    assert!(EditMessageView::from_form(&fields).is_err());

    let fields = vec![
        FormField { id: "member".to_string(), value: None, selected: Some("17".to_string()) },
    ];
    assert_eq!(ReproxyView::from_form(&fields).unwrap().member, Some(17));

    let fields = vec![
        FormField { id: "member".to_string(), value: None, selected: Some("seventeen".to_string()) },
    ];
    assert!(ReproxyView::from_form(&fields).is_err());

    let fields = vec![
        FormField { id: "full_name".to_string(), value: Some("Rae Doe".to_string()), selected: None },
        FormField { id: "display_name".to_string(), value: Some("Rae".to_string()), selected: None },
        FormField { id: "pronouns".to_string(), value: Some("she/her".to_string()), selected: None },
        FormField { id: "badge_color".to_string(), value: Some("ignored".to_string()), selected: None },
    ];
    let view = MemberView::from_form(&fields).unwrap();
    assert_eq!(view.full_name, "Rae Doe");
    assert_eq!(view.display_name, "Rae");
    assert_eq!(view.pronouns.as_deref(), Some("she/her"));
    assert!(view.title.is_none());

    let fields = vec![
        FormField { id: "display_name".to_string(), value: Some("Rae".to_string()), selected: None },
    ];
    assert!(MemberView::from_form(&fields).is_err(), "full name is required");
}
