use slack_system_bot::alias::{Alias, AliasError};
use slack_system_bot::db::Db;
use slack_system_bot::member::{self, Member, MemberRef, MemberView};
use slack_system_bot::ops::{disable, enable, member_info, switch_member, EnableOutcome, InfoOutcome, SwitchOutcome};
use slack_system_bot::system::{SlackOauthToken, System};
use slack_system_bot::trigger::{Trigger, Type};
use slack_system_bot::trust::Trusted;
use slack_system_bot::user;

fn owner(name: &str) -> user::Id<Trusted> {
    user::Id::from_authenticated(name.to_string())
}

fn profile(display: &str) -> MemberView {
    MemberView {
        full_name: display.to_string(),
        display_name: display.to_string(),
        profile_picture_url: None,
        title: None,
        pronouns: None,
        name_pronunciation: None,
        name_recording_url: None,
    }
}

fn setup(db: &mut Db) -> (slack_system_bot::system::Id<Trusted>, member::Id<Trusted>) {
    let sid = System::upsert(owner("U1"), SlackOauthToken::new("SECRET-REDACTED".into()), 0, db);
    let m = profile("Rae").add(sid, 0, db);
    let m_id = member::Id::new(m).validate_by_system(sid, db).unwrap();
    (sid, m_id)
}

#[test]
fn upsert_creates_then_refreshes_credentials() {
    let mut db = Db::new();
    let sid = System::upsert(owner("U1"), SlackOauthToken::new("SECRET-REDACTED".into()), 7, &mut db);
    assert_eq!(db.systems.len(), 1);
    let again = System::upsert(owner("U1"), SlackOauthToken::new("SECRET-REDACTED-2".into()), 9, &mut db);
    assert_eq!(db.systems.len(), 1);
    assert_eq!(sid.value(), again.value());
    let system = sid.fetch(&db).unwrap();
    assert_eq!(system.slack_oauth_token.expose(), "SECRET-REDACTED-2");
    assert_eq!(system.created_at, 7, "a refresh keeps the original creation time");
}

#[test]
fn aliases_must_not_read_as_integers_and_stay_unique() {
    let mut db = Db::new();
    let (sid, m) = setup(&mut db);

    assert_eq!(
        Alias::insert(m, sid, "42".to_string(), &mut db).unwrap_err(),
        AliasError::IntegerText
    );
    let rae = Alias::insert(m, sid, "rae".to_string(), &mut db).unwrap();
    assert_eq!(
        Alias::insert(m, sid, "rae".to_string(), &mut db).unwrap_err(),
        AliasError::DuplicateAlias
    );

    // resolving the alias finds the member
    let resolved = member::Id::fetch_by_alias("rae", sid, &db).unwrap();
    assert_eq!(resolved.value(), m.value());

    // renaming checks the same constraints
    assert_eq!(rae.id.change_alias("17".to_string(), &mut db).unwrap_err(), AliasError::IntegerText);
    let also = Alias::insert(m, sid, "also".to_string(), &mut db).unwrap();
    assert_eq!(
        also.id.change_alias("rae".to_string(), &mut db).unwrap_err(),
        AliasError::DuplicateAlias
    );
    assert_eq!(also.id.change_alias("other".to_string(), &mut db).unwrap(), 1);
    assert!(member::Id::fetch_by_alias("other", sid, &db).is_some());
    assert!(member::Id::fetch_by_alias("also", sid, &db).is_none());

    // deletion frees the name
    assert_eq!(rae.id.delete(&mut db), 1);
    assert!(member::Id::fetch_by_alias("rae", sid, &db).is_none());
    assert_eq!(rae.id.delete(&mut db), 0);
}

#[test]
fn triggers_update_and_delete() {
    let mut db = Db::new();
    let (sid, m) = setup(&mut db);
    let t = Trigger::insert(m, sid, Type::Prefix, "R:".to_string(), &mut db);

    let validated = slack_system_bot::trigger::Id::new(t.id.value()).validate_by_system(sid, &db).unwrap();
    assert_eq!(validated.value(), t.id.value());

    // a trigger of another system does not validate
    let sid2 = System::upsert(owner("U2"), SlackOauthToken::new("SECRET-REDACTED".into()), 0, &mut db);
    assert!(slack_system_bot::trigger::Id::new(t.id.value()).validate_by_system(sid2, &db).is_none());

    // coalescing update: only the supplied fields change
    validated.update(None, Some("Rae:".to_string()), &mut db).unwrap();
    let listed = sid.list_triggers(&db);
    assert_eq!(listed.len(), 1);
    assert_eq!(listed[0].text, "Rae:");
    assert!(matches!(listed[0].typ, Type::Prefix));

    validated.update(Some(Type::Suffix), None, &mut db).unwrap();
    let listed = m.fetch_triggers(&db);
    assert_eq!(listed.len(), 1);
    assert_eq!(listed[0].text, "Rae:");
    assert!(matches!(listed[0].typ, Type::Suffix));

    assert_eq!(validated.delete(&mut db), 1);
    assert!(sid.list_triggers(&db).is_empty());
    assert_eq!(validated.delete(&mut db), 0);
}

#[test]
fn trigger_type_codes_and_names() {
    assert_eq!(Type::from_code(0), Some(Type::Suffix));
    assert_eq!(Type::from_code(1), Some(Type::Prefix));
    assert_eq!(Type::from_code(2), None);
    assert_eq!(Type::Prefix.code(), 1);
    assert_eq!(Type::Suffix.code(), 0);
    assert_eq!(Type::from_str("prefix").unwrap(), Type::Prefix);
    assert_eq!(Type::from_str("suffix").unwrap(), Type::Suffix);
    assert_eq!(Type::from_str("sideways").unwrap_err().text(), "sideways");
}

#[test]
fn switch_guards_disabled_members() {
    let mut db = Db::new();
    let (sid, m) = setup(&mut db);
    m.set_enabled(false, &mut db);

    let outcome = switch_member(
        &owner("U1"),
        Some(&MemberRef::Id(member::Id::new(m.value()))),
        false,
        &mut db,
    );
    assert!(matches!(outcome, SwitchOutcome::MemberDisabled));
    assert!(sid.fetch(&db).unwrap().currently_fronting_member_id.is_none());

    m.set_enabled(true, &mut db);
    match switch_member(
        &owner("U1"),
        Some(&MemberRef::Id(member::Id::new(m.value()))),
        false,
        &mut db,
    ) {
        SwitchOutcome::Switched { member } => assert_eq!(member.id.value(), m.value()),
        other => panic!("expected a switch, got {other:?}"),
    }
    assert_eq!(
        sid.fetch(&db).unwrap().currently_fronting_member_id.unwrap().value(),
        m.value()
    );

    assert!(matches!(switch_member(&owner("U1"), None, true, &mut db), SwitchOutcome::SwitchedToBase));
    assert!(sid.fetch(&db).unwrap().currently_fronting_member_id.is_none());

    assert!(matches!(
        switch_member(&owner("U1"), Some(&MemberRef::Alias("ghost".to_string())), false, &mut db),
        SwitchOutcome::MemberNotFound
    ));
    assert!(matches!(switch_member(&owner("U9"), None, true, &mut db), SwitchOutcome::NoSystem));
}

#[test]
fn disable_refuses_the_fronting_member() {
    let mut db = Db::new();
    let (sid, m) = setup(&mut db);
    sid.change_fronting_member(Some(m), &mut db);

    let mref = MemberRef::Id(member::Id::new(m.value()));
    assert!(matches!(disable(&owner("U1"), &mref, &mut db), EnableOutcome::CurrentlyFronting));
    assert!(m.enabled(&db).unwrap());

    sid.change_fronting_member(None, &mut db);
    assert!(matches!(disable(&owner("U1"), &mref, &mut db), EnableOutcome::Changed));
    assert!(!m.enabled(&db).unwrap());
    assert!(matches!(disable(&owner("U1"), &mref, &mut db), EnableOutcome::Unchanged));

    // management commands still reach the disabled member, by alias too
    Alias::insert(m, sid, "rae".to_string(), &mut db).unwrap();
    assert!(matches!(enable(&owner("U1"), &MemberRef::Alias("rae".to_string()), &mut db), EnableOutcome::Changed));
    assert!(m.enabled(&db).unwrap());
    assert!(matches!(enable(&owner("U1"), &mref, &mut db), EnableOutcome::Unchanged));
}

#[test]
fn member_info_reports_fronting_and_disabled() {
    let mut db = Db::new();
    let (sid, m) = setup(&mut db);
    let mref = MemberRef::Id(member::Id::new(m.value()));

    match member_info(&owner("U1"), &mref, &db) {
        InfoOutcome::Info { member, fronting } => {
            assert_eq!(member.display_name, "Rae");
            assert!(!fronting);
        }
        other => panic!("expected info, got {other:?}"),
    }

    sid.change_fronting_member(Some(m), &mut db);
    match member_info(&owner("U1"), &mref, &db) {
        InfoOutcome::Info { fronting, .. } => assert!(fronting),
        other => panic!("expected info, got {other:?}"),
    }

    // disabling is refused while fronting; step down first
    sid.change_fronting_member(None, &mut db);
    disable(&owner("U1"), &mref, &mut db);
    assert!(matches!(member_info(&owner("U1"), &mref, &db), InfoOutcome::Disabled { .. }));
    assert!(matches!(
        member_info(&owner("U1"), &MemberRef::Id(member::Id::new(404)), &db),
        InfoOutcome::MemberNotFound
    ));
    assert!(matches!(member_info(&owner("U9"), &mref, &db), InfoOutcome::NoSystem));
}

#[test]
fn profile_updates_keep_identity_and_flag() {
    let mut db = Db::new();
    let (sid, m) = setup(&mut db);
    m.set_enabled(false, &mut db);

    let new_profile = MemberView {
        full_name: "Rae Doe".to_string(),
        display_name: "Rae D".to_string(),
        profile_picture_url: Some("https://example.test/rae.png".to_string()),
        title: Some("navigator".to_string()),
        pronouns: Some("she/her".to_string()),
        name_pronunciation: None,
        name_recording_url: None,
    };
    assert_eq!(new_profile.update(m, &mut db), 1);

    let fetched: Member = Member::fetch_by_id(m, &db).unwrap();
    assert_eq!(fetched.full_name, "Rae Doe");
    assert_eq!(fetched.display_name, "Rae D");
    assert_eq!(fetched.pronouns.as_deref(), Some("she/her"));
    assert!(!fetched.enabled, "an update does not re-enable the member");
    assert_eq!(fetched.system_id.value(), sid.value());

    let listed = sid.fetch(&db).unwrap().members(&db);
    assert_eq!(listed.len(), 1);
    assert_eq!(listed[0].display_name, "Rae D");
}
