use slack_system_bot::db::Db;
use slack_system_bot::member::MemberView;
use slack_system_bot::system::{SlackOauthToken, System};
use slack_system_bot::trigger::{Trigger, Type};
use slack_system_bot::trust::Trusted;
use slack_system_bot::user;

fn owner(name: &str) -> user::Id<Trusted> {
    user::Id::from_authenticated(name.to_string())
}

fn profile(display: &str, full: &str) -> MemberView {
    MemberView {
        full_name: full.to_string(),
        display_name: display.to_string(),
        profile_picture_url: None,
        title: None,
        pronouns: None,
        name_pronunciation: None,
        name_recording_url: None,
    }
}

fn system_with_member(db: &mut Db, owner_name: &str, display: &str) -> (System, i64) {
    let sid = System::upsert(
        owner(owner_name),
        SlackOauthToken::new("SECRET-REDACTED".to_string()),
        0,
        db,
    );
    let member_id = profile(display, display).add(sid, 0, db);
    let system = sid.fetch(db).unwrap();
    (system, member_id)
}

fn add_trigger(db: &mut Db, system: &System, member_id: i64, typ: Type, text: &str) -> Trigger {
    let trusted = slack_system_bot::member::Id::new(member_id)
        .validate_by_system(system.id, db)
        .unwrap();
    Trigger::insert(trusted, system.id, typ, text.to_string(), db)
}

#[test]
fn prefix_trigger_selects_member() {
    let mut db = Db::new();
    let (system, rae) = system_with_member(&mut db, "U1", "J");
    add_trigger(&mut db, &system, rae, Type::Prefix, "J:");

    let tm = system.find_member_by_trigger_rules(&db, "J: hello").unwrap();
    assert_eq!(tm.id.value(), rae);
    assert_eq!(tm.trigger_text, "J:");
    assert!(matches!(tm.typ, Type::Prefix));

    let rewritten =
        slack_system_bot::events::strip_trigger("J: hello", tm.trigger_text.as_str(), tm.typ);
    assert_eq!(rewritten, "hello");
}

#[test]
fn suffix_trigger_selects_member() {
    let mut db = Db::new();
    let (system, b) = system_with_member(&mut db, "U1", "B");
    add_trigger(&mut db, &system, b, Type::Suffix, "-B");

    let tm = system.find_member_by_trigger_rules(&db, "hi -B").unwrap();
    assert_eq!(tm.id.value(), b);
    assert_eq!(tm.trigger_text, "-B");
    assert!(matches!(tm.typ, Type::Suffix));

    let rewritten =
        slack_system_bot::events::strip_trigger("hi -B", tm.trigger_text.as_str(), tm.typ);
    assert_eq!(rewritten, "hi");
}

#[test]
fn disabled_member_never_matches() {
    let mut db = Db::new();
    let (system, m) = system_with_member(&mut db, "U1", "Ghost");
    add_trigger(&mut db, &system, m, Type::Prefix, "G:");
    let trusted = slack_system_bot::member::Id::new(m)
        .validate_by_system(system.id, &db)
        .unwrap();
    trusted.set_enabled(false, &mut db);

    assert!(system.find_member_by_trigger_rules(&db, "G: hello").is_none());
}

#[test]
fn empty_text_never_matches() {
    let mut db = Db::new();
    let (system, m) = system_with_member(&mut db, "U1", "E");
    // an empty pattern would match anything, but empty text matches nothing
    add_trigger(&mut db, &system, m, Type::Prefix, "");
    assert!(system.find_member_by_trigger_rules(&db, "").is_none());
}

#[test]
fn longest_pattern_wins_then_lowest_id() {
    let mut db = Db::new();
    let (system, short) = system_with_member(&mut db, "U1", "Short");
    let long = profile("Long", "Long").add(system.id, 0, &mut db);
    add_trigger(&mut db, &system, short, Type::Prefix, "J:");
    add_trigger(&mut db, &system, long, Type::Prefix, "J: h");

    let tm = system.find_member_by_trigger_rules(&db, "J: hello").unwrap();
    assert_eq!(tm.id.value(), long);
    assert_eq!(tm.trigger_text, "J: h");

    // equal length: the lower trigger id wins, whatever the scan order
    let mut db2 = Db::new();
    let (system2, first) = system_with_member(&mut db2, "U1", "First");
    let second = profile("Second", "Second").add(system2.id, 0, &mut db2);
    add_trigger(&mut db2, &system2, first, Type::Prefix, "X:");
    add_trigger(&mut db2, &system2, second, Type::Prefix, "X!");
    let tm2 = system2
        .find_member_by_trigger_rules(&db2, "X: hm")
        .unwrap();
    assert_eq!(tm2.id.value(), first);
}

#[test]
fn other_systems_triggers_do_not_match() {
    let mut db = Db::new();
    let (system_a, a) = system_with_member(&mut db, "U1", "A");
    let (system_b, _b) = system_with_member(&mut db, "U2", "B");
    add_trigger(&mut db, &system_a, a, Type::Prefix, "A:");

    assert!(system_b.find_member_by_trigger_rules(&db, "A: hi").is_none());
}

#[test]
fn no_match_without_pattern_at_position() {
    let mut db = Db::new();
    let (system, m) = system_with_member(&mut db, "U1", "M");
    add_trigger(&mut db, &system, m, Type::Prefix, "M:");
    // the pattern occurs, but not at the start
    assert!(system.find_member_by_trigger_rules(&db, "hi M: there").is_none());
}
