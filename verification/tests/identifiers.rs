use slack_system_bot::db::Db;
use slack_system_bot::member::{self, MemberRef, MemberView};
use slack_system_bot::system::{SlackOauthToken, System};
use slack_system_bot::text::{parse_i64, render_i64, split_once_char};
use slack_system_bot::trust::Trusted;
use slack_system_bot::user;

fn owner(name: &str) -> user::Id<Trusted> {
    user::Id::from_authenticated(name.to_string())
}

fn profile(display: &str) -> MemberView {
    MemberView {
        full_name: display.to_string(),
        display_name: display.to_string(),
        profile_picture_url: None,
        title: None,
        pronouns: None,
        name_pronunciation: None,
        name_recording_url: None,
    }
}

#[test]
fn verify_scopes_member_to_its_system() {
    let mut db = Db::new();
    // systems get ids 1..=11; we care about 10 and 11
    let mut sids = Vec::new();
    for k in 1..=11 {
        let sid = System::upsert(
            owner(&format!("U{k}")),
            SlackOauthToken::new("SECRET-REDACTED".to_string()),
            0,
            &mut db,
        );
        sids.push(sid);
    }
    let system_10 = sids[9];
    let system_11 = sids[10];
    assert_eq!(system_10.value(), 10);
    assert_eq!(system_11.value(), 11);

    // members get ids 1..=5; member 5 belongs to system 11
    for _ in 0..4 {
        profile("Filler").add(system_10, 0, &mut db);
    }
    let five = profile("Five").add(system_11, 0, &mut db);
    assert_eq!(five, 5);

    assert!(member::Id::new(5).validate_by_system(system_10, &db).is_none());
    let trusted = member::Id::new(5).validate_by_system(system_11, &db).unwrap();
    assert_eq!(trusted.value(), 5);
}

#[test]
fn validate_by_user_follows_ownership() {
    let mut db = Db::new();
    let sid_a = System::upsert(owner("U1"), SlackOauthToken::new("SECRET-REDACTED".into()), 0, &mut db);
    System::upsert(owner("U2"), SlackOauthToken::new("SECRET-REDACTED".into()), 0, &mut db);
    let m = profile("M").add(sid_a, 0, &mut db);

    assert!(member::Id::new(m).validate_by_user(&owner("U1"), &db).is_some());
    assert!(member::Id::new(m).validate_by_user(&owner("U2"), &db).is_none());
    assert!(member::Id::new(999).validate_by_user(&owner("U1"), &db).is_none());
}

#[test]
fn member_ref_parses_ids_and_aliases() {
    match MemberRef::from_text("123") {
        MemberRef::Id(id) => assert_eq!(id.value(), 123),
        MemberRef::Alias(a) => panic!("expected an id, got alias {a}"),
    }
    match MemberRef::from_text("-7") {
        MemberRef::Id(id) => assert_eq!(id.value(), -7),
        MemberRef::Alias(a) => panic!("expected an id, got alias {a}"),
    }
    match MemberRef::from_text("rae") {
        MemberRef::Alias(a) => assert_eq!(a, "rae"),
        MemberRef::Id(_) => panic!("expected an alias"),
    }
    // not a pure integer: falls back to an alias
    match MemberRef::from_text("12a") {
        MemberRef::Alias(a) => assert_eq!(a, "12a"),
        MemberRef::Id(_) => panic!("expected an alias"),
    }
}

#[test]
fn parse_i64_exact_behaviour() {
    assert_eq!(parse_i64("0"), Some(0));
    assert_eq!(parse_i64("42"), Some(42));
    assert_eq!(parse_i64("+42"), Some(42));
    assert_eq!(parse_i64("-42"), Some(-42));
    assert_eq!(parse_i64("007"), Some(7));
    assert_eq!(parse_i64("9223372036854775807"), Some(i64::MAX));
    assert_eq!(parse_i64("9223372036854775808"), None);
    assert_eq!(parse_i64("-9223372036854775808"), Some(i64::MIN));
    assert_eq!(parse_i64("-9223372036854775809"), None);
    assert_eq!(parse_i64(""), None);
    assert_eq!(parse_i64("+"), None);
    assert_eq!(parse_i64("-"), None);
    assert_eq!(parse_i64("12 "), None);
    assert_eq!(parse_i64("1.5"), None);
    assert_eq!(parse_i64("abc"), None);
}

#[test]
fn render_round_trips_through_parse() {
    for n in [0i64, 1, -1, 9, 10, 42, -42, 1000000, i64::MAX, i64::MIN] {
        let s = render_i64(n);
        assert_eq!(parse_i64(s.as_str()), Some(n), "round trip of {n} via {s}");
    }
    assert_eq!(render_i64(42), "42");
    assert_eq!(render_i64(-7), "-7");
    assert_eq!(render_i64(0), "0");
}

#[test]
fn escaped_user_ids_parse() {
    let id = user::parse_slack_user_id("<@U1234|somebody>").unwrap();
    let probe = user::Id::from_authenticated("U1234".to_string());
    assert!(id.same_as(&probe));

    let bare = user::parse_slack_user_id("<@U99>").unwrap();
    assert!(bare.same_as(&user::Id::from_authenticated("U99".to_string())));

    assert!(user::parse_slack_user_id("U1234").is_none());
    assert!(user::parse_slack_user_id("<@|name>").is_none());
    assert!(user::parse_slack_user_id("<@W1234>").is_none());
    assert!(user::parse_slack_user_id("<@U1234").is_none());
}

#[test]
fn split_once_takes_first_separator() {
    let (a, b) = split_once_char("123.456_C0AB", '_').unwrap();
    assert_eq!(a, "123.456");
    assert_eq!(b, "C0AB");

    let (a2, b2) = split_once_char("x_y_z", '_').unwrap();
    assert_eq!(a2, "x");
    assert_eq!(b2, "y_z");

    assert!(split_once_char("nounderscore", '_').is_none());
}
