//! Follow-up actions on a proxied message: edit, delete, reproxy, info.
//!
//! Every mutating follow-up is authorized first: the external message id is
//! resolved through the audit log back to its member and system, and the
//! requesting account must be that system's owner. An unauthorized request
//! yields a rejection outcome and no state change; the caller turns it into
//! an ephemeral notice.

use vstd::prelude::*;
use crate::db::Db;
use crate::form::{has_missing_required, last_selected, last_value, missing_required_at,
    required_present, FormField, MissingFieldError};
use crate::member::{Member, MemberRef};
use crate::message::MessageLog;
use crate::system::{SlackOauthToken, System};
use crate::text::{render_i64, spec_parse_i64, split_once_char, str_eq, strip_prefix_string,
    text_starts_with};
use crate::trust::Trusted;
use crate::user;

verus! {

/// The system's owner account of the member a logged message resolves to.
pub open spec fn spec_resolved_owner(db: Db, message_ts: Seq<char>) -> Seq<char> {
    db.spec_system(db.spec_member(db.spec_log(message_ts).member_id@).system_id@).owner_id@
}

/// Maps a previously substituted message back to the member that "sent" it
/// and that member's system. Messages the pipeline never logged resolve to
/// nothing.
pub fn resolve(message_ts: &str, db: &Db) -> (r: Option<(Member, System)>)
    requires
        db.wf(),
    ensures
        r is Some <==> db.has_log(message_ts@),
        r matches Some(p) ==> ({
            &&& p.0 == db.spec_member(db.spec_log(message_ts@).member_id@)
            &&& p.1 == db.spec_system(p.0.system_id@)
        }),
{
    let log = match MessageLog::fetch_by_message_id(message_ts, db) {
        Some(l) => l,
        None => {
            return None;
        },
    };
    proof {
        let w = choose|w: int|
            0 <= w < db.message_logs@.len() && (#[trigger] db.message_logs@[w]).message_id@
                == message_ts@;
        assert(db.has_member(db.message_logs@[w].member_id@));
    }
    let member = match Member::fetch_by_id(log.member_id, db) {
        Some(m) => m,
        None => {
            proof {
                assert(false);
            }
            return None;
        },
    };
    proof {
        let w = choose|w: int|
            0 <= w < db.members@.len() && (#[trigger] db.members@[w]).id@ == log.member_id@;
        assert(db.has_system(db.members@[w].system_id@));
    }
    let system = match member.system_id.fetch(db) {
        Some(s) => s,
        None => {
            proof {
                assert(false);
            }
            return None;
        },
    };
    Some((member, system))
}

/// The outcome of authorizing a follow-up action on a message.
#[derive(Debug)]
pub enum FollowUpAuth {
    /// The message was never substituted: no member sent it.
    NotLogged,
    /// The requester does not own the system the message resolves to; the
    /// action must be rejected with a notice and no state change.
    NotOwner,
    /// The requester owns the resolved system.
    Authorized { member: Member, system: System },
}

/// Resolves a message and checks that the requesting account owns the
/// resolved system. Only an `Authorized` outcome permits any mutation.
pub fn authorize_follow_up(message_ts: &str, requester: &user::Id<Trusted>, db: &Db) -> (r:
    FollowUpAuth)
    requires
        db.wf(),
    ensures
        match r {
            FollowUpAuth::NotLogged => !db.has_log(message_ts@),
            FollowUpAuth::NotOwner => db.has_log(message_ts@) && spec_resolved_owner(
                *db,
                message_ts@,
            ) != requester@,
            FollowUpAuth::Authorized { member, system } => {
                &&& db.has_log(message_ts@)
                &&& member == db.spec_member(db.spec_log(message_ts@).member_id@)
                &&& system == db.spec_system(member.system_id@)
                &&& system.owner_id@ == requester@
            },
        },
{
    match resolve(message_ts, db) {
        None => FollowUpAuth::NotLogged,
        Some((member, system)) => {
            if system.owner_id.same_as(requester) {
                FollowUpAuth::Authorized { member, system }
            } else {
                FollowUpAuth::NotOwner
            }
        },
    }
}

/// The decision for an edit submission.
#[derive(Debug)]
pub enum EditOutcome {
    /// No audit row: nothing to edit, nothing happens.
    NotLogged,
    /// Ownership failed: no content update is made; the requester gets a
    /// rejection notice.
    NotOwner,
    /// Ask the platform to replace the message's content with this text.
    Update { message: String },
}

/// Decides an edit of a logged message. A content update is asked for
/// exactly when the requester owns the resolved system.
pub fn edit(
    view: EditMessageView,
    message_ts: &str,
    requester: &user::Id<Trusted>,
    db: &Db,
) -> (r: EditOutcome)
    requires
        db.wf(),
    ensures
        r matches EditOutcome::Update { message } <==> (db.has_log(message_ts@)
            && spec_resolved_owner(*db, message_ts@) == requester@),
        r matches EditOutcome::Update { message } ==> message == view.message,
        r matches EditOutcome::NotLogged <==> !db.has_log(message_ts@),
{
    match authorize_follow_up(message_ts, requester, db) {
        FollowUpAuth::NotLogged => EditOutcome::NotLogged,
        FollowUpAuth::NotOwner => EditOutcome::NotOwner,
        FollowUpAuth::Authorized { member: _, system: _ } => EditOutcome::Update {
            message: view.message,
        },
    }
}

/// The decision for a delete request on a proxied message.
#[derive(Debug)]
pub enum DeleteOutcome {
    /// No audit row: the message is not ours to delete.
    NotLogged,
    /// Ownership failed: nothing is deleted; the requester gets a notice.
    NotOwner,
    /// Ask the platform to delete the message.
    Delete,
}

/// Decides a delete of a logged message. The deletion is asked for exactly
/// when the requester owns the resolved system. (The audit row itself is
/// purged later, by the platform's deletion notification.)
pub fn delete(message_ts: &str, requester: &user::Id<Trusted>, db: &Db) -> (r: DeleteOutcome)
    requires
        db.wf(),
    ensures
        r matches DeleteOutcome::Delete <==> (db.has_log(message_ts@) && spec_resolved_owner(
            *db,
            message_ts@,
        ) == requester@),
        r matches DeleteOutcome::NotLogged <==> !db.has_log(message_ts@),
{
    match authorize_follow_up(message_ts, requester, db) {
        FollowUpAuth::NotLogged => DeleteOutcome::NotLogged,
        FollowUpAuth::NotOwner => DeleteOutcome::NotOwner,
        FollowUpAuth::Authorized { member: _, system: _ } => DeleteOutcome::Delete,
    }
}

/// Resolves a message for an info request: the member that sent it and its
/// system. Info mutates nothing and needs no ownership.
pub fn info(message_ts: &str, db: &Db) -> (r: Option<(Member, System)>)
    requires
        db.wf(),
    ensures
        r is Some <==> db.has_log(message_ts@),
        r matches Some(p) ==> ({
            &&& p.0 == db.spec_member(db.spec_log(message_ts@).member_id@)
            &&& p.1 == db.spec_system(p.0.system_id@)
        }),
{
    resolve(message_ts, db)
}

/// Whether the message's sender is the requesting account. Reproxying a
/// message that was never substituted is allowed only to its own sender.
pub fn sender_is_requester(sender: &Option<String>, requester: &user::Id<Trusted>) -> (r: bool)
    ensures
        r == (sender matches Some(s) && s@ == requester@),
{
    match sender {
        Some(s) => {
            let id = user::Id::from_authenticated(s.clone());
            id.same_as(requester)
        },
        None => false,
    }
}

/// The decision for a reproxy submission.
#[derive(Debug)]
pub enum ReproxyOutcome {
    /// The form named no member; nothing happens.
    MissingMember,
    /// The requester has no system; nothing happens.
    NoSystem,
    /// The named member is not in the requester's system; nothing happens.
    MemberNotFound,
    /// Re-attribute the message: post its content again as this member,
    /// then delete the original with the owner's credential.
    Reproxy { member: Member, user_token: SlackOauthToken },
}

/// Decides a reproxy: the chosen member reference is verified against the
/// requester's own system, and the re-post runs as that member. No audit
/// row is required: the requester re-attributes a message of their own.
pub fn reproxy(
    member_ref: &MemberRef,
    requester: &user::Id<Trusted>,
    db: &Db,
) -> (r: ReproxyOutcome)
    requires
        db.wf(),
    ensures
        r matches ReproxyOutcome::NoSystem <==> !db.has_system_owned_by(requester@),
        db.has_system_owned_by(requester@) ==> ({
            let sys = db.spec_system_by_owner(requester@);
            match *member_ref {
                MemberRef::Id(id) => {
                    if db.has_member_in_system(id@, sys.id@) {
                        r matches ReproxyOutcome::Reproxy { member, user_token } && member
                            == db.spec_member(id@) && user_token == sys.slack_oauth_token
                    } else {
                        r matches ReproxyOutcome::MemberNotFound
                    }
                },
                MemberRef::Alias(a) => {
                    if db.has_alias_text(a@, sys.id@) {
                        r matches ReproxyOutcome::Reproxy { member, user_token } && member
                            == db.spec_member(db.spec_alias_by_text(a@, sys.id@).member_id@)
                            && user_token == sys.slack_oauth_token
                    } else {
                        r matches ReproxyOutcome::MemberNotFound
                    }
                },
            }
        }),
{
    let system = match System::fetch_by_user_id(requester, db) {
        Some(s) => s,
        None => {
            return ReproxyOutcome::NoSystem;
        },
    };
    let member_id = match member_ref.validate_by_system(system.id, db) {
        Some(id) => id,
        None => {
            return ReproxyOutcome::MemberNotFound;
        },
    };
    proof {
        match member_ref {
            MemberRef::Id(id) => {
                let w = choose|w: int|
                    0 <= w < db.members@.len() && (#[trigger] db.members@[w]).id@ == id@
                        && db.members@[w].system_id@ == system.id@;
                assert(db.has_member(id@));
            },
            MemberRef::Alias(a) => {
                let al = db.spec_alias_by_text(a@, system.id@);
                let w = choose|w: int|
                    0 <= w < db.aliases@.len() && (#[trigger] db.aliases@[w]).alias@ == a@
                        && db.aliases@[w].system_id@ == system.id@;
                db.lemma_alias_index_by_text(w);
                assert(db.has_member_in_system(db.aliases@[w].member_id@, db.aliases@[w].system_id@));
                let v = choose|v: int|
                    0 <= v < db.members@.len() && (#[trigger] db.members@[v]).id@
                        == db.aliases@[w].member_id@ && db.members@[v].system_id@
                        == db.aliases@[w].system_id@;
                assert(db.has_member(member_id@));
            },
        }
    }
    match Member::fetch_by_id(member_id, db) {
        Some(member) => ReproxyOutcome::Reproxy { member, user_token: system.slack_oauth_token },
        None => {
            proof {
                assert(false);
            }
            ReproxyOutcome::MemberNotFound
        },
    }
}

/// What an edit form submission carries.
#[derive(Debug)]
pub struct EditMessageView {
    pub message: String,
}

impl EditMessageView {
    /// Reads the replacement text out of a submitted edit form: the last
    /// `message` field, which must be present with a non-empty value.
    pub fn from_form(fields: &Vec<FormField>) -> (r: Result<EditMessageView, MissingFieldError>)
        ensures
            match r {
                Ok(v) => !has_missing_required(fields@, "message"@, "message"@)
                    && required_present(fields@, "message"@) && last_value(fields@, "message"@)
                    == Some(Some(v.message@)),
                Err(_) => has_missing_required(fields@, "message"@, "message"@)
                    || !required_present(fields@, "message"@),
            },
    {
        let mut message = String::new();
        let n = fields.len();
        let mut i: usize = 0;
        while i < n
            invariant
                0 <= i <= n,
                n == fields@.len(),
                !has_missing_required(fields@.subrange(0, i as int), "message"@, "message"@),
                match last_value(fields@.subrange(0, i as int), "message"@) {
                    None => message@.len() == 0,
                    Some(Some(x)) => message@ == x,
                    Some(None) => false,
                },
            decreases n - i,
        {
            let ghost pre = fields@.subrange(0, i as int);
            let ghost cur = fields@.subrange(0, i + 1);
            proof {
                assert(cur.drop_last() =~= pre);
                assert(cur.last() == fields@[i as int]);
            }
            let f = &fields[i];
            if str_eq(f.id.as_str(), "message") {
                match &f.value {
                    Some(val) => {
                        message = val.clone();
                    },
                    None => {
                        proof {
                            assert(missing_required_at(fields@, i as int, "message"@, "message"@));
                        }
                        return Err(MissingFieldError::new("message".to_owned()));
                    },
                }
            }
            proof {
                assert forall|j: int| !missing_required_at(cur, j, "message"@, "message"@) by {
                    if 0 <= j < i {
                        assert(cur[j] == pre[j]);
                        assert(!missing_required_at(pre, j, "message"@, "message"@));
                    }
                }
            }
            i = i + 1;
        }
        proof {
            assert(fields@.subrange(0, n as int) =~= fields@);
        }
        if message.as_str().unicode_len() == 0 {
            return Err(MissingFieldError::new("message".to_owned()));
        }
        Ok(EditMessageView { message })
    }
}

/// The member a reproxy form ends up naming: the last selected option of
/// its `member` field, read as an integer id.
pub open spec fn spec_reproxy_member(fields: Seq<FormField>) -> Option<i64> {
    match last_selected(fields, "member"@) {
        Some(Some(x)) => spec_parse_i64(x),
        _ => None,
    }
}

/// What a reproxy form submission carries: the chosen member's id.
#[derive(Debug)]
pub struct ReproxyView {
    pub member: Option<i64>,
}

impl ReproxyView {
    /// Reads the chosen member out of a submitted reproxy form. A form
    /// whose selection is missing or does not read as an id is rejected.
    pub fn from_form(fields: &Vec<FormField>) -> (r: Result<ReproxyView, MissingFieldError>)
        ensures
            match r {
                Ok(v) => v.member is Some && v.member == spec_reproxy_member(fields@),
                Err(_) => spec_reproxy_member(fields@) is None,
            },
    {
        let mut member: Option<i64> = None;
        let n = fields.len();
        let mut i: usize = 0;
        while i < n
            invariant
                0 <= i <= n,
                n == fields@.len(),
                member == spec_reproxy_member(fields@.subrange(0, i as int)),
            decreases n - i,
        {
            let ghost pre = fields@.subrange(0, i as int);
            let ghost cur = fields@.subrange(0, i + 1);
            proof {
                assert(cur.drop_last() =~= pre);
                assert(cur.last() == fields@[i as int]);
            }
            let f = &fields[i];
            if str_eq(f.id.as_str(), "member") {
                member = match &f.selected {
                    Some(s) => crate::text::parse_i64(s.as_str()),
                    None => None,
                };
            }
            i = i + 1;
        }
        proof {
            assert(fields@.subrange(0, n as int) =~= fields@);
        }
        match member {
            Some(m) => Ok(ReproxyView { member: Some(m) }),
            None => Err(MissingFieldError::new("member".to_owned())),
        }
    }
}

/// A follow-up action awaiting a form submission. The platform carries it
/// between the request and the submission as an opaque external id string,
/// so the action is written to text and read back, rather than sniffed
/// from string prefixes at each use.
#[derive(Debug)]
pub enum PendingAction {
    /// A member creation form is open.
    CreateMember,
    /// An edit form for this member is open.
    EditMember { member_id: i64 },
    /// An edit form for this logged message is open.
    EditMessage { message_ts: String, channel: String },
    /// A reproxy form for this message is open.
    ReproxyMessage { message_ts: String, channel: String },
}

/// The external id text a pending action is written as. A message id never
/// contains an underscore, so the first underscore after the tag separates
/// it from the channel.
pub open spec fn encodes_to(a: PendingAction, s: Seq<char>) -> bool {
    match a {
        PendingAction::CreateMember => s == "create_member"@,
        PendingAction::EditMember { member_id } => text_starts_with(s, "edit_member_"@)
            && spec_parse_i64(s.subrange("edit_member_"@.len() as int, s.len() as int)) == Some(
            member_id,
        ),
        PendingAction::EditMessage { message_ts, channel } => s == "edit_message_"@ + message_ts@
            + seq!['_'] + channel@,
        PendingAction::ReproxyMessage { message_ts, channel } => s == "reproxy_message_"@
            + message_ts@ + seq!['_'] + channel@,
    }
}

/// What reading an external id back promises, tag by tag.
pub open spec fn parse_post(s: Seq<char>, r: Option<PendingAction>) -> bool {
    &&& (s == "create_member"@ <==> r matches Some(PendingAction::CreateMember))
    &&& (text_starts_with(s, "edit_message_"@) ==> ({
        let rest = s.subrange("edit_message_"@.len() as int, s.len() as int);
        if rest.contains('_') {
            r matches Some(PendingAction::EditMessage { message_ts, channel }) && message_ts@
                + seq!['_'] + channel@ == rest && !message_ts@.contains('_')
        } else {
            r is None
        }
    }))
    &&& (text_starts_with(s, "reproxy_message_"@) ==> ({
        let rest = s.subrange("reproxy_message_"@.len() as int, s.len() as int);
        if rest.contains('_') {
            r matches Some(PendingAction::ReproxyMessage { message_ts, channel }) && message_ts@
                + seq!['_'] + channel@ == rest && !message_ts@.contains('_')
        } else {
            r is None
        }
    }))
    &&& (text_starts_with(s, "edit_member_"@) ==> ({
        let rest = s.subrange("edit_member_"@.len() as int, s.len() as int);
        match spec_parse_i64(rest) {
            Some(v) => r matches Some(PendingAction::EditMember { member_id }) && member_id == v,
            None => r is None,
        }
    }))
    &&& ((s != "create_member"@ && !text_starts_with(s, "edit_message_"@) && !text_starts_with(
        s,
        "reproxy_message_"@,
    ) && !text_starts_with(s, "edit_member_"@)) ==> r is None)
}

/// The external-id tags tell each other apart: no text fits two of them.
proof fn lemma_tags_disjoint(s: Seq<char>)
    ensures
        s == "create_member"@ ==> !text_starts_with(s, "edit_message_"@) && !text_starts_with(
            s,
            "reproxy_message_"@,
        ) && !text_starts_with(s, "edit_member_"@),
        text_starts_with(s, "edit_message_"@) ==> !text_starts_with(s, "reproxy_message_"@)
            && !text_starts_with(s, "edit_member_"@),
        text_starts_with(s, "reproxy_message_"@) ==> !text_starts_with(s, "edit_member_"@),
{
    reveal_strlit("create_member");
    reveal_strlit("edit_message_");
    reveal_strlit("reproxy_message_");
    reveal_strlit("edit_member_");
    if text_starts_with(s, "edit_message_"@) {
        assert(s.subrange(0, 13)[0] == 'e' && s.subrange(0, 13)[7] == 's');
        assert(s[0] == 'e' && s[7] == 's');
    }
    if text_starts_with(s, "reproxy_message_"@) {
        assert(s.subrange(0, 16)[0] == 'r');
        assert(s[0] == 'r');
    }
    if text_starts_with(s, "edit_member_"@) {
        assert(s.subrange(0, 12)[0] == 'e' && s.subrange(0, 12)[7] == 'm');
        assert(s[0] == 'e' && s[7] == 'm');
    }
}

/// Writes a pending action as an external id.
pub fn encode_external_id(a: &PendingAction) -> (r: String)
    ensures
        encodes_to(*a, r@),
{
    proof {
        reveal_strlit("create_member");
        reveal_strlit("edit_message_");
        reveal_strlit("reproxy_message_");
        reveal_strlit("edit_member_");
        reveal_strlit("_");
    }
    match a {
        PendingAction::CreateMember => "create_member".to_owned(),
        PendingAction::EditMember { member_id } => {
            let rendered = render_i64(*member_id);
            let s = "edit_member_".to_owned().concat(rendered.as_str());
            proof {
                assert(s@.subrange(0, 12) =~= "edit_member_"@);
                assert(s@.subrange(12, s@.len() as int) =~= rendered@);
            }
            s
        },
        PendingAction::EditMessage { message_ts, channel } => {
            let s = "edit_message_".to_owned().concat(message_ts.as_str()).concat("_").concat(
                channel.as_str(),
            );
            proof {
                assert(s@ =~= "edit_message_"@ + message_ts@ + seq!['_'] + channel@);
            }
            s
        },
        PendingAction::ReproxyMessage { message_ts, channel } => {
            let s = "reproxy_message_".to_owned().concat(message_ts.as_str()).concat("_").concat(
                channel.as_str(),
            );
            proof {
                assert(s@ =~= "reproxy_message_"@ + message_ts@ + seq!['_'] + channel@);
            }
            s
        },
    }
}

/// Reads an external id back into the pending action it stands for.
/// Unknown or mangled ids read as nothing and are ignored.
pub fn parse_external_id(s: &str) -> (r: Option<PendingAction>)
    ensures
        parse_post(s@, r),
{
    proof {
        lemma_tags_disjoint(s@);
    }
    if str_eq(s, "create_member") {
        proof {
            lemma_tags_disjoint(s@);
        }
        return Some(PendingAction::CreateMember);
    }
    match strip_prefix_string(s, "edit_message_") {
        Some(rest) => {
            return match split_once_char(rest.as_str(), '_') {
                Some((message_ts, channel)) => {
                    proof {
                        assert(rest@.contains('_')) by {
                            assert(rest@[message_ts@.len() as int] == '_');
                        }
                    }
                    Some(PendingAction::EditMessage { message_ts, channel })
                },
                None => None,
            };
        },
        None => {},
    }
    match strip_prefix_string(s, "reproxy_message_") {
        Some(rest) => {
            return match split_once_char(rest.as_str(), '_') {
                Some((message_ts, channel)) => {
                    proof {
                        assert(rest@.contains('_')) by {
                            assert(rest@[message_ts@.len() as int] == '_');
                        }
                    }
                    Some(PendingAction::ReproxyMessage { message_ts, channel })
                },
                None => None,
            };
        },
        None => {},
    }
    match strip_prefix_string(s, "edit_member_") {
        Some(rest) => {
            return match crate::text::parse_i64(rest.as_str()) {
                Some(v) => Some(PendingAction::EditMember { member_id: v }),
                None => None,
            };
        },
        None => {},
    }
    None
}

/// The two actions are the same action, field for field.
pub open spec fn action_like(a: PendingAction, b: PendingAction) -> bool {
    match (a, b) {
        (PendingAction::CreateMember, PendingAction::CreateMember) => true,
        (
            PendingAction::EditMember { member_id: x },
            PendingAction::EditMember { member_id: y },
        ) => x == y,
        (
            PendingAction::EditMessage { message_ts: t1, channel: c1 },
            PendingAction::EditMessage { message_ts: t2, channel: c2 },
        ) => t1@ == t2@ && c1@ == c2@,
        (
            PendingAction::ReproxyMessage { message_ts: t1, channel: c1 },
            PendingAction::ReproxyMessage { message_ts: t2, channel: c2 },
        ) => t1@ == t2@ && c1@ == c2@,
        _ => false,
    }
}

/// Routing is lossless: an external id written for a pending action reads
/// back as that same action. (Platform message ids never contain an
/// underscore, which is what keeps the message id and the channel apart.)
pub proof fn lemma_external_id_round_trip(
    a: PendingAction,
    s: Seq<char>,
    r: Option<PendingAction>,
)
    requires
        encodes_to(a, s),
        parse_post(s, r),
        a matches PendingAction::EditMessage { message_ts, .. } ==> !message_ts@.contains('_'),
        a matches PendingAction::ReproxyMessage { message_ts, .. } ==> !message_ts@.contains('_'),
    ensures
        r matches Some(b) && action_like(a, b),
{
    lemma_tags_disjoint(s);
    match a {
        PendingAction::CreateMember => {
        },
        PendingAction::EditMember { member_id } => {
        },
        PendingAction::EditMessage { message_ts, channel } => {
            assert(text_starts_with(s, "edit_message_"@)) by {
                assert(s.subrange(0, "edit_message_"@.len() as int) =~= "edit_message_"@);
            }
            let rest = s.subrange("edit_message_"@.len() as int, s.len() as int);
            assert(rest =~= message_ts@ + seq!['_'] + channel@);
            assert(rest.contains('_')) by {
                assert(rest[message_ts@.len() as int] == '_');
            }
            match r {
                Some(PendingAction::EditMessage { message_ts: t2, channel: c2 }) => {
                    crate::text::lemma_split_unique(t2@, c2@, message_ts@, channel@, '_');
                },
                _ => {
                    assert(false);
                },
            }
        },
        PendingAction::ReproxyMessage { message_ts, channel } => {
            assert(text_starts_with(s, "reproxy_message_"@)) by {
                assert(s.subrange(0, "reproxy_message_"@.len() as int) =~= "reproxy_message_"@);
            }
            let rest = s.subrange("reproxy_message_"@.len() as int, s.len() as int);
            assert(rest =~= message_ts@ + seq!['_'] + channel@);
            assert(rest.contains('_')) by {
                assert(rest[message_ts@.len() as int] == '_');
            }
            match r {
                Some(PendingAction::ReproxyMessage { message_ts: t2, channel: c2 }) => {
                    crate::text::lemma_split_unique(t2@, c2@, message_ts@, channel@, '_');
                },
                _ => {
                    assert(false);
                },
            }
        },
    }
}

} // verus!
