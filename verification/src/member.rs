//! Members: the named personas an owning account can act as.

use vstd::prelude::*;
use crate::db::Db;
use crate::form::{has_missing_required, last_value, missing_required_at, optional_field_matches,
    required_present, FormField, MissingFieldError};
use crate::system;
use crate::text::str_eq;
use crate::trigger::{trigger_of_member, Trigger, Type};
use crate::trust::{Trustability, Trusted, Untrusted};
use crate::user;

verus! {

/// A member id. For the id to be trusted it must exist in the store and be
/// associated with a trusted system.
#[derive(Debug, Clone, Copy)]
pub struct Id<T: Trustability> {
    id: i64,
    trusted: T,
}

impl<T: Trustability> Id<T> {
    /// The numeric value of the id.
    pub closed spec fn view(self) -> int {
        self.id as int
    }

    /// The numeric value of the id.
    pub fn value(&self) -> (r: i64)
        ensures
            r == self@,
    {
        self.id
    }
}

impl Id<Untrusted> {
    /// Wraps an externally supplied member id.
    pub fn new(id: i64) -> (r: Self)
        ensures
            r@ == id,
    {
        Id { id, trusted: Untrusted }
    }
}

impl Id<Trusted> {
    /// Marks an id as scope-checked. Only the verification procedures and
    /// the store's own insertions may do this.
    pub(crate) fn trusted(id: i64) -> (r: Self)
        ensures
            r@ == id,
    {
        Id { id, trusted: Trusted }
    }
}

impl Id<Untrusted> {
    /// Verifies that this member id exists and belongs to the given system.
    /// This is the only road from an externally supplied member id to a
    /// trusted one scoped by system.
    pub fn validate_by_system(self, system_id: system::Id<Trusted>, db: &Db) -> (r: Option<
        Id<Trusted>,
    >)
        requires
            db.wf(),
        ensures
            r is Some <==> db.has_member_in_system(self@, system_id@),
            r matches Some(t) ==> t@ == self@,
    {
        let v = self.value();
        match db.find_member_index(v) {
            Some(i) => {
                proof {
                    db.lemma_member_index(i as int);
                    db.lemma_member_in_system(self@, system_id@);
                }
                if db.members[i].system_id.value() == system_id.value() {
                    Some(Id::trusted(v))
                } else {
                    None
                }
            },
            None => None,
        }
    }

    /// Verifies that this member id exists and that its system is owned by
    /// the given account.
    pub fn validate_by_user(self, user_id: &user::Id<Trusted>, db: &Db) -> (r: Option<
        Id<Trusted>,
    >)
        requires
            db.wf(),
        ensures
            r is Some <==> db.member_owned_by(self@, user_id@),
            r matches Some(t) ==> t@ == self@,
    {
        let v = self.value();
        match db.find_member_index(v) {
            Some(i) => {
                proof {
                    db.lemma_member_index(i as int);
                }
                let sid = db.members[i].system_id.value();
                match db.find_system_index(sid) {
                    Some(s) => {
                        proof {
                            db.lemma_system_index(s as int);
                        }
                        if db.systems[s].owner_id.same_as(user_id) {
                            Some(Id::trusted(v))
                        } else {
                            None
                        }
                    },
                    None => None,
                }
            },
            None => None,
        }
    }

    /// Resolves an alias to the trusted id of the member it names within
    /// the given system.
    pub fn fetch_by_alias(alias_text: &str, system_id: system::Id<Trusted>, db: &Db) -> (r: Option<
        Id<Trusted>,
    >)
        requires
            db.wf(),
        ensures
            r is Some <==> db.has_alias_text(alias_text@, system_id@),
            r matches Some(t) ==> t@ == db.spec_alias_by_text(alias_text@, system_id@).member_id@,
    {
        match db.find_alias_index_by_text(alias_text, system_id.value()) {
            Some(i) => {
                proof {
                    db.lemma_alias_index_by_text(i as int);
                }
                Some(Id::trusted(db.aliases[i].member_id.value()))
            },
            None => None,
        }
    }
}

impl Id<Trusted> {
    /// The full member record behind this id.
    pub fn fetch(self, db: &Db) -> (r: Option<Member>)
        requires
            db.wf(),
        ensures
            r is Some <==> db.has_member(self@),
            r matches Some(m) ==> m == db.spec_member(self@),
    {
        Member::fetch_by_id(self, db)
    }

    /// Whether the member behind this id is enabled.
    pub fn enabled(self, db: &Db) -> (r: Option<bool>)
        requires
            db.wf(),
        ensures
            r is Some <==> db.has_member(self@),
            r matches Some(b) ==> b == db.spec_member(self@).enabled,
    {
        match db.find_member_index(self.value()) {
            Some(i) => {
                proof {
                    db.lemma_member_index(i as int);
                }
                Some(db.members[i].enabled)
            },
            None => None,
        }
    }

    /// All triggers of this member.
    pub fn fetch_triggers(self, db: &Db) -> (r: Vec<Trigger>)
        ensures
            r@ == db.triggers@.filter(trigger_of_member(self@)),
    {
        Trigger::fetch_by_member_id(self, db)
    }
}

/// A member record: one persona of a system.
#[derive(Debug)]
pub struct Member {
    pub id: Id<Trusted>,
    pub system_id: system::Id<Trusted>,
    /// The display name shown on proxied messages.
    pub display_name: String,
    pub full_name: String,
    /// Profile picture to use on proxied messages.
    pub profile_picture_url: Option<String>,
    pub title: Option<String>,
    pub pronouns: Option<String>,
    pub name_pronunciation: Option<String>,
    pub name_recording_url: Option<String>,
    /// A disabled member is never selected by the trigger matcher and
    /// cannot be addressed by reference.
    pub enabled: bool,
    pub created_at: i64,
}

impl Member {
    /// The member record behind a trusted id, when the row still exists.
    pub fn fetch_by_id(member_id: Id<Trusted>, db: &Db) -> (r: Option<Member>)
        requires
            db.wf(),
        ensures
            r is Some <==> db.has_member(member_id@),
            r matches Some(m) ==> m == db.spec_member(member_id@),
    {
        match db.find_member_index(member_id.value()) {
            Some(i) => {
                proof {
                    db.lemma_member_index(i as int);
                }
                Some(db.members[i].dup())
            },
            None => None,
        }
    }

    /// A field-for-field copy of the record.
    pub fn dup(&self) -> (r: Member)
        ensures
            r == *self,
    {
        Member {
            id: self.id,
            system_id: self.system_id,
            display_name: self.display_name.clone(),
            full_name: self.full_name.clone(),
            profile_picture_url: clone_opt_string(&self.profile_picture_url),
            title: clone_opt_string(&self.title),
            pronouns: clone_opt_string(&self.pronouns),
            name_pronunciation: clone_opt_string(&self.name_pronunciation),
            name_recording_url: clone_opt_string(&self.name_recording_url),
            enabled: self.enabled,
            created_at: self.created_at,
        }
    }
}

/// All information required to post a message as a member, together with
/// the trigger that selected it.
#[derive(Debug)]
pub struct TriggeredMember {
    pub id: Id<Trusted>,
    pub display_name: String,
    pub profile_picture_url: Option<String>,
    /// The trigger text that was matched; empty when the member was chosen
    /// as the currently fronting member rather than by a trigger.
    pub trigger_text: String,
    pub typ: Type,
}

impl TriggeredMember {
    /// A fronting member carries no trigger text, so rewriting under it
    /// leaves content unchanged.
    pub fn from_member(value: &Member) -> (r: TriggeredMember)
        ensures
            r.id == value.id,
            r.display_name@ == value.display_name@,
            r.profile_picture_url == value.profile_picture_url,
            r.trigger_text@ == Seq::<char>::empty(),
            r.typ == Type::Prefix,
    {
        TriggeredMember {
            id: value.id,
            display_name: value.display_name.clone(),
            profile_picture_url: clone_opt_string(&value.profile_picture_url),
            trigger_text: String::new(),
            typ: Type::Prefix,
        }
    }
}

/// The rows belonging to one system.
pub open spec fn member_of_system(system_id: int) -> spec_fn(Member) -> bool {
    |m: Member| m.system_id@ == system_id
}

/// A copy of an optional string with the same view.
pub fn clone_opt_string(s: &Option<String>) -> (r: Option<String>)
    ensures
        r == s,
{
    match s {
        Some(v) => Some(v.clone()),
        None => None,
    }
}

impl Id<Trusted> {
    /// Writes the enabled flag of the member behind this id. Returns the
    /// number of rows changed: none when the row is gone.
    pub fn set_enabled(self, enabled: bool, db: &mut Db) -> (rows: usize)
        requires
            old(db).wf(),
        ensures
            final(db).wf(),
            !old(db).has_member(self@) ==> rows == 0 && *final(db) == *old(db),
            old(db).has_member(self@) ==> ({
                let i = old(db).member_index(self@);
                let old_m = old(db).members@[i];
                let new_m = final(db).members@[i];
                &&& rows == 1
                &&& final(db).members@ == old(db).members@.update(i, new_m)
                &&& new_m == Member { enabled, ..old_m }
            }),
            final(db).systems == old(db).systems,
            final(db).triggers == old(db).triggers,
            final(db).aliases == old(db).aliases,
            final(db).message_logs == old(db).message_logs,
            final(db).next_system_id == old(db).next_system_id,
            final(db).next_member_id == old(db).next_member_id,
            final(db).next_trigger_id == old(db).next_trigger_id,
            final(db).next_alias_id == old(db).next_alias_id,
            final(db).next_log_id == old(db).next_log_id,
    {
        match db.find_member_index(self.value()) {
            Some(i) => {
                proof {
                    db.lemma_member_index(i as int);
                }
                let mut row = db.members[i].dup();
                row.enabled = enabled;
                db.members[i] = row;
                proof {
                    lemma_member_rewrite_wf(*old(db), *db, i as int);
                }
                1
            },
            None => 0,
        }
    }
}

/// Rewriting one member row, keeping its id and system, keeps the store
/// well-formed.
proof fn lemma_member_rewrite_wf(pre: Db, post: Db, i: int)
    requires
        pre.wf(),
        0 <= i < pre.members@.len(),
        post.members@.len() == pre.members@.len(),
        post.members@ == pre.members@.update(i, post.members@[i]),
        post.members@[i].id == pre.members@[i].id,
        post.members@[i].system_id == pre.members@[i].system_id,
        post.systems == pre.systems,
        post.triggers == pre.triggers,
        post.aliases == pre.aliases,
        post.message_logs == pre.message_logs,
        post.next_system_id == pre.next_system_id,
        post.next_member_id == pre.next_member_id,
        post.next_trigger_id == pre.next_trigger_id,
        post.next_alias_id == pre.next_alias_id,
        post.next_log_id == pre.next_log_id,
    ensures
        post.wf(),
        forall|m: int, s: int|
            #[trigger] post.has_member_in_system(m, s) <==> pre.has_member_in_system(m, s),
{
    let olds = pre.members@;
    let news = post.members@;
    assert forall|a: int| 0 <= a < news.len() implies (#[trigger] news[a]).id@ == olds[a].id@
        && news[a].system_id@ == olds[a].system_id@ && news[a].id@ < post.next_member_id
        && post.has_system(news[a].system_id@) by {
        if a != i {
            assert(news[a] == olds[a]);
        }
        assert(pre.has_system(olds[a].system_id@));
    }
    assert forall|a: int, b: int|
        #![trigger news[a], news[b]]
        0 <= a < b < news.len() implies news[a].id@ != news[b].id@ by {
        assert(news[a].id@ == olds[a].id@ && news[b].id@ == olds[b].id@);
    }
    assert forall|m: int, s: int| #[trigger]
        post.has_member_in_system(m, s) <==> pre.has_member_in_system(m, s) by {
        if pre.has_member_in_system(m, s) {
            let w = choose|w: int|
                0 <= w < olds.len() && (#[trigger] olds[w]).id@ == m && olds[w].system_id@ == s;
            assert(news[w].id@ == m && news[w].system_id@ == s);
        }
        if post.has_member_in_system(m, s) {
            let w = choose|w: int|
                0 <= w < news.len() && (#[trigger] news[w]).id@ == m && news[w].system_id@ == s;
            assert(olds[w].id@ == m && olds[w].system_id@ == s);
        }
    }
    assert forall|a: int| 0 <= a < post.systems@.len() implies match (
    #[trigger] post.systems@[a]).currently_fronting_member_id {
        Some(m) => post.has_member_in_system(m@, post.systems@[a].id@),
        None => true,
    } by {
        assert(match pre.systems@[a].currently_fronting_member_id {
            Some(m) => pre.has_member_in_system(m@, pre.systems@[a].id@),
            None => true,
        });
    }
    assert forall|a: int| 0 <= a < post.triggers@.len() implies post.has_member_in_system(
        (#[trigger] post.triggers@[a]).member_id@,
        post.triggers@[a].system_id@,
    ) by {
        assert(pre.has_member_in_system(pre.triggers@[a].member_id@, pre.triggers@[a].system_id@));
    }
    assert forall|a: int| 0 <= a < post.aliases@.len() implies post.has_member_in_system(
        (#[trigger] post.aliases@[a]).member_id@,
        post.aliases@[a].system_id@,
    ) by {
        assert(pre.has_member_in_system(pre.aliases@[a].member_id@, pre.aliases@[a].system_id@));
    }
    assert forall|a: int| 0 <= a < post.message_logs@.len() implies post.has_member(
        (#[trigger] post.message_logs@[a]).member_id@,
    ) by {
        assert(pre.has_member(pre.message_logs@[a].member_id@));
        let w = choose|w: int|
            0 <= w < olds.len() && (#[trigger] olds[w]).id@ == post.message_logs@[a].member_id@;
        assert(news[w].id@ == olds[w].id@);
    }
}

/// The editable profile fields of a member, as a creation or edit form
/// carries them. Everything but the two names is optional.
#[derive(Debug)]
pub struct MemberView {
    pub full_name: String,
    pub display_name: String,
    pub profile_picture_url: Option<String>,
    pub title: Option<String>,
    pub pronouns: Option<String>,
    pub name_pronunciation: Option<String>,
    pub name_recording_url: Option<String>,
}

impl MemberView {
    /// The profile fields of an existing record, ready for an edit form.
    pub fn from_member(value: &Member) -> (r: MemberView)
        ensures
            r.full_name == value.full_name,
            r.display_name == value.display_name,
            r.profile_picture_url == value.profile_picture_url,
            r.title == value.title,
            r.pronouns == value.pronouns,
            r.name_pronunciation == value.name_pronunciation,
            r.name_recording_url == value.name_recording_url,
    {
        MemberView {
            full_name: value.full_name.clone(),
            display_name: value.display_name.clone(),
            profile_picture_url: clone_opt_string(&value.profile_picture_url),
            title: clone_opt_string(&value.title),
            pronouns: clone_opt_string(&value.pronouns),
            name_pronunciation: clone_opt_string(&value.name_pronunciation),
            name_recording_url: clone_opt_string(&value.name_recording_url),
        }
    }

    /// Adds a member with this profile to an existing system. New members
    /// start enabled. Returns the id of the new row.
    pub fn add(&self, system_id: system::Id<Trusted>, created_at: i64, db: &mut Db) -> (r: i64)
        requires
            old(db).wf(),
            old(db).has_system(system_id@),
            old(db).next_member_id < i64::MAX,
        ensures
            final(db).wf(),
            r == old(db).next_member_id,
            ({
                let new_m = final(db).members@.last();
                &&& final(db).members@ == old(db).members@.push(new_m)
                &&& new_m.id@ == r
                &&& new_m.system_id == system_id
                &&& new_m.full_name == self.full_name
                &&& new_m.display_name == self.display_name
                &&& new_m.profile_picture_url == self.profile_picture_url
                &&& new_m.title == self.title
                &&& new_m.pronouns == self.pronouns
                &&& new_m.name_pronunciation == self.name_pronunciation
                &&& new_m.name_recording_url == self.name_recording_url
                &&& new_m.enabled == true
                &&& new_m.created_at == created_at
            }),
            final(db).has_member_in_system(r as int, system_id@),
            final(db).next_member_id == old(db).next_member_id + 1,
            final(db).systems == old(db).systems,
            final(db).triggers == old(db).triggers,
            final(db).aliases == old(db).aliases,
            final(db).message_logs == old(db).message_logs,
            final(db).next_system_id == old(db).next_system_id,
            final(db).next_trigger_id == old(db).next_trigger_id,
            final(db).next_alias_id == old(db).next_alias_id,
            final(db).next_log_id == old(db).next_log_id,
    {
        let id = db.next_member_id;
        let row = Member {
            id: Id::trusted(id),
            system_id,
            display_name: self.display_name.clone(),
            full_name: self.full_name.clone(),
            profile_picture_url: clone_opt_string(&self.profile_picture_url),
            title: clone_opt_string(&self.title),
            pronouns: clone_opt_string(&self.pronouns),
            name_pronunciation: clone_opt_string(&self.name_pronunciation),
            name_recording_url: clone_opt_string(&self.name_recording_url),
            enabled: true,
            created_at,
        };
        db.members.push(row);
        db.next_member_id = id + 1;
        proof {
            let olds = old(db).members@;
            let news = db.members@;
            assert forall|a: int| 0 <= a < news.len() implies (#[trigger] news[a]).id@
                < db.next_member_id && db.has_system(news[a].system_id@) by {
                if a < news.len() - 1 {
                    assert(news[a] == olds[a]);
                    assert(old(db).has_system(olds[a].system_id@));
                }
            }
            assert forall|a: int, b: int|
                #![trigger news[a], news[b]]
                0 <= a < b < news.len() implies news[a].id@ != news[b].id@ by {
                if b < news.len() - 1 {
                    assert(news[a] == olds[a] && news[b] == olds[b]);
                } else {
                    assert(news[a] == olds[a]);
                    assert(news[a].id@ < old(db).next_member_id);
                }
            }
            assert forall|a: int| 0 <= a < db.systems@.len() implies match (
            #[trigger] db.systems@[a]).currently_fronting_member_id {
                Some(m) => db.has_member_in_system(m@, db.systems@[a].id@),
                None => true,
            } by {
                match old(db).systems@[a].currently_fronting_member_id {
                    Some(m) => {
                        assert(old(db).has_member_in_system(m@, old(db).systems@[a].id@));
                        let w = choose|w: int|
                            0 <= w < olds.len() && (#[trigger] olds[w]).id@ == m@
                                && olds[w].system_id@ == old(db).systems@[a].id@;
                        assert(news[w] == olds[w]);
                    },
                    None => {},
                }
            }
            assert forall|a: int| 0 <= a < db.triggers@.len() implies db.has_member_in_system(
                (#[trigger] db.triggers@[a]).member_id@,
                db.triggers@[a].system_id@,
            ) by {
                assert(old(db).has_member_in_system(
                    old(db).triggers@[a].member_id@,
                    old(db).triggers@[a].system_id@,
                ));
                let w = choose|w: int|
                    0 <= w < olds.len() && (#[trigger] olds[w]).id@ == db.triggers@[a].member_id@
                        && olds[w].system_id@ == db.triggers@[a].system_id@;
                assert(news[w] == olds[w]);
            }
            assert forall|a: int| 0 <= a < db.aliases@.len() implies db.has_member_in_system(
                (#[trigger] db.aliases@[a]).member_id@,
                db.aliases@[a].system_id@,
            ) by {
                assert(old(db).has_member_in_system(
                    old(db).aliases@[a].member_id@,
                    old(db).aliases@[a].system_id@,
                ));
                let w = choose|w: int|
                    0 <= w < olds.len() && (#[trigger] olds[w]).id@ == db.aliases@[a].member_id@
                        && olds[w].system_id@ == db.aliases@[a].system_id@;
                assert(news[w] == olds[w]);
            }
            assert forall|a: int| 0 <= a < db.message_logs@.len() implies db.has_member(
                (#[trigger] db.message_logs@[a]).member_id@,
            ) by {
                assert(old(db).has_member(old(db).message_logs@[a].member_id@));
                let w = choose|w: int|
                    0 <= w < olds.len() && (#[trigger] olds[w]).id@
                        == db.message_logs@[a].member_id@;
                assert(news[w] == olds[w]);
            }
            assert(news[news.len() - 1].id@ == id && news[news.len() - 1].system_id@
                == system_id@);
        }
        id
    }

    /// Reads a member profile out of a submitted form. A required field
    /// submitted without a value, or missing or empty at the end, rejects
    /// the submission before any side effect; later fields overwrite
    /// earlier ones; unknown fields are ignored.
    pub fn from_form(fields: &Vec<FormField>) -> (r: Result<MemberView, MissingFieldError>)
        ensures
            match r {
                Ok(v) => {
                    &&& !has_missing_required(fields@, "full_name"@, "display_name"@)
                    &&& required_present(fields@, "full_name"@)
                    &&& last_value(fields@, "full_name"@) == Some(Some(v.full_name@))
                    &&& required_present(fields@, "display_name"@)
                    &&& last_value(fields@, "display_name"@) == Some(Some(v.display_name@))
                    &&& optional_field_matches(
                        last_value(fields@, "profile_picture_url"@),
                        v.profile_picture_url,
                    )
                    &&& optional_field_matches(last_value(fields@, "title"@), v.title)
                    &&& optional_field_matches(last_value(fields@, "pronouns"@), v.pronouns)
                    &&& optional_field_matches(
                        last_value(fields@, "name_pronunciation"@),
                        v.name_pronunciation,
                    )
                    &&& optional_field_matches(
                        last_value(fields@, "name_recording_url"@),
                        v.name_recording_url,
                    )
                },
                Err(_) => has_missing_required(fields@, "full_name"@, "display_name"@)
                    || !required_present(fields@, "full_name"@) || !required_present(
                    fields@,
                    "display_name"@,
                ),
            },
    {
        let mut v = MemberView {
            full_name: String::new(),
            display_name: String::new(),
            profile_picture_url: None,
            title: None,
            pronouns: None,
            name_pronunciation: None,
            name_recording_url: None,
        };
        let n = fields.len();
        let mut i: usize = 0;
        while i < n
            invariant
                0 <= i <= n,
                n == fields@.len(),
                !has_missing_required(
                    fields@.subrange(0, i as int),
                    "full_name"@,
                    "display_name"@,
                ),
                match last_value(fields@.subrange(0, i as int), "full_name"@) {
                    None => v.full_name@.len() == 0,
                    Some(Some(x)) => v.full_name@ == x,
                    Some(None) => false,
                },
                match last_value(fields@.subrange(0, i as int), "display_name"@) {
                    None => v.display_name@.len() == 0,
                    Some(Some(x)) => v.display_name@ == x,
                    Some(None) => false,
                },
                optional_field_matches(
                    last_value(fields@.subrange(0, i as int), "profile_picture_url"@),
                    v.profile_picture_url,
                ),
                optional_field_matches(
                    last_value(fields@.subrange(0, i as int), "title"@),
                    v.title,
                ),
                optional_field_matches(
                    last_value(fields@.subrange(0, i as int), "pronouns"@),
                    v.pronouns,
                ),
                optional_field_matches(
                    last_value(fields@.subrange(0, i as int), "name_pronunciation"@),
                    v.name_pronunciation,
                ),
                optional_field_matches(
                    last_value(fields@.subrange(0, i as int), "name_recording_url"@),
                    v.name_recording_url,
                ),
            decreases n - i,
        {
            let ghost pre = fields@.subrange(0, i as int);
            let ghost cur = fields@.subrange(0, i + 1);
            proof {
                assert(cur.drop_last() =~= pre);
                assert(cur.last() == fields@[i as int]);
                reveal_strlit("full_name");
                reveal_strlit("display_name");
                reveal_strlit("profile_picture_url");
                reveal_strlit("title");
                reveal_strlit("pronouns");
                reveal_strlit("name_pronunciation");
                reveal_strlit("name_recording_url");
                assert("full_name"@.len() == 9);
                assert("display_name"@.len() == 12);
                assert("profile_picture_url"@.len() == 19);
                assert("title"@.len() == 5);
                assert("pronouns"@.len() == 8);
                assert("name_pronunciation"@.len() == 18);
                assert("name_recording_url"@.len() == 18);
                assert("name_pronunciation"@[5] == 'p' && "name_recording_url"@[5] == 'r');
            }
            let f = &fields[i];
            if str_eq(f.id.as_str(), "full_name") {
                match &f.value {
                    Some(val) => {
                        v.full_name = val.clone();
                    },
                    None => {
                        proof {
                            assert(missing_required_at(
                                fields@,
                                i as int,
                                "full_name"@,
                                "display_name"@,
                            ));
                        }
                        return Err(MissingFieldError::new("full_name".to_owned()));
                    },
                }
            } else if str_eq(f.id.as_str(), "display_name") {
                match &f.value {
                    Some(val) => {
                        v.display_name = val.clone();
                    },
                    None => {
                        proof {
                            assert(missing_required_at(
                                fields@,
                                i as int,
                                "full_name"@,
                                "display_name"@,
                            ));
                        }
                        return Err(MissingFieldError::new("display_name".to_owned()));
                    },
                }
            } else if str_eq(f.id.as_str(), "profile_picture_url") {
                v.profile_picture_url = clone_opt_string(&f.value);
            } else if str_eq(f.id.as_str(), "title") {
                v.title = clone_opt_string(&f.value);
            } else if str_eq(f.id.as_str(), "pronouns") {
                v.pronouns = clone_opt_string(&f.value);
            } else if str_eq(f.id.as_str(), "name_pronunciation") {
                v.name_pronunciation = clone_opt_string(&f.value);
            } else if str_eq(f.id.as_str(), "name_recording_url") {
                v.name_recording_url = clone_opt_string(&f.value);
            }
            proof {
                assert forall|j: int|
                    !missing_required_at(cur, j, "full_name"@, "display_name"@) by {
                    if 0 <= j < i {
                        assert(cur[j] == pre[j]);
                        assert(!missing_required_at(pre, j, "full_name"@, "display_name"@));
                    }
                }
            }
            i = i + 1;
        }
        proof {
            assert(fields@.subrange(0, n as int) =~= fields@);
        }
        if v.full_name.as_str().unicode_len() == 0 {
            return Err(MissingFieldError::new("full_name".to_owned()));
        }
        if v.display_name.as_str().unicode_len() == 0 {
            return Err(MissingFieldError::new("display_name".to_owned()));
        }
        Ok(v)
    }

    /// Rewrites the profile fields of an existing member to match this
    /// form, leaving its enabled flag and creation time alone. Returns the
    /// number of rows changed: none when the row is gone.
    pub fn update(&self, member_id: Id<Trusted>, db: &mut Db) -> (rows: usize)
        requires
            old(db).wf(),
        ensures
            final(db).wf(),
            !old(db).has_member(member_id@) ==> rows == 0 && *final(db) == *old(db),
            old(db).has_member(member_id@) ==> ({
                let i = old(db).member_index(member_id@);
                let old_m = old(db).members@[i];
                let new_m = final(db).members@[i];
                &&& rows == 1
                &&& final(db).members@ == old(db).members@.update(i, new_m)
                &&& new_m.id == old_m.id
                &&& new_m.system_id == old_m.system_id
                &&& new_m.enabled == old_m.enabled
                &&& new_m.created_at == old_m.created_at
                &&& new_m.full_name == self.full_name
                &&& new_m.display_name == self.display_name
                &&& new_m.profile_picture_url == self.profile_picture_url
                &&& new_m.title == self.title
                &&& new_m.pronouns == self.pronouns
                &&& new_m.name_pronunciation == self.name_pronunciation
                &&& new_m.name_recording_url == self.name_recording_url
            }),
            final(db).systems == old(db).systems,
            final(db).triggers == old(db).triggers,
            final(db).aliases == old(db).aliases,
            final(db).message_logs == old(db).message_logs,
            final(db).next_system_id == old(db).next_system_id,
            final(db).next_member_id == old(db).next_member_id,
            final(db).next_trigger_id == old(db).next_trigger_id,
            final(db).next_alias_id == old(db).next_alias_id,
            final(db).next_log_id == old(db).next_log_id,
    {
        match db.find_member_index(member_id.value()) {
            Some(i) => {
                proof {
                    db.lemma_member_index(i as int);
                }
                let row = Member {
                    id: db.members[i].id,
                    system_id: db.members[i].system_id,
                    display_name: self.display_name.clone(),
                    full_name: self.full_name.clone(),
                    profile_picture_url: clone_opt_string(&self.profile_picture_url),
                    title: clone_opt_string(&self.title),
                    pronouns: clone_opt_string(&self.pronouns),
                    name_pronunciation: clone_opt_string(&self.name_pronunciation),
                    name_recording_url: clone_opt_string(&self.name_recording_url),
                    enabled: db.members[i].enabled,
                    created_at: db.members[i].created_at,
                };
                db.members[i] = row;
                proof {
                    lemma_member_rewrite_wf(*old(db), *db, i as int);
                }
                1
            },
            None => 0,
        }
    }
}

/// An untrusted member reference from an external source: either an id or
/// an alias.
#[derive(Debug)]
pub enum MemberRef {
    Id(Id<Untrusted>),
    Alias(String),
}

impl MemberRef {
    /// Input that parses as an integer is a candidate id; anything else is
    /// an alias (aliases are never pure integers, so the two cannot be
    /// confused).
    pub fn from_text(s: &str) -> (r: MemberRef)
        ensures
            match crate::text::spec_parse_i64(s@) {
                Some(v) => r matches MemberRef::Id(id) && id@ == v,
                None => r matches MemberRef::Alias(a) && a@ == s@,
            },
    {
        match crate::text::parse_i64(s) {
            Some(v) => MemberRef::Id(Id::new(v)),
            None => MemberRef::Alias(s.to_owned()),
        }
    }

    /// Verifies the reference against a system: an id is checked for
    /// membership, an alias is looked up in that system. Both roads end in
    /// the same scope check.
    pub fn validate_by_system(&self, system_id: system::Id<Trusted>, db: &Db) -> (r: Option<
        Id<Trusted>,
    >)
        requires
            db.wf(),
        ensures
            match *self {
                MemberRef::Id(id) => (r is Some <==> db.has_member_in_system(id@, system_id@)) && (
                r matches Some(t) ==> t@ == id@),
                MemberRef::Alias(a) => (r is Some <==> db.has_alias_text(a@, system_id@)) && (
                r matches Some(t) ==> t@ == db.spec_alias_by_text(a@, system_id@).member_id@),
            },
    {
        match self {
            MemberRef::Id(id) => (*id).validate_by_system(system_id, db),
            MemberRef::Alias(a) => Id::fetch_by_alias(a.as_str(), system_id, db),
        }
    }
}

} // verus!
