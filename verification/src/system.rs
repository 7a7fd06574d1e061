//! Systems: one per owning account, each a collection of members.

use vstd::prelude::*;
use crate::db::Db;
use crate::member;
use crate::member::{clone_opt_string, Member, TriggeredMember};
use crate::text::{str_ends_with, str_starts_with, text_ends_with, text_starts_with};
use crate::trigger::{Trigger, Type};
use crate::trust::{Trustability, Trusted, Untrusted};
use crate::user;

verus! {

/// A system id. For the id to be trusted it must exist in the store and be
/// associated with a valid owning account.
#[derive(Debug, Clone, Copy)]
pub struct Id<T: Trustability> {
    id: i64,
    trusted: T,
}

impl<T: Trustability> Id<T> {
    /// The numeric value of the id.
    pub closed spec fn view(self) -> int {
        self.id as int
    }

    /// The numeric value of the id.
    pub fn value(&self) -> (r: i64)
        ensures
            r == self@,
    {
        self.id
    }
}

impl Id<Untrusted> {
    /// Wraps an externally supplied system id.
    pub fn new(id: i64) -> (r: Self)
        ensures
            r@ == id,
    {
        Id { id, trusted: Untrusted }
    }
}

impl Id<Trusted> {
    pub(crate) fn trusted(id: i64) -> (r: Self)
        ensures
            r@ == id,
    {
        Id { id, trusted: Trusted }
    }
}

/// The platform credential a system's owner granted the bot, used to act
/// as the owner when deleting the original message. It is kept behind an
/// explicit `expose` call so that no code hands it around by accident.
#[derive(Debug)]
pub struct SlackOauthToken {
    token: String,
}

impl SlackOauthToken {
    /// The character view of the secret.
    pub closed spec fn view(self) -> Seq<char> {
        self.token@
    }

    /// Wraps a freshly granted credential.
    pub fn new(token: String) -> (r: Self)
        ensures
            r@ == token@,
    {
        SlackOauthToken { token }
    }

    /// The secret itself, for handing to the platform client.
    pub fn expose(&self) -> (r: &str)
        ensures
            r@ == self@,
    {
        self.token.as_str()
    }

    /// An identical copy of the credential.
    pub fn dup(&self) -> (r: Self)
        ensures
            r == *self,
    {
        SlackOauthToken { token: self.token.clone() }
    }
}

/// A plural system.
///
/// A system has one owner and many members. The owner is the platform
/// account that created the system. A system may have a currently fronting
/// member: messages without a matching trigger are proxied as that member.
#[derive(Debug)]
pub struct System {
    pub id: Id<Trusted>,
    pub owner_id: user::Id<Trusted>,
    /// The currently fronting member, if any.
    pub currently_fronting_member_id: Option<member::Id<Trusted>>,
    /// Whether a trigger match moves the fronting pointer to the matched
    /// member.
    pub auto_switch_on_trigger: bool,
    pub slack_oauth_token: SlackOauthToken,
    pub created_at: i64,
}

impl Id<Trusted> {
    /// All triggers of this system.
    pub fn list_triggers(self, db: &Db) -> (r: Vec<Trigger>)
        ensures
            r@ == db.triggers@.filter(crate::trigger::trigger_of_system(self@)),
    {
        Trigger::fetch_by_system_id(self, db)
    }

    /// The full system record behind this id.
    pub fn fetch(self, db: &Db) -> (r: Option<System>)
        requires
            db.wf(),
        ensures
            r is Some <==> db.has_system(self@),
            r matches Some(s) ==> s == db.spec_system(self@),
    {
        match db.find_system_index(self.value()) {
            Some(i) => {
                proof {
                    db.lemma_system_index(i as int);
                }
                Some(db.systems[i].dup())
            },
            None => None,
        }
    }

    /// The system's fronting pointer. Systems are never deleted, so a
    /// trusted id always has its row.
    pub fn currently_fronting_member_id(&self, db: &Db) -> (r: Option<member::Id<Trusted>>)
        requires
            db.wf(),
            db.has_system(self@),
        ensures
            r == db.spec_system(self@).currently_fronting_member_id,
    {
        match db.find_system_index(self.value()) {
            Some(i) => {
                proof {
                    db.lemma_system_index(i as int);
                }
                db.systems[i].currently_fronting_member_id
            },
            None => {
                proof {
                    assert(false);
                }
                None
            },
        }
    }

    /// Writes whether a trigger match moves the fronting pointer to the
    /// matched member.
    pub fn set_auto_switch(self, value: bool, db: &mut Db)
        requires
            old(db).wf(),
            old(db).has_system(self@),
        ensures
            final(db).wf(),
            final(db).systems@ == old(db).systems@.update(
                old(db).system_index(self@),
                final(db).systems@[old(db).system_index(self@)],
            ),
            ({
                let i = old(db).system_index(self@);
                let old_s = old(db).systems@[i];
                let new_s = final(db).systems@[i];
                &&& new_s.auto_switch_on_trigger == value
                &&& new_s.id == old_s.id
                &&& new_s.owner_id == old_s.owner_id
                &&& new_s.currently_fronting_member_id == old_s.currently_fronting_member_id
                &&& new_s.slack_oauth_token == old_s.slack_oauth_token
                &&& new_s.created_at == old_s.created_at
            }),
            final(db).members == old(db).members,
            final(db).triggers == old(db).triggers,
            final(db).aliases == old(db).aliases,
            final(db).message_logs == old(db).message_logs,
            final(db).next_system_id == old(db).next_system_id,
            final(db).next_member_id == old(db).next_member_id,
            final(db).next_trigger_id == old(db).next_trigger_id,
            final(db).next_alias_id == old(db).next_alias_id,
            final(db).next_log_id == old(db).next_log_id,
    {
        let i = match db.find_system_index(self.value()) {
            Some(i) => i,
            None => {
                proof {
                    assert(false);
                }
                0
            },
        };
        proof {
            db.lemma_system_index(i as int);
        }
        let row = System {
            id: db.systems[i].id,
            owner_id: db.systems[i].owner_id.dup(),
            currently_fronting_member_id: db.systems[i].currently_fronting_member_id,
            auto_switch_on_trigger: value,
            slack_oauth_token: db.systems[i].slack_oauth_token.dup(),
            created_at: db.systems[i].created_at,
        };
        db.systems[i] = row;
        proof {
            lemma_system_rewrite_wf(*old(db), *db, i as int);
        }
    }

    /// The fronting state machine's one transition: `None` moves to no
    /// fronting member, `Some(id)` moves to fronting a verified member of
    /// this system. The change is persisted at once; the resolved member
    /// record comes back for confirmation.
    pub fn change_fronting_member(
        self,
        new_active_member_id: Option<member::Id<Trusted>>,
        db: &mut Db,
    ) -> (r: Option<Member>)
        requires
            old(db).wf(),
            old(db).has_system(self@),
            new_active_member_id matches Some(m) ==> old(db).has_member_in_system(m@, self@),
        ensures
            final(db).wf(),
            final(db).systems@ == old(db).systems@.update(
                old(db).system_index(self@),
                final(db).systems@[old(db).system_index(self@)],
            ),
            ({
                let i = old(db).system_index(self@);
                let old_s = old(db).systems@[i];
                let new_s = final(db).systems@[i];
                &&& new_s.currently_fronting_member_id == new_active_member_id
                &&& new_s.id == old_s.id
                &&& new_s.owner_id == old_s.owner_id
                &&& new_s.auto_switch_on_trigger == old_s.auto_switch_on_trigger
                &&& new_s.slack_oauth_token == old_s.slack_oauth_token
                &&& new_s.created_at == old_s.created_at
            }),
            match new_active_member_id {
                Some(m) => r == Some(old(db).spec_member(m@)),
                None => r is None,
            },
            final(db).members == old(db).members,
            final(db).triggers == old(db).triggers,
            final(db).aliases == old(db).aliases,
            final(db).message_logs == old(db).message_logs,
            final(db).next_system_id == old(db).next_system_id,
            final(db).next_member_id == old(db).next_member_id,
            final(db).next_trigger_id == old(db).next_trigger_id,
            final(db).next_alias_id == old(db).next_alias_id,
            final(db).next_log_id == old(db).next_log_id,
    {
        let new_active_member = match new_active_member_id {
            Some(m) => {
                proof {
                    old(db).lemma_member_in_system(m@, self@);
                }
                Member::fetch_by_id(m, db)
            },
            None => None,
        };
        let i = match db.find_system_index(self.value()) {
            Some(i) => i,
            None => {
                proof {
                    assert(false);
                }
                0
            },
        };
        proof {
            db.lemma_system_index(i as int);
        }
        let row = System {
            id: db.systems[i].id,
            owner_id: db.systems[i].owner_id.dup(),
            currently_fronting_member_id: new_active_member_id,
            auto_switch_on_trigger: db.systems[i].auto_switch_on_trigger,
            slack_oauth_token: db.systems[i].slack_oauth_token.dup(),
            created_at: db.systems[i].created_at,
        };
        db.systems[i] = row;
        proof {
            lemma_system_rewrite_wf(*old(db), *db, i as int);
        }
        new_active_member
    }
}

/// Rewriting one system row, keeping its id and owner and pointing its
/// fronting pointer at a member of that system (or at none), keeps the
/// store well-formed.
proof fn lemma_system_rewrite_wf(pre: Db, post: Db, i: int)
    requires
        pre.wf(),
        0 <= i < pre.systems@.len(),
        post.systems@.len() == pre.systems@.len(),
        post.systems@ == pre.systems@.update(i, post.systems@[i]),
        post.systems@[i].id == pre.systems@[i].id,
        post.systems@[i].owner_id@ == pre.systems@[i].owner_id@,
        match post.systems@[i].currently_fronting_member_id {
            Some(m) => pre.has_member_in_system(m@, pre.systems@[i].id@),
            None => true,
        },
        post.members == pre.members,
        post.triggers == pre.triggers,
        post.aliases == pre.aliases,
        post.message_logs == pre.message_logs,
        post.next_system_id == pre.next_system_id,
        post.next_member_id == pre.next_member_id,
        post.next_trigger_id == pre.next_trigger_id,
        post.next_alias_id == pre.next_alias_id,
        post.next_log_id == pre.next_log_id,
    ensures
        post.wf(),
{
    let olds = pre.systems@;
    let news = post.systems@;
    assert forall|a: int| 0 <= a < news.len() implies (#[trigger] news[a]).id@
        < post.next_system_id && match news[a].currently_fronting_member_id {
        Some(m) => post.has_member_in_system(m@, news[a].id@),
        None => true,
    } by {
        if a != i {
            assert(news[a] == olds[a]);
        }
        assert(news[a].id@ == olds[a].id@);
        if a != i {
            assert(match olds[a].currently_fronting_member_id {
                Some(m) => pre.has_member_in_system(m@, olds[a].id@),
                None => true,
            });
        }
    }
    assert forall|a: int, b: int|
        #![trigger news[a], news[b]]
        0 <= a < b < news.len() implies news[a].id@ != news[b].id@ && news[a].owner_id@
        != news[b].owner_id@ by {
        assert(news[a].id@ == olds[a].id@ && news[b].id@ == olds[b].id@);
        assert(news[a].owner_id@ == olds[a].owner_id@ && news[b].owner_id@ == olds[b].owner_id@);
    }
    assert forall|a: int| 0 <= a < post.members@.len() implies post.has_system(
        (#[trigger] post.members@[a]).system_id@,
    ) by {
        assert(pre.has_system(pre.members@[a].system_id@));
        let w = choose|w: int|
            0 <= w < pre.systems@.len() && (#[trigger] pre.systems@[w]).id@
                == pre.members@[a].system_id@;
        assert(news[w].id@ == olds[w].id@);
    }
}

/// The store after a fronting transition on one system: only that system's
/// fronting pointer changes, to the given member (or to none).
pub open spec fn fronting_set(pre: Db, post: Db, system_id: int, new_fronting: Option<int>) -> bool {
    &&& post.systems@ == pre.systems@.update(
        pre.system_index(system_id),
        post.systems@[pre.system_index(system_id)],
    )
    &&& ({
        let i = pre.system_index(system_id);
        let old_s = pre.systems@[i];
        let new_s = post.systems@[i];
        &&& match new_fronting {
            Some(v) => new_s.currently_fronting_member_id matches Some(m) && m@ == v,
            None => new_s.currently_fronting_member_id is None,
        }
        &&& new_s.id == old_s.id
        &&& new_s.owner_id == old_s.owner_id
        &&& new_s.auto_switch_on_trigger == old_s.auto_switch_on_trigger
        &&& new_s.slack_oauth_token == old_s.slack_oauth_token
        &&& new_s.created_at == old_s.created_at
    })
    &&& post.members == pre.members
    &&& post.triggers == pre.triggers
    &&& post.aliases == pre.aliases
    &&& post.message_logs == pre.message_logs
    &&& post.next_system_id == pre.next_system_id
    &&& post.next_member_id == pre.next_member_id
    &&& post.next_trigger_id == pre.next_trigger_id
    &&& post.next_alias_id == pre.next_alias_id
    &&& post.next_log_id == pre.next_log_id
}

/// The trigger's pattern occurs at the position its kind asks for.
pub open spec fn trigger_matches(t: Trigger, text: Seq<char>) -> bool {
    match t.typ {
        Type::Prefix => text_starts_with(text, t.text@),
        Type::Suffix => text_ends_with(text, t.text@),
    }
}

/// Trigger row `i` can select a member for this message: it belongs to the
/// system, its member is enabled, and its pattern matches the text.
pub open spec fn is_candidate(db: Db, system_id: int, text: Seq<char>, i: int) -> bool {
    &&& 0 <= i < db.triggers@.len()
    &&& db.triggers@[i].system_id@ == system_id
    &&& db.member_enabled(db.triggers@[i].member_id@)
    &&& trigger_matches(db.triggers@[i], text)
}

/// Some trigger row can select a member for this message.
pub open spec fn has_candidate(db: Db, system_id: int, text: Seq<char>) -> bool {
    exists|i: int| #[trigger] is_candidate(db, system_id, text, i)
}

/// What a successful match promises of the returned record: some winning
/// candidate trigger (one that beats every other candidate) supplied the
/// member, the pattern text and the kind, and the display fields are that
/// member's.
pub open spec fn matcher_post(db: Db, system_id: int, text: Seq<char>, tm: TriggeredMember) -> bool {
    exists|i: int|
        {
            &&& #[trigger] is_candidate(db, system_id, text, i)
            &&& forall|j: int| #[trigger] is_candidate(db, system_id, text, j) ==> beats(db, i, j)
            &&& tm.id@ == db.triggers@[i].member_id@
            &&& tm.trigger_text@ == db.triggers@[i].text@
            &&& tm.typ == db.triggers@[i].typ
            &&& tm.display_name@ == db.spec_member(db.triggers@[i].member_id@).display_name@
            &&& tm.profile_picture_url == db.spec_member(
                db.triggers@[i].member_id@,
            ).profile_picture_url
        }
}

/// The deterministic tie-break among matching triggers: the longer pattern
/// wins, and between equal lengths the lower trigger id wins.
pub open spec fn beats(db: Db, i: int, j: int) -> bool {
    ||| db.triggers@[i].text@.len() > db.triggers@[j].text@.len()
    ||| (db.triggers@[i].text@.len() == db.triggers@[j].text@.len() && db.triggers@[i].id@
        <= db.triggers@[j].id@)
}

/// For every enabled member with a Prefix trigger whose pattern opens the
/// message and which no other trigger contests, the matcher selects that
/// member, and the rewriter yields the message with the pattern and the
/// whitespace after it cut off the front.
pub proof fn lemma_prefix_trigger_selects(
    db: Db,
    system_id: int,
    text: Seq<char>,
    i: int,
    tm: TriggeredMember,
)
    requires
        db.wf(),
        is_candidate(db, system_id, text, i),
        db.triggers@[i].typ == Type::Prefix,
        db.triggers@[i].text@.len() > 0,
        forall|j: int| #[trigger] is_candidate(db, system_id, text, j) ==> j == i,
        matcher_post(db, system_id, text, tm),
    ensures
        has_candidate(db, system_id, text),
        tm.id@ == db.triggers@[i].member_id@,
        tm.trigger_text@ == db.triggers@[i].text@,
        tm.typ == Type::Prefix,
        crate::events::spec_strip(text, tm.trigger_text@, tm.typ) == crate::text::trim_start_spaces(
            text.subrange(db.triggers@[i].text@.len() as int, text.len() as int),
        ),
{
    let k = choose|k: int|
        {
            &&& #[trigger] is_candidate(db, system_id, text, k)
            &&& forall|j: int| #[trigger] is_candidate(db, system_id, text, j) ==> beats(db, k, j)
            &&& tm.id@ == db.triggers@[k].member_id@
            &&& tm.trigger_text@ == db.triggers@[k].text@
            &&& tm.typ == db.triggers@[k].typ
            &&& tm.display_name@ == db.spec_member(db.triggers@[k].member_id@).display_name@
            &&& tm.profile_picture_url == db.spec_member(
                db.triggers@[k].member_id@,
            ).profile_picture_url
        };
    assert(k == i);
}

/// For every enabled member with a Suffix trigger whose pattern closes the
/// message and which no other trigger contests, the matcher selects that
/// member, and the rewriter yields the message with the pattern and the
/// whitespace before it cut off the end.
pub proof fn lemma_suffix_trigger_selects(
    db: Db,
    system_id: int,
    text: Seq<char>,
    i: int,
    tm: TriggeredMember,
)
    requires
        db.wf(),
        is_candidate(db, system_id, text, i),
        db.triggers@[i].typ == Type::Suffix,
        db.triggers@[i].text@.len() > 0,
        forall|j: int| #[trigger] is_candidate(db, system_id, text, j) ==> j == i,
        matcher_post(db, system_id, text, tm),
    ensures
        has_candidate(db, system_id, text),
        tm.id@ == db.triggers@[i].member_id@,
        tm.trigger_text@ == db.triggers@[i].text@,
        tm.typ == Type::Suffix,
        crate::events::spec_strip(text, tm.trigger_text@, tm.typ) == crate::text::trim_end_spaces(
            text.subrange(0, text.len() - db.triggers@[i].text@.len()),
        ),
{
    let k = choose|k: int|
        {
            &&& #[trigger] is_candidate(db, system_id, text, k)
            &&& forall|j: int| #[trigger] is_candidate(db, system_id, text, j) ==> beats(db, k, j)
            &&& tm.id@ == db.triggers@[k].member_id@
            &&& tm.trigger_text@ == db.triggers@[k].text@
            &&& tm.typ == db.triggers@[k].typ
            &&& tm.display_name@ == db.spec_member(db.triggers@[k].member_id@).display_name@
            &&& tm.profile_picture_url == db.spec_member(
                db.triggers@[k].member_id@,
            ).profile_picture_url
        };
    assert(k == i);
}

/// A disabled member is never the one a match returns, however well its
/// trigger text matches.
pub proof fn lemma_disabled_member_never_selected(
    db: Db,
    system_id: int,
    text: Seq<char>,
    tm: TriggeredMember,
    m: int,
)
    requires
        db.wf(),
        matcher_post(db, system_id, text, tm),
        db.has_member(m),
        !db.spec_member(m).enabled,
    ensures
        tm.id@ != m,
{
    let k = choose|k: int|
        {
            &&& #[trigger] is_candidate(db, system_id, text, k)
            &&& forall|j: int| #[trigger] is_candidate(db, system_id, text, j) ==> beats(db, k, j)
            &&& tm.id@ == db.triggers@[k].member_id@
            &&& tm.trigger_text@ == db.triggers@[k].text@
            &&& tm.typ == db.triggers@[k].typ
            &&& tm.display_name@ == db.spec_member(db.triggers@[k].member_id@).display_name@
            &&& tm.profile_picture_url == db.spec_member(
                db.triggers@[k].member_id@,
            ).profile_picture_url
        };
    assert(db.member_enabled(db.triggers@[k].member_id@));
}

impl System {
    /// Scans the enabled members' triggers of this system for one whose
    /// pattern matches the message: a Prefix trigger matches when the text
    /// starts with its pattern, a Suffix trigger when the text ends with
    /// it. Empty text never matches. When several triggers match, the
    /// longest pattern wins, then the lowest trigger id.
    pub fn find_member_by_trigger_rules(&self, db: &Db, message: &str) -> (r: Option<
        TriggeredMember,
    >)
        requires
            db.wf(),
        ensures
            r is None <==> (message@.len() == 0 || !has_candidate(*db, self.id@, message@)),
            r matches Some(tm) ==> matcher_post(*db, self.id@, message@, tm),
    {
        if message.unicode_len() == 0 {
            return None;
        }
        let n = db.triggers.len();
        let mut best: Option<usize> = None;
        let mut i: usize = 0;
        while i < n
            invariant
                db.wf(),
                0 <= i <= n,
                n == db.triggers@.len(),
                message@.len() > 0,
                match best {
                    Some(b) => {
                        &&& b < i
                        &&& is_candidate(*db, self.id@, message@, b as int)
                        &&& forall|j: int|
                            0 <= j < i && #[trigger] is_candidate(*db, self.id@, message@, j)
                                ==> beats(*db, b as int, j)
                    },
                    None => forall|j: int|
                        0 <= j < i ==> !(#[trigger] is_candidate(*db, self.id@, message@, j)),
                },
            decreases n - i,
        {
            let mut cand: bool = false;
            if db.triggers[i].system_id.value() == self.id.value() {
                match db.find_member_index(db.triggers[i].member_id.value()) {
                    Some(mi) => {
                        proof {
                            db.lemma_member_index(mi as int);
                        }
                        if db.members[mi].enabled {
                            cand = match db.triggers[i].typ {
                                Type::Prefix => str_starts_with(
                                    message,
                                    db.triggers[i].text.as_str(),
                                ),
                                Type::Suffix => str_ends_with(message, db.triggers[i].text.as_str()),
                            };
                        }
                    },
                    None => {},
                }
            }
            proof {
                assert(cand == is_candidate(*db, self.id@, message@, i as int));
            }
            if cand {
                match best {
                    None => {
                        best = Some(i);
                    },
                    Some(b) => {
                        let bl = db.triggers[b].text.as_str().unicode_len();
                        let il = db.triggers[i].text.as_str().unicode_len();
                        if il > bl || (il == bl && db.triggers[i].id.value()
                            < db.triggers[b].id.value()) {
                            best = Some(i);
                        }
                    },
                }
            }
            i = i + 1;
        }
        match best {
            Some(b) => {
                match db.find_member_index(db.triggers[b].member_id.value()) {
                    Some(mi) => {
                        proof {
                            db.lemma_member_index(mi as int);
                        }
                        Some(
                            TriggeredMember {
                                id: db.members[mi].id,
                                display_name: db.members[mi].display_name.clone(),
                                profile_picture_url: clone_opt_string(
                                    &db.members[mi].profile_picture_url,
                                ),
                                trigger_text: db.triggers[b].text.clone(),
                                typ: db.triggers[b].typ,
                            },
                        )
                    },
                    None => {
                        proof {
                            assert(false);
                        }
                        None
                    },
                }
            },
            None => None,
        }
    }

    /// A field-for-field copy of the record.
    pub fn dup(&self) -> (r: System)
        ensures
            r == *self,
    {
        System {
            id: self.id,
            owner_id: self.owner_id.dup(),
            currently_fronting_member_id: self.currently_fronting_member_id,
            auto_switch_on_trigger: self.auto_switch_on_trigger,
            slack_oauth_token: self.slack_oauth_token.dup(),
            created_at: self.created_at,
        }
    }

    /// The system a given account owns, if any. This is also how a plain
    /// account id becomes a trusted system id: owning the row is the proof.
    pub fn fetch_by_user_id<T: Trustability>(user_id: &user::Id<T>, db: &Db) -> (r: Option<System>)
        requires
            db.wf(),
        ensures
            r is Some <==> db.has_system_owned_by(user_id@),
            r matches Some(s) ==> s == db.spec_system_by_owner(user_id@),
    {
        match db.find_system_index_by_owner(user_id) {
            Some(i) => {
                proof {
                    db.lemma_system_index_by_owner(i as int);
                }
                Some(db.systems[i].dup())
            },
            None => None,
        }
    }

    /// The member record the system is currently fronting, if any.
    pub fn active_member(&self, db: &Db) -> (r: Option<Member>)
        requires
            db.wf(),
            self.currently_fronting_member_id matches Some(m) ==> db.has_member(m@),
        ensures
            match self.currently_fronting_member_id {
                Some(m) => r == Some(db.spec_member(m@)),
                None => r is None,
            },
    {
        match self.currently_fronting_member_id {
            Some(id) => Member::fetch_by_id(id, db),
            None => None,
        }
    }

    /// The fronting transition through a fetched record: the store row is
    /// updated and this copy follows it.
    pub fn change_fronting_member(
        &mut self,
        new_fronting_member_id: Option<member::Id<Trusted>>,
        db: &mut Db,
    ) -> (r: Option<Member>)
        requires
            old(db).wf(),
            old(db).has_system(old(self).id@),
            new_fronting_member_id matches Some(m) ==> old(db).has_member_in_system(
                m@,
                old(self).id@,
            ),
        ensures
            final(db).wf(),
            final(self).id == old(self).id,
            final(self).owner_id == old(self).owner_id,
            final(self).currently_fronting_member_id == new_fronting_member_id,
            final(self).auto_switch_on_trigger == old(self).auto_switch_on_trigger,
            final(self).slack_oauth_token == old(self).slack_oauth_token,
            final(self).created_at == old(self).created_at,
            final(db).systems@ == old(db).systems@.update(
                old(db).system_index(old(self).id@),
                final(db).systems@[old(db).system_index(old(self).id@)],
            ),
            ({
                let i = old(db).system_index(old(self).id@);
                let old_s = old(db).systems@[i];
                let new_s = final(db).systems@[i];
                &&& new_s.currently_fronting_member_id == new_fronting_member_id
                &&& new_s.id == old_s.id
                &&& new_s.owner_id == old_s.owner_id
                &&& new_s.auto_switch_on_trigger == old_s.auto_switch_on_trigger
                &&& new_s.slack_oauth_token == old_s.slack_oauth_token
                &&& new_s.created_at == old_s.created_at
            }),
            match new_fronting_member_id {
                Some(m) => r == Some(old(db).spec_member(m@)),
                None => r is None,
            },
            final(db).members == old(db).members,
            final(db).triggers == old(db).triggers,
            final(db).aliases == old(db).aliases,
            final(db).message_logs == old(db).message_logs,
            final(db).next_system_id == old(db).next_system_id,
            final(db).next_member_id == old(db).next_member_id,
            final(db).next_trigger_id == old(db).next_trigger_id,
            final(db).next_alias_id == old(db).next_alias_id,
            final(db).next_log_id == old(db).next_log_id,
    {
        let new_active_member = self.id.change_fronting_member(new_fronting_member_id, db);
        self.currently_fronting_member_id = new_fronting_member_id;
        new_active_member
    }

    /// All members of this system, in storage order.
    pub fn members(&self, db: &Db) -> (r: Vec<Member>)
        ensures
            r@ == db.members@.filter(crate::member::member_of_system(self.id@)),
    {
        let n = db.members.len();
        let mut out: Vec<Member> = Vec::new();
        let mut i: usize = 0;
        while i < n
            invariant
                0 <= i <= n,
                n == db.members@.len(),
                out@ == db.members@.subrange(0, i as int).filter(
                    crate::member::member_of_system(self.id@),
                ),
            decreases n - i,
        {
            proof {
                reveal_with_fuel(Seq::filter, 2);
                assert(db.members@.subrange(0, i + 1).drop_last() =~= db.members@.subrange(
                    0,
                    i as int,
                ));
                assert(db.members@.subrange(0, i + 1).last() == db.members@[i as int]);
            }
            if db.members[i].system_id.value() == self.id.value() {
                out.push(db.members[i].dup());
            }
            i = i + 1;
        }
        proof {
            assert(db.members@.subrange(0, n as int) =~= db.members@);
        }
        out
    }

    /// Writes the credential a completed authorization grants: a new system
    /// row for a first-time owner, or a token refresh for an existing one.
    /// Returns the system's id.
    pub fn upsert(
        owner_id: user::Id<Trusted>,
        token: SlackOauthToken,
        created_at: i64,
        db: &mut Db,
    ) -> (r: Id<Trusted>)
        requires
            old(db).wf(),
            old(db).next_system_id < i64::MAX,
        ensures
            final(db).wf(),
            old(db).has_system_owned_by(owner_id@) ==> ({
                let i = old(db).system_index_by_owner(owner_id@);
                let old_s = old(db).systems@[i];
                let new_s = final(db).systems@[i];
                &&& r == old_s.id
                &&& final(db).systems@ == old(db).systems@.update(i, new_s)
                &&& new_s.id == old_s.id
                &&& new_s.owner_id == old_s.owner_id
                &&& new_s.currently_fronting_member_id == old_s.currently_fronting_member_id
                &&& new_s.auto_switch_on_trigger == old_s.auto_switch_on_trigger
                &&& new_s.slack_oauth_token == token
                &&& new_s.created_at == old_s.created_at
                &&& final(db).next_system_id == old(db).next_system_id
            }),
            !old(db).has_system_owned_by(owner_id@) ==> ({
                let new_s = final(db).systems@.last();
                &&& final(db).systems@ == old(db).systems@.push(new_s)
                &&& r == new_s.id
                &&& r@ == old(db).next_system_id
                &&& new_s.owner_id@ == owner_id@
                &&& new_s.currently_fronting_member_id is None
                &&& new_s.auto_switch_on_trigger == false
                &&& new_s.slack_oauth_token == token
                &&& new_s.created_at == created_at
                &&& final(db).next_system_id == old(db).next_system_id + 1
            }),
            final(db).members == old(db).members,
            final(db).triggers == old(db).triggers,
            final(db).aliases == old(db).aliases,
            final(db).message_logs == old(db).message_logs,
            final(db).next_member_id == old(db).next_member_id,
            final(db).next_trigger_id == old(db).next_trigger_id,
            final(db).next_alias_id == old(db).next_alias_id,
            final(db).next_log_id == old(db).next_log_id,
    {
        match db.find_system_index_by_owner(&owner_id) {
            Some(i) => {
                proof {
                    db.lemma_system_index_by_owner(i as int);
                }
                let row = System {
                    id: db.systems[i].id,
                    owner_id: db.systems[i].owner_id.dup(),
                    currently_fronting_member_id: db.systems[i].currently_fronting_member_id,
                    auto_switch_on_trigger: db.systems[i].auto_switch_on_trigger,
                    slack_oauth_token: token,
                    created_at: db.systems[i].created_at,
                };
                let r = db.systems[i].id;
                db.systems[i] = row;
                proof {
                    lemma_system_rewrite_wf(*old(db), *db, i as int);
                }
                r
            },
            None => {
                let id = db.next_system_id;
                let row = System {
                    id: Id::trusted(id),
                    owner_id,
                    currently_fronting_member_id: None,
                    auto_switch_on_trigger: false,
                    slack_oauth_token: token,
                    created_at,
                };
                let r = row.id;
                db.systems.push(row);
                db.next_system_id = id + 1;
                proof {
                    let olds = old(db).systems@;
                    let news = db.systems@;
                    assert forall|a: int| 0 <= a < news.len() implies (#[trigger] news[a]).id@
                        < db.next_system_id && match news[a].currently_fronting_member_id {
                        Some(m) => db.has_member_in_system(m@, news[a].id@),
                        None => true,
                    } by {
                        if a < news.len() - 1 {
                            assert(news[a] == olds[a]);
                            assert(match olds[a].currently_fronting_member_id {
                                Some(m) => old(db).has_member_in_system(m@, olds[a].id@),
                                None => true,
                            });
                        }
                    }
                    assert forall|a: int, b: int|
                        #![trigger news[a], news[b]]
                        0 <= a < b < news.len() implies news[a].id@ != news[b].id@
                        && news[a].owner_id@ != news[b].owner_id@ by {
                        if b < news.len() - 1 {
                            assert(news[a] == olds[a] && news[b] == olds[b]);
                        } else {
                            assert(news[a] == olds[a]);
                            assert(news[a].id@ < old(db).next_system_id);
                            if news[a].owner_id@ == owner_id@ {
                                assert(old(db).has_system_owned_by(owner_id@));
                            }
                        }
                    }
                    assert forall|a: int| 0 <= a < db.members@.len() implies db.has_system(
                        (#[trigger] db.members@[a]).system_id@,
                    ) by {
                        assert(old(db).has_system(old(db).members@[a].system_id@));
                        let w = choose|w: int|
                            0 <= w < olds.len() && (#[trigger] olds[w]).id@
                                == db.members@[a].system_id@;
                        assert(news[w] == olds[w]);
                    }
                }
                r
            },
        }
    }
}

} // verus!
