//! Aliases: per-system names that refer to a member in commands.

use vstd::prelude::*;
use crate::db::Db;
use crate::member;
use crate::system;
use crate::trust::{Trustability, Trusted, Untrusted};

verus! {

/// An alias id. For the id to be trusted it must exist in the store and
/// belong to the given system.
#[derive(Debug, Clone, Copy)]
pub struct Id<T: Trustability> {
    id: i64,
    trusted: T,
}

impl<T: Trustability> Id<T> {
    /// The numeric value of the id.
    pub closed spec fn view(self) -> int {
        self.id as int
    }

    /// The numeric value of the id.
    pub fn value(&self) -> (r: i64)
        ensures
            r == self@,
    {
        self.id
    }
}

impl Id<Untrusted> {
    /// Wraps an externally supplied alias id.
    pub fn new(id: i64) -> (r: Self)
        ensures
            r@ == id,
    {
        Id { id, trusted: Untrusted }
    }
}

impl Id<Trusted> {
    pub(crate) fn trusted(id: i64) -> (r: Self)
        ensures
            r@ == id,
    {
        Id { id, trusted: Trusted }
    }
}

/// Why an alias text was rejected: it parses as a pure integer (and so
/// could be mistaken for a member id), or it is already taken within the
/// system.
#[derive(Debug, Clone, Copy, PartialEq, Eq, Structural)]
pub enum AliasError {
    IntegerText,
    DuplicateAlias,
}

impl Id<Untrusted> {
    /// Verifies that this alias id exists and belongs to the given system.
    pub fn validate_by_system(self, system_id: system::Id<Trusted>, db: &Db) -> (r: Option<
        Id<Trusted>,
    >)
        requires
            db.wf(),
        ensures
            r is Some <==> db.has_alias_in_system(self@, system_id@),
            r matches Some(t) ==> t@ == self@,
    {
        let v = self.value();
        match db.find_alias_index(v) {
            Some(i) => {
                proof {
                    db.lemma_alias_index(i as int);
                    db.lemma_alias_in_system(self@, system_id@);
                }
                if db.aliases[i].system_id.value() == system_id.value() {
                    Some(Id::trusted(v))
                } else {
                    None
                }
            },
            None => None,
        }
    }
}

impl Id<Trusted> {
    /// Removes the alias row behind this id; removing an id that is
    /// already gone changes nothing. Returns the number of rows removed.
    pub fn delete(self, db: &mut Db) -> (rows: usize)
        requires
            old(db).wf(),
        ensures
            final(db).wf(),
            !old(db).has_alias(self@) ==> rows == 0 && *final(db) == *old(db),
            old(db).has_alias(self@) ==> rows == 1 && final(db).aliases@ == old(
                db,
            ).aliases@.remove(old(db).alias_index(self@)),
            !final(db).has_alias(self@),
            final(db).systems == old(db).systems,
            final(db).members == old(db).members,
            final(db).triggers == old(db).triggers,
            final(db).message_logs == old(db).message_logs,
            final(db).next_system_id == old(db).next_system_id,
            final(db).next_member_id == old(db).next_member_id,
            final(db).next_trigger_id == old(db).next_trigger_id,
            final(db).next_alias_id == old(db).next_alias_id,
            final(db).next_log_id == old(db).next_log_id,
    {
        match db.find_alias_index(self.value()) {
            Some(i) => {
                proof {
                    db.lemma_alias_index(i as int);
                    old(db).aliases@.remove_ensures(i as int);
                }
                db.aliases.remove(i);
                proof {
                    let olds = old(db).aliases@;
                    let news = db.aliases@;
                    assert forall|a: int| 0 <= a < news.len() implies (#[trigger] news[a]).id@
                        != self@ && news[a].id@ < db.next_alias_id && db.has_member_in_system(
                        news[a].member_id@,
                        news[a].system_id@,
                    ) && crate::text::spec_parse_i64(news[a].alias@) is None by {
                        if a < i {
                            assert(news[a] == olds[a]);
                        } else {
                            assert(news[a] == olds[a + 1]);
                        }
                    }
                    assert forall|a: int, b: int|
                        #![trigger news[a], news[b]]
                        0 <= a < b < news.len() implies news[a].id@ != news[b].id@ && !(news[a].system_id@
                        == news[b].system_id@ && news[a].alias@ == news[b].alias@) by {
                        let a2 = if a < i {
                            a
                        } else {
                            a + 1
                        };
                        let b2 = if b < i {
                            b
                        } else {
                            b + 1
                        };
                        assert(news[a] == olds[a2]);
                        assert(news[b] == olds[b2]);
                    }
                }
                1
            },
            None => 0,
        }
    }

    /// Renames the alias behind this id. The new text must not parse as a
    /// pure integer and must not collide with another alias of the same
    /// system; renaming an id that is gone changes nothing.
    pub fn change_alias(self, new_alias: String, db: &mut Db) -> (r: Result<usize, AliasError>)
        requires
            old(db).wf(),
        ensures
            final(db).wf(),
            crate::text::spec_parse_i64(new_alias@) is Some ==> r == Err::<usize, AliasError>(
                AliasError::IntegerText,
            ) && *final(db) == *old(db),
            crate::text::spec_parse_i64(new_alias@) is None && !old(db).has_alias(self@) ==> r
                == Ok::<usize, AliasError>(0) && *final(db) == *old(db),
            crate::text::spec_parse_i64(new_alias@) is None && old(db).has_alias(self@) ==> ({
                let i = old(db).alias_index(self@);
                let old_a = old(db).aliases@[i];
                if old(db).has_alias_text(new_alias@, old_a.system_id@) && old(
                    db,
                ).spec_alias_by_text(new_alias@, old_a.system_id@).id@ != self@ {
                    r == Err::<usize, AliasError>(AliasError::DuplicateAlias) && *final(db) == *old(
                        db,
                    )
                } else {
                    r == Ok::<usize, AliasError>(1) && final(db).aliases@ == old(
                        db,
                    ).aliases@.update(
                        i,
                        Alias {
                            id: old_a.id,
                            member_id: old_a.member_id,
                            system_id: old_a.system_id,
                            alias: new_alias,
                        },
                    )
                }
            }),
            final(db).systems == old(db).systems,
            final(db).members == old(db).members,
            final(db).triggers == old(db).triggers,
            final(db).message_logs == old(db).message_logs,
            final(db).next_system_id == old(db).next_system_id,
            final(db).next_member_id == old(db).next_member_id,
            final(db).next_trigger_id == old(db).next_trigger_id,
            final(db).next_alias_id == old(db).next_alias_id,
            final(db).next_log_id == old(db).next_log_id,
    {
        if crate::text::parse_i64(new_alias.as_str()).is_some() {
            return Err(AliasError::IntegerText);
        }
        match db.find_alias_index(self.value()) {
            None => Ok(0),
            Some(i) => {
                proof {
                    db.lemma_alias_index(i as int);
                }
                let sid = db.aliases[i].system_id.value();
                match db.find_alias_index_by_text(new_alias.as_str(), sid) {
                    Some(j) => {
                        proof {
                            db.lemma_alias_index_by_text(j as int);
                        }
                        if db.aliases[j].id.value() != self.value() {
                            return Err(AliasError::DuplicateAlias);
                        }
                        let row = Alias {
                            id: db.aliases[i].id,
                            member_id: db.aliases[i].member_id,
                            system_id: db.aliases[i].system_id,
                            alias: new_alias,
                        };
                        db.aliases[i] = row;
                        proof {
                            lemma_alias_rewrite_wf(*old(db), *db, i as int);
                        }
                        Ok(1)
                    },
                    None => {
                        let row = Alias {
                            id: db.aliases[i].id,
                            member_id: db.aliases[i].member_id,
                            system_id: db.aliases[i].system_id,
                            alias: new_alias,
                        };
                        db.aliases[i] = row;
                        proof {
                            lemma_alias_rewrite_wf(*old(db), *db, i as int);
                        }
                        Ok(1)
                    },
                }
            },
        }
    }
}

/// Rewriting one alias row's text, to a non-integer text no other row of
/// the same system carries, keeps the store well-formed.
proof fn lemma_alias_rewrite_wf(pre: Db, post: Db, i: int)
    requires
        pre.wf(),
        0 <= i < pre.aliases@.len(),
        post.aliases@.len() == pre.aliases@.len(),
        post.aliases@ == pre.aliases@.update(i, post.aliases@[i]),
        post.aliases@[i].id == pre.aliases@[i].id,
        post.aliases@[i].member_id == pre.aliases@[i].member_id,
        post.aliases@[i].system_id == pre.aliases@[i].system_id,
        crate::text::spec_parse_i64(post.aliases@[i].alias@) is None,
        forall|j: int|
            0 <= j < pre.aliases@.len() && j != i ==> !((#[trigger] pre.aliases@[j]).system_id@
                == pre.aliases@[i].system_id@ && pre.aliases@[j].alias@ == post.aliases@[i].alias@),
        post.systems == pre.systems,
        post.members == pre.members,
        post.triggers == pre.triggers,
        post.message_logs == pre.message_logs,
        post.next_system_id == pre.next_system_id,
        post.next_member_id == pre.next_member_id,
        post.next_trigger_id == pre.next_trigger_id,
        post.next_alias_id == pre.next_alias_id,
        post.next_log_id == pre.next_log_id,
    ensures
        post.wf(),
{
    let olds = pre.aliases@;
    let news = post.aliases@;
    assert forall|a: int| 0 <= a < news.len() implies (#[trigger] news[a]).id@ < post.next_alias_id
        && post.has_member_in_system(news[a].member_id@, news[a].system_id@)
        && crate::text::spec_parse_i64(news[a].alias@) is None by {
        if a != i {
            assert(news[a] == olds[a]);
        }
        assert(news[a].member_id@ == olds[a].member_id@ && news[a].system_id@
            == olds[a].system_id@ && news[a].id@ == olds[a].id@);
        assert(pre.has_member_in_system(olds[a].member_id@, olds[a].system_id@));
    }
    assert forall|a: int, b: int|
        #![trigger news[a], news[b]]
        0 <= a < b < news.len() implies news[a].id@ != news[b].id@ && !(news[a].system_id@
        == news[b].system_id@ && news[a].alias@ == news[b].alias@) by {
        if a != i && b != i {
            assert(news[a] == olds[a] && news[b] == olds[b]);
        } else if a == i {
            assert(news[b] == olds[b]);
            assert(news[a].id@ == olds[a].id@ && news[a].system_id@ == olds[a].system_id@);
        } else {
            assert(news[a] == olds[a]);
            assert(news[b].id@ == olds[b].id@ && news[b].system_id@ == olds[b].system_id@);
        }
    }
}

/// An alias record. The alias text is unique within its system and never
/// parses as a pure integer, so ids and aliases can share one input slot.
#[derive(Debug)]
pub struct Alias {
    pub id: Id<Trusted>,
    pub member_id: member::Id<Trusted>,
    pub system_id: system::Id<Trusted>,
    pub alias: String,
}

/// The rows belonging to one member.
pub open spec fn alias_of_member(member_id: int) -> spec_fn(Alias) -> bool {
    |a: Alias| a.member_id@ == member_id
}

/// The rows belonging to one system.
pub open spec fn alias_of_system(system_id: int) -> spec_fn(Alias) -> bool {
    |a: Alias| a.system_id@ == system_id
}

impl Alias {
    /// A field-for-field copy of the record.
    pub fn dup(&self) -> (r: Alias)
        ensures
            r == *self,
    {
        Alias {
            id: self.id,
            member_id: self.member_id,
            system_id: self.system_id,
            alias: self.alias.clone(),
        }
    }

    /// All aliases of a system, in storage order.
    pub fn fetch_by_system_id(system_id: system::Id<Trusted>, db: &Db) -> (r: Vec<Alias>)
        ensures
            r@ == db.aliases@.filter(alias_of_system(system_id@)),
    {
        let n = db.aliases.len();
        let mut out: Vec<Alias> = Vec::new();
        let mut i: usize = 0;
        while i < n
            invariant
                0 <= i <= n,
                n == db.aliases@.len(),
                out@ == db.aliases@.subrange(0, i as int).filter(alias_of_system(system_id@)),
            decreases n - i,
        {
            proof {
                reveal_with_fuel(Seq::filter, 2);
                assert(db.aliases@.subrange(0, i + 1).drop_last() =~= db.aliases@.subrange(
                    0,
                    i as int,
                ));
                assert(db.aliases@.subrange(0, i + 1).last() == db.aliases@[i as int]);
            }
            if db.aliases[i].system_id.value() == system_id.value() {
                out.push(db.aliases[i].dup());
            }
            i = i + 1;
        }
        proof {
            assert(db.aliases@.subrange(0, n as int) =~= db.aliases@);
        }
        out
    }

    /// All aliases of a member, in storage order.
    pub fn fetch_by_member_id(member_id: member::Id<Trusted>, db: &Db) -> (r: Vec<Alias>)
        ensures
            r@ == db.aliases@.filter(alias_of_member(member_id@)),
    {
        let n = db.aliases.len();
        let mut out: Vec<Alias> = Vec::new();
        let mut i: usize = 0;
        while i < n
            invariant
                0 <= i <= n,
                n == db.aliases@.len(),
                out@ == db.aliases@.subrange(0, i as int).filter(alias_of_member(member_id@)),
            decreases n - i,
        {
            proof {
                reveal_with_fuel(Seq::filter, 2);
                assert(db.aliases@.subrange(0, i + 1).drop_last() =~= db.aliases@.subrange(
                    0,
                    i as int,
                ));
                assert(db.aliases@.subrange(0, i + 1).last() == db.aliases@[i as int]);
            }
            if db.aliases[i].member_id.value() == member_id.value() {
                out.push(db.aliases[i].dup());
            }
            i = i + 1;
        }
        proof {
            assert(db.aliases@.subrange(0, n as int) =~= db.aliases@);
        }
        out
    }

    /// Appends an alias row for an existing member. The text must not
    /// parse as a pure integer and must be new within the system.
    pub fn insert(
        member_id: member::Id<Trusted>,
        system_id: system::Id<Trusted>,
        alias: String,
        db: &mut Db,
    ) -> (r: Result<Alias, AliasError>)
        requires
            old(db).wf(),
            old(db).has_member_in_system(member_id@, system_id@),
            old(db).next_alias_id < i64::MAX,
        ensures
            final(db).wf(),
            crate::text::spec_parse_i64(alias@) is Some ==> r == Err::<Alias, AliasError>(
                AliasError::IntegerText,
            ) && *final(db) == *old(db),
            crate::text::spec_parse_i64(alias@) is None && old(db).has_alias_text(
                alias@,
                system_id@,
            ) ==> r == Err::<Alias, AliasError>(AliasError::DuplicateAlias) && *final(db) == *old(
                db,
            ),
            crate::text::spec_parse_i64(alias@) is None && !old(db).has_alias_text(
                alias@,
                system_id@,
            ) ==> ({
                &&& r matches Ok(a)
                &&& final(db).aliases@ == old(db).aliases@.push(r->Ok_0)
                &&& r->Ok_0.id@ == old(db).next_alias_id
                &&& r->Ok_0.member_id == member_id
                &&& r->Ok_0.system_id == system_id
                &&& r->Ok_0.alias@ == alias@
                &&& final(db).next_alias_id == old(db).next_alias_id + 1
            }),
            r is Err ==> *final(db) == *old(db),
            final(db).systems == old(db).systems,
            final(db).members == old(db).members,
            final(db).triggers == old(db).triggers,
            final(db).message_logs == old(db).message_logs,
            final(db).next_system_id == old(db).next_system_id,
            final(db).next_member_id == old(db).next_member_id,
            final(db).next_trigger_id == old(db).next_trigger_id,
            final(db).next_log_id == old(db).next_log_id,
    {
        if crate::text::parse_i64(alias.as_str()).is_some() {
            return Err(AliasError::IntegerText);
        }
        if db.find_alias_index_by_text(alias.as_str(), system_id.value()).is_some() {
            return Err(AliasError::DuplicateAlias);
        }
        let id = db.next_alias_id;
        let row = Alias { id: Id::trusted(id), member_id, system_id, alias };
        let r = row.dup();
        db.aliases.push(row);
        db.next_alias_id = id + 1;
        proof {
            let olds = old(db).aliases@;
            let news = db.aliases@;
            assert forall|a: int| 0 <= a < news.len() implies (#[trigger] news[a]).id@
                < db.next_alias_id && db.has_member_in_system(news[a].member_id@, news[a].system_id@)
                && crate::text::spec_parse_i64(news[a].alias@) is None by {
                if a < news.len() - 1 {
                    assert(news[a] == olds[a]);
                    assert(old(db).has_member_in_system(olds[a].member_id@, olds[a].system_id@));
                }
            }
            assert forall|a: int, b: int|
                #![trigger news[a], news[b]]
                0 <= a < b < news.len() implies news[a].id@ != news[b].id@ && !(news[a].system_id@
                == news[b].system_id@ && news[a].alias@ == news[b].alias@) by {
                if b < news.len() - 1 {
                    assert(news[a] == olds[a] && news[b] == olds[b]);
                } else {
                    assert(news[a] == olds[a]);
                    assert(news[a].id@ < old(db).next_alias_id);
                    if news[a].system_id@ == system_id@ && news[a].alias@ == news[b].alias@ {
                        assert(old(db).has_alias_text(news[b].alias@, system_id@));
                    }
                }
            }
        }
        Ok(r)
    }
}

} // verus!
