//! Triggers: text patterns that auto-select a member for an incoming
//! message.

use vstd::prelude::*;
use crate::db::Db;
use crate::member;
use crate::system;
use crate::text::str_eq;
use crate::trust::{Trustability, Trusted, Untrusted};

verus! {

/// A trigger id. For the id to be trusted it must exist in the store and
/// belong to the given system.
#[derive(Debug, Clone, Copy)]
pub struct Id<T: Trustability> {
    id: i64,
    trusted: T,
}

impl<T: Trustability> Id<T> {
    /// The numeric value of the id.
    pub closed spec fn view(self) -> int {
        self.id as int
    }

    /// The numeric value of the id.
    pub fn value(&self) -> (r: i64)
        ensures
            r == self@,
    {
        self.id
    }
}

impl Id<Untrusted> {
    /// Wraps an externally supplied trigger id.
    pub fn new(id: i64) -> (r: Self)
        ensures
            r@ == id,
    {
        Id { id, trusted: Untrusted }
    }
}

impl Id<Trusted> {
    pub(crate) fn trusted(id: i64) -> (r: Self)
        ensures
            r@ == id,
    {
        Id { id, trusted: Trusted }
    }
}

impl Id<Untrusted> {
    /// Verifies that this trigger id exists and belongs to the given
    /// system.
    pub fn validate_by_system(self, system_id: system::Id<Trusted>, db: &Db) -> (r: Option<
        Id<Trusted>,
    >)
        requires
            db.wf(),
        ensures
            r is Some <==> db.has_trigger_in_system(self@, system_id@),
            r matches Some(t) ==> t@ == self@,
    {
        let v = self.value();
        match db.find_trigger_index(v) {
            Some(i) => {
                proof {
                    db.lemma_trigger_index(i as int);
                    db.lemma_trigger_in_system(self@, system_id@);
                }
                if db.triggers[i].system_id.value() == system_id.value() {
                    Some(Id::trusted(v))
                } else {
                    None
                }
            },
            None => None,
        }
    }
}

impl Id<Trusted> {
    /// Removes the trigger row behind this id; removing an id that is
    /// already gone changes nothing. Returns the number of rows removed.
    pub fn delete(self, db: &mut Db) -> (rows: usize)
        requires
            old(db).wf(),
        ensures
            final(db).wf(),
            !old(db).has_trigger(self@) ==> rows == 0 && *final(db) == *old(db),
            old(db).has_trigger(self@) ==> rows == 1 && final(db).triggers@ == old(
                db,
            ).triggers@.remove(old(db).trigger_index(self@)),
            !final(db).has_trigger(self@),
            final(db).systems == old(db).systems,
            final(db).members == old(db).members,
            final(db).aliases == old(db).aliases,
            final(db).message_logs == old(db).message_logs,
            final(db).next_system_id == old(db).next_system_id,
            final(db).next_member_id == old(db).next_member_id,
            final(db).next_trigger_id == old(db).next_trigger_id,
            final(db).next_alias_id == old(db).next_alias_id,
            final(db).next_log_id == old(db).next_log_id,
    {
        match db.find_trigger_index(self.value()) {
            Some(i) => {
                proof {
                    db.lemma_trigger_index(i as int);
                    old(db).triggers@.remove_ensures(i as int);
                }
                db.triggers.remove(i);
                proof {
                    let olds = old(db).triggers@;
                    let news = db.triggers@;
                    assert forall|a: int| 0 <= a < news.len() implies (#[trigger] news[a]).id@
                        != self@ && news[a].id@ < db.next_trigger_id && db.has_member_in_system(
                        news[a].member_id@,
                        news[a].system_id@,
                    ) by {
                        if a < i {
                            assert(news[a] == olds[a]);
                        } else {
                            assert(news[a] == olds[a + 1]);
                        }
                    }
                    assert forall|a: int, b: int|
                        #![trigger news[a], news[b]]
                        0 <= a < b < news.len() implies news[a].id@ != news[b].id@ by {
                        let a2 = if a < i {
                            a
                        } else {
                            a + 1
                        };
                        let b2 = if b < i {
                            b
                        } else {
                            b + 1
                        };
                        assert(news[a] == olds[a2]);
                        assert(news[b] == olds[b2]);
                    }
                }
                1
            },
            None => 0,
        }
    }

    /// Updates the trigger row behind this id, keeping any field that is
    /// not supplied. Returns the id again when the row exists.
    pub fn update(self, typ: Option<Type>, content: Option<String>, db: &mut Db) -> (r: Option<
        Id<Trusted>,
    >)
        requires
            old(db).wf(),
        ensures
            final(db).wf(),
            r is Some <==> old(db).has_trigger(self@),
            r matches Some(t) ==> t@ == self@,
            !old(db).has_trigger(self@) ==> *final(db) == *old(db),
            old(db).has_trigger(self@) ==> ({
                let i = old(db).trigger_index(self@);
                let old_t = old(db).triggers@[i];
                let new_t = final(db).triggers@[i];
                &&& final(db).triggers@ == old(db).triggers@.update(i, new_t)
                &&& new_t.id == old_t.id
                &&& new_t.member_id == old_t.member_id
                &&& new_t.system_id == old_t.system_id
                &&& new_t.typ == (match typ {
                    Some(t) => t,
                    None => old_t.typ,
                })
                &&& new_t.text@ == (match content {
                    Some(c) => c@,
                    None => old_t.text@,
                })
            }),
            final(db).systems == old(db).systems,
            final(db).members == old(db).members,
            final(db).aliases == old(db).aliases,
            final(db).message_logs == old(db).message_logs,
            final(db).next_system_id == old(db).next_system_id,
            final(db).next_member_id == old(db).next_member_id,
            final(db).next_trigger_id == old(db).next_trigger_id,
            final(db).next_alias_id == old(db).next_alias_id,
            final(db).next_log_id == old(db).next_log_id,
    {
        match db.find_trigger_index(self.value()) {
            Some(i) => {
                proof {
                    db.lemma_trigger_index(i as int);
                }
                let new_typ = match typ {
                    Some(t) => t,
                    None => db.triggers[i].typ,
                };
                let new_text = match content {
                    Some(c) => c,
                    None => db.triggers[i].text.clone(),
                };
                let row = Trigger {
                    id: db.triggers[i].id,
                    member_id: db.triggers[i].member_id,
                    system_id: db.triggers[i].system_id,
                    text: new_text,
                    typ: new_typ,
                };
                db.triggers[i] = row;
                proof {
                    let olds = old(db).triggers@;
                    let news = db.triggers@;
                    assert forall|a: int| 0 <= a < news.len() implies (#[trigger] news[a]).id@
                        == olds[a].id@ && news[a].member_id@ == olds[a].member_id@
                        && news[a].system_id@ == olds[a].system_id@ by {}
                    assert forall|a: int| 0 <= a < news.len() implies (#[trigger] news[a]).id@
                        < db.next_trigger_id && db.has_member_in_system(
                        news[a].member_id@,
                        news[a].system_id@,
                    ) by {
                        assert(olds[a].id@ < old(db).next_trigger_id);
                        assert(old(db).has_member_in_system(
                            olds[a].member_id@,
                            olds[a].system_id@,
                        ));
                    }
                }
                Some(self)
            },
            None => None,
        }
    }
}

/// Whether the pattern is matched at the start or at the end of a message.
#[derive(Debug, Clone, Copy, PartialEq, Eq, Structural)]
pub enum Type {
    Suffix,
    Prefix,
}

impl Type {
    /// The integer code the relational store uses for this kind.
    pub fn code(&self) -> (r: i64)
        ensures
            r == 0 <==> *self == Type::Suffix,
            r == 1 <==> *self == Type::Prefix,
    {
        match self {
            Type::Suffix => 0,
            Type::Prefix => 1,
        }
    }

    /// The kind a stored integer code stands for, when it is one.
    pub fn from_code(value: i64) -> (r: Option<Type>)
        ensures
            value == 0 ==> r == Some(Type::Suffix),
            value == 1 ==> r == Some(Type::Prefix),
            value != 0 && value != 1 ==> r is None,
    {
        if value == 0 {
            Some(Type::Suffix)
        } else if value == 1 {
            Some(Type::Prefix)
        } else {
            None
        }
    }

    /// Reads `"prefix"` or `"suffix"`; anything else is unknown.
    pub fn from_str(s: &str) -> (r: Result<Type, UnknownType>)
        ensures
            s@ == "suffix"@ ==> r == Ok::<Type, UnknownType>(Type::Suffix),
            s@ == "prefix"@ ==> r == Ok::<Type, UnknownType>(Type::Prefix),
            s@ != "suffix"@ && s@ != "prefix"@ ==> (r matches Err(u) && u@ == s@),
    {
        proof {
            reveal_strlit("suffix");
            reveal_strlit("prefix");
            assert("suffix"@[0] == 's' && "prefix"@[0] == 'p');
        }
        if str_eq(s, "suffix") {
            Ok(Type::Suffix)
        } else if str_eq(s, "prefix") {
            Ok(Type::Prefix)
        } else {
            Err(UnknownType { text: s.to_owned() })
        }
    }
}

/// The text that failed to name a trigger kind.
#[derive(Debug)]
pub struct UnknownType {
    text: String,
}

impl UnknownType {
    /// The character view of the rejected text.
    pub closed spec fn view(self) -> Seq<char> {
        self.text@
    }

    /// The rejected text itself.
    pub fn text(&self) -> (r: &str)
        ensures
            r@ == self@,
    {
        self.text.as_str()
    }
}

/// A trigger record. The system id is denormalized from the owning member
/// for fast scoped queries.
#[derive(Debug)]
pub struct Trigger {
    pub id: Id<Trusted>,
    pub member_id: member::Id<Trusted>,
    pub system_id: system::Id<Trusted>,
    /// The pattern text.
    pub text: String,
    pub typ: Type,
}

/// The rows belonging to one member.
pub open spec fn trigger_of_member(member_id: int) -> spec_fn(Trigger) -> bool {
    |t: Trigger| t.member_id@ == member_id
}

/// The rows belonging to one system.
pub open spec fn trigger_of_system(system_id: int) -> spec_fn(Trigger) -> bool {
    |t: Trigger| t.system_id@ == system_id
}

impl Trigger {
    /// A field-for-field copy of the record.
    pub fn dup(&self) -> (r: Trigger)
        ensures
            r == *self,
    {
        Trigger {
            id: self.id,
            member_id: self.member_id,
            system_id: self.system_id,
            text: self.text.clone(),
            typ: self.typ,
        }
    }

    /// All triggers of a system, in storage order.
    pub fn fetch_by_system_id(system_id: system::Id<Trusted>, db: &Db) -> (r: Vec<Trigger>)
        ensures
            r@ == db.triggers@.filter(trigger_of_system(system_id@)),
    {
        let n = db.triggers.len();
        let mut out: Vec<Trigger> = Vec::new();
        let mut i: usize = 0;
        while i < n
            invariant
                0 <= i <= n,
                n == db.triggers@.len(),
                out@ == db.triggers@.subrange(0, i as int).filter(trigger_of_system(system_id@)),
            decreases n - i,
        {
            proof {
                reveal_with_fuel(Seq::filter, 2);
                assert(db.triggers@.subrange(0, i + 1).drop_last() =~= db.triggers@.subrange(
                    0,
                    i as int,
                ));
                assert(db.triggers@.subrange(0, i + 1).last() == db.triggers@[i as int]);
            }
            if db.triggers[i].system_id.value() == system_id.value() {
                out.push(db.triggers[i].dup());
            }
            i = i + 1;
        }
        proof {
            assert(db.triggers@.subrange(0, n as int) =~= db.triggers@);
        }
        out
    }

    /// All triggers of a member, in storage order.
    pub fn fetch_by_member_id(member_id: member::Id<Trusted>, db: &Db) -> (r: Vec<Trigger>)
        ensures
            r@ == db.triggers@.filter(trigger_of_member(member_id@)),
    {
        let n = db.triggers.len();
        let mut out: Vec<Trigger> = Vec::new();
        let mut i: usize = 0;
        while i < n
            invariant
                0 <= i <= n,
                n == db.triggers@.len(),
                out@ == db.triggers@.subrange(0, i as int).filter(trigger_of_member(member_id@)),
            decreases n - i,
        {
            proof {
                reveal_with_fuel(Seq::filter, 2);
                assert(db.triggers@.subrange(0, i + 1).drop_last() =~= db.triggers@.subrange(
                    0,
                    i as int,
                ));
                assert(db.triggers@.subrange(0, i + 1).last() == db.triggers@[i as int]);
            }
            if db.triggers[i].member_id.value() == member_id.value() {
                out.push(db.triggers[i].dup());
            }
            i = i + 1;
        }
        proof {
            assert(db.triggers@.subrange(0, n as int) =~= db.triggers@);
        }
        out
    }

    /// Appends a trigger row for an existing member. The fresh id is the
    /// table's counter.
    pub fn insert(
        member_id: member::Id<Trusted>,
        system_id: system::Id<Trusted>,
        typ: Type,
        content: String,
        db: &mut Db,
    ) -> (r: Trigger)
        requires
            old(db).wf(),
            old(db).has_member_in_system(member_id@, system_id@),
            old(db).next_trigger_id < i64::MAX,
        ensures
            final(db).wf(),
            final(db).triggers@ == old(db).triggers@.push(r),
            r.id@ == old(db).next_trigger_id,
            r.member_id == member_id,
            r.system_id == system_id,
            r.typ == typ,
            r.text@ == content@,
            final(db).next_trigger_id == old(db).next_trigger_id + 1,
            final(db).systems == old(db).systems,
            final(db).members == old(db).members,
            final(db).aliases == old(db).aliases,
            final(db).message_logs == old(db).message_logs,
            final(db).next_system_id == old(db).next_system_id,
            final(db).next_member_id == old(db).next_member_id,
            final(db).next_alias_id == old(db).next_alias_id,
            final(db).next_log_id == old(db).next_log_id,
    {
        let id = db.next_trigger_id;
        let row = Trigger { id: Id::trusted(id), member_id, system_id, text: content, typ };
        let r = row.dup();
        db.triggers.push(row);
        db.next_trigger_id = id + 1;
        proof {
            assert forall|i: int| 0 <= i < db.triggers@.len() implies (
            #[trigger] db.triggers@[i]).id@ < db.next_trigger_id by {
                if i < db.triggers@.len() - 1 {
                    assert(db.triggers@[i] == old(db).triggers@[i]);
                }
            }
            assert forall|i: int| 0 <= i < db.triggers@.len() implies db.has_member_in_system(
                (#[trigger] db.triggers@[i]).member_id@,
                db.triggers@[i].system_id@,
            ) by {
                if i < db.triggers@.len() - 1 {
                    assert(db.triggers@[i] == old(db).triggers@[i]);
                    assert(old(db).has_member_in_system(
                        old(db).triggers@[i].member_id@,
                        old(db).triggers@[i].system_id@,
                    ));
                }
            }
        }
        r
    }
}

} // verus!
