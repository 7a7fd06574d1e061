//! The audit log: one record per successfully substituted message.

use vstd::prelude::*;
use crate::db::Db;
use crate::member;
use crate::trust::{Trustability, Trusted};

verus! {

/// A message log id. These are generated internally only: a log row is
/// created by the substitution pipeline and never from external input.
#[derive(Debug, Clone, Copy)]
pub struct Id<T: Trustability> {
    id: i64,
    trusted: T,
}

impl<T: Trustability> Id<T> {
    /// The numeric value of the id.
    pub closed spec fn view(self) -> int {
        self.id as int
    }

    /// The numeric value of the id.
    pub fn value(&self) -> (r: i64)
        ensures
            r == self@,
    {
        self.id
    }
}

impl Id<Trusted> {
    pub(crate) fn trusted(id: i64) -> (r: Self)
        ensures
            r@ == id,
    {
        Id { id, trusted: Trusted }
    }
}

/// The audit record tying a substituted message back to the member that
/// "sent" it. The external message id is the platform's own identifier and
/// is unique across the log.
#[derive(Debug)]
pub struct MessageLog {
    pub id: Id<Trusted>,
    pub member_id: member::Id<Trusted>,
    /// The platform-assigned id of the proxied message.
    pub message_id: String,
}

/// The rows belonging to one member.
pub open spec fn log_of_member(member_id: int) -> spec_fn(MessageLog) -> bool {
    |l: MessageLog| l.member_id@ == member_id
}

/// What purging a deletion notification does to the store: with no row for
/// the id nothing changes; with one, exactly that row goes; afterwards no
/// row with the id remains.
pub open spec fn deletion_post(pre: Db, post: Db, message_id: Seq<char>, rows: int) -> bool {
    &&& (!pre.has_log(message_id) ==> rows == 0 && post == pre)
    &&& (pre.has_log(message_id) ==> rows == 1 && post.message_logs@ == pre.message_logs@.remove(
        pre.log_index(message_id),
    ))
    &&& !post.has_log(message_id)
    &&& post.systems == pre.systems
    &&& post.members == pre.members
    &&& post.triggers == pre.triggers
    &&& post.aliases == pre.aliases
    &&& post.next_system_id == pre.next_system_id
    &&& post.next_member_id == pre.next_member_id
    &&& post.next_trigger_id == pre.next_trigger_id
    &&& post.next_alias_id == pre.next_alias_id
    &&& post.next_log_id == pre.next_log_id
}

/// A deletion notification is idempotent under repeated delivery: after
/// one delivery has been handled, a second one for the same id removes no
/// row and leaves the store exactly as it was.
pub proof fn lemma_deletion_idempotent(
    pre: Db,
    mid: Db,
    post: Db,
    message_id: Seq<char>,
    rows1: int,
    rows2: int,
)
    requires
        deletion_post(pre, mid, message_id, rows1),
        deletion_post(mid, post, message_id, rows2),
    ensures
        post == mid,
        rows2 == 0,
{
}

/// A log row could not be written because the external message id is
/// already recorded.
#[derive(Debug, Clone, Copy, PartialEq, Eq, Structural)]
pub struct DuplicateMessageId;

/// What recording a substitution does to the store: exactly one new log
/// row, mapping the posted message's external id to the member it was
/// posted as; every other table is untouched.
pub open spec fn log_insert_post(
    pre: Db,
    post: Db,
    member_id: member::Id<Trusted>,
    message_id: Seq<char>,
    l: MessageLog,
) -> bool {
    &&& post.message_logs@ == pre.message_logs@.push(l)
    &&& l.id@ == pre.next_log_id
    &&& l.member_id == member_id
    &&& l.message_id@ == message_id
    &&& post.next_log_id == pre.next_log_id + 1
    &&& post.systems == pre.systems
    &&& post.members == pre.members
    &&& post.triggers == pre.triggers
    &&& post.aliases == pre.aliases
    &&& post.next_system_id == pre.next_system_id
    &&& post.next_member_id == pre.next_member_id
    &&& post.next_trigger_id == pre.next_trigger_id
    &&& post.next_alias_id == pre.next_alias_id
}

impl MessageLog {
    /// A field-for-field copy of the record.
    pub fn dup(&self) -> (r: MessageLog)
        ensures
            r == *self,
    {
        MessageLog { id: self.id, member_id: self.member_id, message_id: self.message_id.clone() }
    }

    /// Deletes the log row for an external message id. Deleting an id with
    /// no row is a silent no-op, so repeated deletion notifications are
    /// idempotent (see [`lemma_deletion_idempotent`]). Returns the number
    /// of rows removed.
    pub fn delete_by_message_id(message_id: &str, db: &mut Db) -> (rows: usize)
        requires
            old(db).wf(),
        ensures
            final(db).wf(),
            deletion_post(*old(db), *final(db), message_id@, rows as int),
    {
        match db.find_log_index(message_id) {
            Some(i) => {
                proof {
                    db.lemma_log_index(i as int);
                    old(db).message_logs@.remove_ensures(i as int);
                }
                db.message_logs.remove(i);
                proof {
                    let olds = old(db).message_logs@;
                    let news = db.message_logs@;
                    assert forall|a: int| 0 <= a < news.len() implies (
                    #[trigger] news[a]).message_id@ != message_id@ && news[a].id@ < db.next_log_id
                        && db.has_member(news[a].member_id@) by {
                        if a < i {
                            assert(news[a] == olds[a]);
                        } else {
                            assert(news[a] == olds[a + 1]);
                        }
                    }
                    assert forall|a: int, b: int|
                        #![trigger news[a], news[b]]
                        0 <= a < b < news.len() implies news[a].id@ != news[b].id@
                        && news[a].message_id@ != news[b].message_id@ by {
                        let a2 = if a < i {
                            a
                        } else {
                            a + 1
                        };
                        let b2 = if b < i {
                            b
                        } else {
                            b + 1
                        };
                        assert(news[a] == olds[a2]);
                        assert(news[b] == olds[b2]);
                    }
                }
                1
            },
            None => 0,
        }
    }

    /// The log row for an external message id, when one exists. This is
    /// how every follow-up action resolves a message back to its member.
    pub fn fetch_by_message_id(id: &str, db: &Db) -> (r: Option<MessageLog>)
        requires
            db.wf(),
        ensures
            r is Some <==> db.has_log(id@),
            r matches Some(l) ==> l == db.spec_log(id@),
    {
        match db.find_log_index(id) {
            Some(i) => {
                proof {
                    db.lemma_log_index(i as int);
                }
                Some(db.message_logs[i].dup())
            },
            None => None,
        }
    }

    /// All log rows of a member, in storage order.
    pub fn fetch_all_by_member_id(db: &Db, member_id: member::Id<Trusted>) -> (r: Vec<MessageLog>)
        ensures
            r@ == db.message_logs@.filter(log_of_member(member_id@)),
    {
        let n = db.message_logs.len();
        let mut out: Vec<MessageLog> = Vec::new();
        let mut i: usize = 0;
        while i < n
            invariant
                0 <= i <= n,
                n == db.message_logs@.len(),
                out@ == db.message_logs@.subrange(0, i as int).filter(log_of_member(member_id@)),
            decreases n - i,
        {
            proof {
                reveal_with_fuel(Seq::filter, 2);
                assert(db.message_logs@.subrange(0, i + 1).drop_last() =~= db.message_logs@.subrange(
                    0,
                    i as int,
                ));
                assert(db.message_logs@.subrange(0, i + 1).last() == db.message_logs@[i as int]);
            }
            if db.message_logs[i].member_id.value() == member_id.value() {
                out.push(db.message_logs[i].dup());
            }
            i = i + 1;
        }
        proof {
            assert(db.message_logs@.subrange(0, n as int) =~= db.message_logs@);
        }
        out
    }

    /// Appends a log row mapping a freshly posted message to the member it
    /// was posted as. The external id must not be recorded already.
    pub fn insert(member_id: member::Id<Trusted>, message_id: String, db: &mut Db) -> (r: Result<
        MessageLog,
        DuplicateMessageId,
    >)
        requires
            old(db).wf(),
            old(db).has_member(member_id@),
            old(db).next_log_id < i64::MAX,
        ensures
            final(db).wf(),
            r is Err <==> old(db).has_log(message_id@),
            r is Err ==> *final(db) == *old(db),
            r matches Ok(l) ==> log_insert_post(*old(db), *final(db), member_id, message_id@, l),
            final(db).has_log(message_id@),
    {
        if db.find_log_index(message_id.as_str()).is_some() {
            return Err(DuplicateMessageId);
        }
        let id = db.next_log_id;
        let row = MessageLog { id: Id::trusted(id), member_id, message_id };
        let r = row.dup();
        db.message_logs.push(row);
        db.next_log_id = id + 1;
        proof {
            let olds = old(db).message_logs@;
            let news = db.message_logs@;
            assert(news[news.len() - 1] == r);
            assert forall|a: int| 0 <= a < news.len() implies (#[trigger] news[a]).id@
                < db.next_log_id && db.has_member(news[a].member_id@) by {
                if a < news.len() - 1 {
                    assert(news[a] == olds[a]);
                    assert(old(db).has_member(olds[a].member_id@));
                }
            }
            assert forall|a: int, b: int|
                #![trigger news[a], news[b]]
                0 <= a < b < news.len() implies news[a].id@ != news[b].id@ && news[a].message_id@
                != news[b].message_id@ by {
                if b < news.len() - 1 {
                    assert(news[a] == olds[a] && news[b] == olds[b]);
                } else {
                    assert(news[a] == olds[a]);
                    assert(news[a].id@ < old(db).next_log_id);
                    if news[a].message_id@ == news[b].message_id@ {
                        assert(old(db).has_log(news[b].message_id@));
                    }
                }
            }
        }
        Ok(r)
    }
}

} // verus!
