//! The relational store, modelled in memory: four tables (systems, members,
//! triggers and aliases, message log) with the invariants the original
//! schema enforces.
//!
//! Every operation is a single-statement read or write; composite
//! operations are not atomic, matching the store they stand for.

use vstd::prelude::*;
use crate::alias::Alias;
use crate::member::Member;
use crate::message::MessageLog;
use crate::system::System;
use crate::text::spec_parse_i64;
use crate::trigger::Trigger;

verus! {

/// The store. Each `next_*` counter is the id the next inserted row gets;
/// every stored id is below its counter, which keeps fresh ids unique.
pub struct Db {
    pub systems: Vec<System>,
    pub members: Vec<Member>,
    pub triggers: Vec<Trigger>,
    pub aliases: Vec<Alias>,
    pub message_logs: Vec<MessageLog>,
    pub next_system_id: i64,
    pub next_member_id: i64,
    pub next_trigger_id: i64,
    pub next_alias_id: i64,
    pub next_log_id: i64,
}

impl Db {
    // ---- row existence ----
    /// A system row with this id exists.
    pub open spec fn has_system(self, id: int) -> bool {
        exists|i: int| 0 <= i < self.systems@.len() && (#[trigger] self.systems@[i]).id@ == id
    }

    /// A system row owned by this account exists.
    pub open spec fn has_system_owned_by(self, owner: Seq<char>) -> bool {
        exists|i: int|
            0 <= i < self.systems@.len() && (#[trigger] self.systems@[i]).owner_id@ == owner
    }

    /// A member row with this id exists.
    pub open spec fn has_member(self, id: int) -> bool {
        exists|i: int| 0 <= i < self.members@.len() && (#[trigger] self.members@[i]).id@ == id
    }

    /// A member row with this id exists inside this system.
    pub open spec fn has_member_in_system(self, member_id: int, system_id: int) -> bool {
        exists|i: int|
            0 <= i < self.members@.len() && (#[trigger] self.members@[i]).id@ == member_id
                && self.members@[i].system_id@ == system_id
    }

    /// A trigger row with this id exists inside this system.
    pub open spec fn has_trigger_in_system(self, trigger_id: int, system_id: int) -> bool {
        exists|i: int|
            0 <= i < self.triggers@.len() && (#[trigger] self.triggers@[i]).id@ == trigger_id
                && self.triggers@[i].system_id@ == system_id
    }

    /// A trigger row with this id exists.
    pub open spec fn has_trigger(self, id: int) -> bool {
        exists|i: int| 0 <= i < self.triggers@.len() && (#[trigger] self.triggers@[i]).id@ == id
    }

    /// An alias row with this id exists inside this system.
    pub open spec fn has_alias_in_system(self, alias_id: int, system_id: int) -> bool {
        exists|i: int|
            0 <= i < self.aliases@.len() && (#[trigger] self.aliases@[i]).id@ == alias_id
                && self.aliases@[i].system_id@ == system_id
    }

    /// An alias row with this id exists.
    pub open spec fn has_alias(self, id: int) -> bool {
        exists|i: int| 0 <= i < self.aliases@.len() && (#[trigger] self.aliases@[i]).id@ == id
    }

    /// An alias row with this text exists inside this system.
    pub open spec fn has_alias_text(self, text: Seq<char>, system_id: int) -> bool {
        exists|i: int|
            0 <= i < self.aliases@.len() && (#[trigger] self.aliases@[i]).alias@ == text
                && self.aliases@[i].system_id@ == system_id
    }

    /// A log row for this external message id exists.
    pub open spec fn has_log(self, message_id: Seq<char>) -> bool {
        exists|i: int|
            0 <= i < self.message_logs@.len() && (#[trigger] self.message_logs@[i]).message_id@
                == message_id
    }

    // ---- row access (meaningful under `wf`, which makes rows unique) ----
    /// The index of the system row with this id.
    pub open spec fn system_index(self, id: int) -> int {
        choose|i: int| 0 <= i < self.systems@.len() && (#[trigger] self.systems@[i]).id@ == id
    }

    /// The system row with this id.
    pub open spec fn spec_system(self, id: int) -> System {
        self.systems@[self.system_index(id)]
    }

    /// The index of the system row owned by this account.
    pub open spec fn system_index_by_owner(self, owner: Seq<char>) -> int {
        choose|i: int|
            0 <= i < self.systems@.len() && (#[trigger] self.systems@[i]).owner_id@ == owner
    }

    /// The system row owned by this account.
    pub open spec fn spec_system_by_owner(self, owner: Seq<char>) -> System {
        self.systems@[self.system_index_by_owner(owner)]
    }

    /// The index of the member row with this id.
    pub open spec fn member_index(self, id: int) -> int {
        choose|i: int| 0 <= i < self.members@.len() && (#[trigger] self.members@[i]).id@ == id
    }

    /// The member row with this id.
    pub open spec fn spec_member(self, id: int) -> Member {
        self.members@[self.member_index(id)]
    }

    /// The member row with this id exists and is enabled.
    pub open spec fn member_enabled(self, id: int) -> bool {
        self.has_member(id) && self.spec_member(id).enabled
    }

    /// The index of the trigger row with this id.
    pub open spec fn trigger_index(self, id: int) -> int {
        choose|i: int| 0 <= i < self.triggers@.len() && (#[trigger] self.triggers@[i]).id@ == id
    }

    /// The trigger row with this id.
    pub open spec fn spec_trigger(self, id: int) -> Trigger {
        self.triggers@[self.trigger_index(id)]
    }

    /// The index of the alias row with this text in this system.
    pub open spec fn alias_index_by_text(self, text: Seq<char>, system_id: int) -> int {
        choose|i: int|
            0 <= i < self.aliases@.len() && (#[trigger] self.aliases@[i]).alias@ == text
                && self.aliases@[i].system_id@ == system_id
    }

    /// The index of the log row for this external message id.
    pub open spec fn log_index(self, message_id: Seq<char>) -> int {
        choose|i: int|
            0 <= i < self.message_logs@.len() && (#[trigger] self.message_logs@[i]).message_id@
                == message_id
    }

    /// The log row for this external message id.
    pub open spec fn spec_log(self, message_id: Seq<char>) -> MessageLog {
        self.message_logs@[self.log_index(message_id)]
    }

    /// The alias row with this text in this system.
    pub open spec fn spec_alias_by_text(self, text: Seq<char>, system_id: int) -> Alias {
        self.aliases@[self.alias_index_by_text(text, system_id)]
    }

    /// The index of the alias row with this id.
    pub open spec fn alias_index(self, id: int) -> int {
        choose|i: int| 0 <= i < self.aliases@.len() && (#[trigger] self.aliases@[i]).id@ == id
    }

    /// The alias row with this id.
    pub open spec fn spec_alias(self, id: int) -> Alias {
        self.aliases@[self.alias_index(id)]
    }

    /// The member row with this id exists and its system's owner is this
    /// account.
    pub open spec fn member_owned_by(self, member_id: int, owner: Seq<char>) -> bool {
        &&& self.has_member(member_id)
        &&& self.has_system(self.spec_member(member_id).system_id@)
        &&& self.spec_system(self.spec_member(member_id).system_id@).owner_id@ == owner
    }

    // ---- well-formedness ----
    /// System ids and owners are unique, and every id is below the counter.
    pub open spec fn systems_wf(self) -> bool {
        &&& forall|i: int, j: int|
            #![trigger self.systems@[i], self.systems@[j]]
            0 <= i < j < self.systems@.len() ==> self.systems@[i].id@ != self.systems@[j].id@
                && self.systems@[i].owner_id@ != self.systems@[j].owner_id@
        &&& forall|i: int|
            0 <= i < self.systems@.len() ==> (#[trigger] self.systems@[i]).id@
                < self.next_system_id
    }

    /// Member ids are unique and below the counter; every member belongs to
    /// an existing system.
    pub open spec fn members_wf(self) -> bool {
        &&& forall|i: int, j: int|
            #![trigger self.members@[i], self.members@[j]]
            0 <= i < j < self.members@.len() ==> self.members@[i].id@ != self.members@[j].id@
        &&& forall|i: int|
            0 <= i < self.members@.len() ==> (#[trigger] self.members@[i]).id@
                < self.next_member_id
        &&& forall|i: int|
            0 <= i < self.members@.len() ==> self.has_system(
                (#[trigger] self.members@[i]).system_id@,
            )
    }

    /// A fronting pointer, when set, names a member of that same system.
    pub open spec fn fronting_wf(self) -> bool {
        forall|i: int|
            0 <= i < self.systems@.len() ==> match (#[trigger] self.systems@[i]).currently_fronting_member_id {
                Some(m) => self.has_member_in_system(m@, self.systems@[i].id@),
                None => true,
            }
    }

    /// Trigger ids are unique and below the counter; every trigger belongs
    /// to an existing member, and its denormalized system id is that
    /// member's system.
    pub open spec fn triggers_wf(self) -> bool {
        &&& forall|i: int, j: int|
            #![trigger self.triggers@[i], self.triggers@[j]]
            0 <= i < j < self.triggers@.len() ==> self.triggers@[i].id@ != self.triggers@[j].id@
        &&& forall|i: int|
            0 <= i < self.triggers@.len() ==> (#[trigger] self.triggers@[i]).id@
                < self.next_trigger_id
        &&& forall|i: int|
            0 <= i < self.triggers@.len() ==> self.has_member_in_system(
                (#[trigger] self.triggers@[i]).member_id@,
                self.triggers@[i].system_id@,
            )
    }

    /// Alias ids are unique and below the counter; every alias belongs to an
    /// existing member of its system; alias text is unique per system and
    /// never parses as a pure integer.
    pub open spec fn aliases_wf(self) -> bool {
        &&& forall|i: int, j: int|
            #![trigger self.aliases@[i], self.aliases@[j]]
            0 <= i < j < self.aliases@.len() ==> self.aliases@[i].id@ != self.aliases@[j].id@ && !(
            self.aliases@[i].system_id@ == self.aliases@[j].system_id@ && self.aliases@[i].alias@
                == self.aliases@[j].alias@)
        &&& forall|i: int|
            0 <= i < self.aliases@.len() ==> (#[trigger] self.aliases@[i]).id@
                < self.next_alias_id
        &&& forall|i: int|
            0 <= i < self.aliases@.len() ==> self.has_member_in_system(
                (#[trigger] self.aliases@[i]).member_id@,
                self.aliases@[i].system_id@,
            )
        &&& forall|i: int|
            0 <= i < self.aliases@.len() ==> spec_parse_i64(
                (#[trigger] self.aliases@[i]).alias@,
            ) is None
    }

    /// Log ids and external message ids are unique, ids are below the
    /// counter, and every log row names an existing member.
    pub open spec fn logs_wf(self) -> bool {
        &&& forall|i: int, j: int|
            #![trigger self.message_logs@[i], self.message_logs@[j]]
            0 <= i < j < self.message_logs@.len() ==> self.message_logs@[i].id@
                != self.message_logs@[j].id@ && self.message_logs@[i].message_id@
                != self.message_logs@[j].message_id@
        &&& forall|i: int|
            0 <= i < self.message_logs@.len() ==> (#[trigger] self.message_logs@[i]).id@
                < self.next_log_id
        &&& forall|i: int|
            0 <= i < self.message_logs@.len() ==> self.has_member(
                (#[trigger] self.message_logs@[i]).member_id@,
            )
    }

    /// The store invariant: all tables well-formed.
    pub open spec fn wf(self) -> bool {
        &&& self.systems_wf()
        &&& self.members_wf()
        &&& self.fronting_wf()
        &&& self.triggers_wf()
        &&& self.aliases_wf()
        &&& self.logs_wf()
    }

    /// An empty store. Ids start at one.
    pub fn new() -> (r: Db)
        ensures
            r.wf(),
            r.systems@.len() == 0,
            r.members@.len() == 0,
            r.triggers@.len() == 0,
            r.aliases@.len() == 0,
            r.message_logs@.len() == 0,
            r.next_system_id == 1,
            r.next_member_id == 1,
            r.next_trigger_id == 1,
            r.next_alias_id == 1,
            r.next_log_id == 1,
    {
        Db {
            systems: Vec::new(),
            members: Vec::new(),
            triggers: Vec::new(),
            aliases: Vec::new(),
            message_logs: Vec::new(),
            next_system_id: 1,
            next_member_id: 1,
            next_trigger_id: 1,
            next_alias_id: 1,
            next_log_id: 1,
        }
    }

    // ---- linear scans, the single-statement reads of the store ----
    pub(crate) fn find_system_index(&self, id: i64) -> (r: Option<usize>)
        ensures
            match r {
                Some(i) => i < self.systems@.len() && self.systems@[i as int].id@ == id,
                None => !self.has_system(id as int),
            },
    {
        let n = self.systems.len();
        let mut i: usize = 0;
        while i < n
            invariant
                0 <= i <= n,
                n == self.systems@.len(),
                forall|j: int| 0 <= j < i ==> (#[trigger] self.systems@[j]).id@ != id,
            decreases n - i,
        {
            if self.systems[i].id.value() == id {
                return Some(i);
            }
            i = i + 1;
        }
        None
    }

    pub(crate) fn find_system_index_by_owner<T: crate::trust::Trustability>(
        &self,
        owner: &crate::user::Id<T>,
    ) -> (r: Option<usize>)
        ensures
            match r {
                Some(i) => i < self.systems@.len() && self.systems@[i as int].owner_id@ == owner@,
                None => !self.has_system_owned_by(owner@),
            },
    {
        let n = self.systems.len();
        let mut i: usize = 0;
        while i < n
            invariant
                0 <= i <= n,
                n == self.systems@.len(),
                forall|j: int| 0 <= j < i ==> (#[trigger] self.systems@[j]).owner_id@ != owner@,
            decreases n - i,
        {
            if self.systems[i].owner_id.same_as(owner) {
                return Some(i);
            }
            i = i + 1;
        }
        None
    }

    pub(crate) fn find_member_index(&self, id: i64) -> (r: Option<usize>)
        ensures
            match r {
                Some(i) => i < self.members@.len() && self.members@[i as int].id@ == id,
                None => !self.has_member(id as int),
            },
    {
        let n = self.members.len();
        let mut i: usize = 0;
        while i < n
            invariant
                0 <= i <= n,
                n == self.members@.len(),
                forall|j: int| 0 <= j < i ==> (#[trigger] self.members@[j]).id@ != id,
            decreases n - i,
        {
            if self.members[i].id.value() == id {
                return Some(i);
            }
            i = i + 1;
        }
        None
    }

    pub(crate) fn find_trigger_index(&self, id: i64) -> (r: Option<usize>)
        ensures
            match r {
                Some(i) => i < self.triggers@.len() && self.triggers@[i as int].id@ == id,
                None => !self.has_trigger(id as int),
            },
    {
        let n = self.triggers.len();
        let mut i: usize = 0;
        while i < n
            invariant
                0 <= i <= n,
                n == self.triggers@.len(),
                forall|j: int| 0 <= j < i ==> (#[trigger] self.triggers@[j]).id@ != id,
            decreases n - i,
        {
            if self.triggers[i].id.value() == id {
                return Some(i);
            }
            i = i + 1;
        }
        None
    }

    pub(crate) fn find_alias_index(&self, id: i64) -> (r: Option<usize>)
        ensures
            match r {
                Some(i) => i < self.aliases@.len() && self.aliases@[i as int].id@ == id,
                None => !self.has_alias(id as int),
            },
    {
        let n = self.aliases.len();
        let mut i: usize = 0;
        while i < n
            invariant
                0 <= i <= n,
                n == self.aliases@.len(),
                forall|j: int| 0 <= j < i ==> (#[trigger] self.aliases@[j]).id@ != id,
            decreases n - i,
        {
            if self.aliases[i].id.value() == id {
                return Some(i);
            }
            i = i + 1;
        }
        None
    }

    pub(crate) fn find_alias_index_by_text(&self, text: &str, system_id: i64) -> (r: Option<
        usize,
    >)
        ensures
            match r {
                Some(i) => i < self.aliases@.len() && self.aliases@[i as int].alias@ == text@
                    && self.aliases@[i as int].system_id@ == system_id,
                None => !self.has_alias_text(text@, system_id as int),
            },
    {
        let n = self.aliases.len();
        let mut i: usize = 0;
        while i < n
            invariant
                0 <= i <= n,
                n == self.aliases@.len(),
                forall|j: int|
                    0 <= j < i ==> !((#[trigger] self.aliases@[j]).alias@ == text@
                        && self.aliases@[j].system_id@ == system_id),
            decreases n - i,
        {
            if self.aliases[i].system_id.value() == system_id && crate::text::str_eq(
                self.aliases[i].alias.as_str(),
                text,
            ) {
                return Some(i);
            }
            i = i + 1;
        }
        None
    }

    pub(crate) fn find_log_index(&self, message_id: &str) -> (r: Option<usize>)
        ensures
            match r {
                Some(i) => i < self.message_logs@.len() && self.message_logs@[i as int].message_id@
                    == message_id@,
                None => !self.has_log(message_id@),
            },
    {
        let n = self.message_logs.len();
        let mut i: usize = 0;
        while i < n
            invariant
                0 <= i <= n,
                n == self.message_logs@.len(),
                forall|j: int| 0 <= j < i ==> (#[trigger] self.message_logs@[j]).message_id@
                    != message_id@,
            decreases n - i,
        {
            if crate::text::str_eq(self.message_logs[i].message_id.as_str(), message_id) {
                return Some(i);
            }
            i = i + 1;
        }
        None
    }

    // ---- uniqueness: an index with the property is the chosen index ----
    /// With unique system ids, any row with the id is at the chosen index.
    pub proof fn lemma_system_index(self, i: int)
        requires
            self.systems_wf(),
            0 <= i < self.systems@.len(),
        ensures
            self.system_index(self.systems@[i].id@) == i,
            self.spec_system(self.systems@[i].id@) == self.systems@[i],
    {
        let id = self.systems@[i].id@;
        assert(self.has_system(id));
        let j = self.system_index(id);
        if i != j {
            assert(self.systems@[i].id@ != self.systems@[j].id@);
        }
    }

    /// With unique owners, any row with the owner is at the chosen index.
    pub proof fn lemma_system_index_by_owner(self, i: int)
        requires
            self.systems_wf(),
            0 <= i < self.systems@.len(),
        ensures
            self.system_index_by_owner(self.systems@[i].owner_id@) == i,
            self.spec_system_by_owner(self.systems@[i].owner_id@) == self.systems@[i],
    {
        let owner = self.systems@[i].owner_id@;
        assert(self.has_system_owned_by(owner));
        let j = self.system_index_by_owner(owner);
        if i != j {
            assert(self.systems@[i].owner_id@ != self.systems@[j].owner_id@);
        }
    }

    /// With unique member ids, any row with the id is at the chosen index.
    pub proof fn lemma_member_index(self, i: int)
        requires
            self.members_wf(),
            0 <= i < self.members@.len(),
        ensures
            self.member_index(self.members@[i].id@) == i,
            self.spec_member(self.members@[i].id@) == self.members@[i],
    {
        let id = self.members@[i].id@;
        assert(self.has_member(id));
        let j = self.member_index(id);
        if i != j {
            assert(self.members@[i].id@ != self.members@[j].id@);
        }
    }

    /// With unique trigger ids, any row with the id is at the chosen index.
    pub proof fn lemma_trigger_index(self, i: int)
        requires
            self.triggers_wf(),
            0 <= i < self.triggers@.len(),
        ensures
            self.trigger_index(self.triggers@[i].id@) == i,
            self.spec_trigger(self.triggers@[i].id@) == self.triggers@[i],
    {
        let id = self.triggers@[i].id@;
        assert(self.has_trigger(id));
        let j = self.trigger_index(id);
        if i != j {
            assert(self.triggers@[i].id@ != self.triggers@[j].id@);
        }
    }

    /// With unique member ids, membership in a system is membership plus
    /// the stored row pointing at that system.
    pub proof fn lemma_member_in_system(self, m: int, s: int)
        requires
            self.members_wf(),
        ensures
            self.has_member_in_system(m, s) <==> (self.has_member(m) && self.spec_member(
                m,
            ).system_id@ == s),
    {
        if self.has_member_in_system(m, s) {
            let j = choose|j: int|
                0 <= j < self.members@.len() && (#[trigger] self.members@[j]).id@ == m
                    && self.members@[j].system_id@ == s;
            self.lemma_member_index(j);
        }
        if self.has_member(m) && self.spec_member(m).system_id@ == s {
            let j = self.member_index(m);
            assert(0 <= j < self.members@.len() && self.members@[j].id@ == m
                && self.members@[j].system_id@ == s);
        }
    }

    /// With unique trigger ids, a trigger is in a system exactly when its
    /// stored row points at that system.
    pub proof fn lemma_trigger_in_system(self, t: int, s: int)
        requires
            self.triggers_wf(),
        ensures
            self.has_trigger_in_system(t, s) <==> (self.has_trigger(t) && self.spec_trigger(
                t,
            ).system_id@ == s),
    {
        if self.has_trigger_in_system(t, s) {
            let j = choose|j: int|
                0 <= j < self.triggers@.len() && (#[trigger] self.triggers@[j]).id@ == t
                    && self.triggers@[j].system_id@ == s;
            self.lemma_trigger_index(j);
        }
        if self.has_trigger(t) && self.spec_trigger(t).system_id@ == s {
            let j = self.trigger_index(t);
            assert(0 <= j < self.triggers@.len() && self.triggers@[j].id@ == t
                && self.triggers@[j].system_id@ == s);
        }
    }

    /// With unique alias ids, an alias is in a system exactly when its
    /// stored row points at that system.
    pub proof fn lemma_alias_in_system(self, a: int, s: int)
        requires
            self.aliases_wf(),
        ensures
            self.has_alias_in_system(a, s) <==> (self.has_alias(a) && self.spec_alias(
                a,
            ).system_id@ == s),
    {
        if self.has_alias_in_system(a, s) {
            let j = choose|j: int|
                0 <= j < self.aliases@.len() && (#[trigger] self.aliases@[j]).id@ == a
                    && self.aliases@[j].system_id@ == s;
            self.lemma_alias_index(j);
        }
        if self.has_alias(a) && self.spec_alias(a).system_id@ == s {
            let j = self.alias_index(a);
            assert(0 <= j < self.aliases@.len() && self.aliases@[j].id@ == a
                && self.aliases@[j].system_id@ == s);
        }
    }

    /// With unique alias ids, any row with the id is at the chosen index.
    pub proof fn lemma_alias_index(self, i: int)
        requires
            self.aliases_wf(),
            0 <= i < self.aliases@.len(),
        ensures
            self.alias_index(self.aliases@[i].id@) == i,
            self.spec_alias(self.aliases@[i].id@) == self.aliases@[i],
    {
        let id = self.aliases@[i].id@;
        assert(self.has_alias(id));
        let j = self.alias_index(id);
        if i != j {
            assert(self.aliases@[i].id@ != self.aliases@[j].id@);
        }
    }

    /// With alias text unique per system, any row with the text is at the
    /// chosen index.
    pub proof fn lemma_alias_index_by_text(self, i: int)
        requires
            self.aliases_wf(),
            0 <= i < self.aliases@.len(),
        ensures
            self.alias_index_by_text(self.aliases@[i].alias@, self.aliases@[i].system_id@) == i,
            self.spec_alias_by_text(self.aliases@[i].alias@, self.aliases@[i].system_id@)
                == self.aliases@[i],
    {
        let text = self.aliases@[i].alias@;
        let sid = self.aliases@[i].system_id@;
        assert(self.has_alias_text(text, sid));
        let j = self.alias_index_by_text(text, sid);
        if i != j {
            assert(!(self.aliases@[i].system_id@ == self.aliases@[j].system_id@
                && self.aliases@[i].alias@ == self.aliases@[j].alias@));
        }
    }

    /// With unique external message ids, any row with the id is at the
    /// chosen index.
    pub proof fn lemma_log_index(self, i: int)
        requires
            self.logs_wf(),
            0 <= i < self.message_logs@.len(),
        ensures
            self.log_index(self.message_logs@[i].message_id@) == i,
            self.spec_log(self.message_logs@[i].message_id@) == self.message_logs@[i],
    {
        let mid = self.message_logs@[i].message_id@;
        assert(self.has_log(mid));
        let j = self.log_index(mid);
        if i != j {
            assert(self.message_logs@[i].message_id@ != self.message_logs@[j].message_id@);
        }
    }
}

} // verus!
