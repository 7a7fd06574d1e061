//! The operations the command layer calls directly: switching the fronting
//! member and managing a member's enabled flag, with the business rules the
//! commands enforce before touching the store.

use vstd::prelude::*;
use crate::db::Db;
use crate::form::{has_missing_required, last_value, required_present, FormField,
    MissingFieldError};
use crate::member;
use crate::member::{Member, MemberRef, MemberView};
use crate::system::{fronting_set, System};
use crate::trust::Trusted;
use crate::user;

verus! {

/// The member id a verified reference resolves to.
pub open spec fn spec_resolved_ref(db: Db, r: MemberRef, system_id: int) -> int {
    match r {
        MemberRef::Id(id) => id@,
        MemberRef::Alias(a) => db.spec_alias_by_text(a@, system_id).member_id@,
    }
}

/// The reference names a member of the system.
pub open spec fn ref_in_system(db: Db, r: MemberRef, system_id: int) -> bool {
    match r {
        MemberRef::Id(id) => db.has_member_in_system(id@, system_id),
        MemberRef::Alias(a) => db.has_alias_text(a@, system_id),
    }
}

/// What a switch command came to.
#[derive(Debug)]
pub enum SwitchOutcome {
    /// The requester has no system.
    NoSystem,
    /// The reference names no member of the requester's system.
    MemberNotFound,
    /// The member exists but is disabled; disabled members cannot front.
    MemberDisabled,
    /// The system now fronts no member: messages pass through untouched.
    SwitchedToBase,
    /// The system now fronts this member.
    Switched { member: Member },
}

/// Switches the requester's system to fronting the referenced member, or
/// back to the base account. A disabled member is refused; nothing changes
/// on any refusal.
pub fn switch_member(
    requester: &user::Id<Trusted>,
    member_ref: Option<&MemberRef>,
    base: bool,
    db: &mut Db,
) -> (r: SwitchOutcome)
    requires
        old(db).wf(),
        base || member_ref is Some,
    ensures
        final(db).wf(),
        !old(db).has_system_owned_by(requester@) ==> (r matches SwitchOutcome::NoSystem
            && *final(db) == *old(db)),
        old(db).has_system_owned_by(requester@) ==> ({
            let sys = old(db).spec_system_by_owner(requester@);
            if base {
                r matches SwitchOutcome::SwitchedToBase && fronting_set(
                    *old(db),
                    *final(db),
                    sys.id@,
                    None,
                )
            } else {
                let mref = *member_ref->Some_0;
                if !ref_in_system(*old(db), mref, sys.id@) {
                    r matches SwitchOutcome::MemberNotFound && *final(db) == *old(db)
                } else {
                    let m = spec_resolved_ref(*old(db), mref, sys.id@);
                    if !old(db).spec_member(m).enabled {
                        r matches SwitchOutcome::MemberDisabled && *final(db) == *old(db)
                    } else {
                        r matches SwitchOutcome::Switched { member } && member == old(
                            db,
                        ).spec_member(m) && fronting_set(*old(db), *final(db), sys.id@, Some(m))
                    }
                }
            }
        }),
{
    let system = match System::fetch_by_user_id(requester, db) {
        Some(s) => s,
        None => {
            return SwitchOutcome::NoSystem;
        },
    };
    if base {
        system.id.change_fronting_member(None, db);
        return SwitchOutcome::SwitchedToBase;
    }
    let mref = match member_ref {
        Some(m) => m,
        None => {
            proof {
                assert(false);
            }
            return SwitchOutcome::NoSystem;
        },
    };
    let member_id = match mref.validate_by_system(system.id, db) {
        Some(id) => id,
        None => {
            return SwitchOutcome::MemberNotFound;
        },
    };
    proof {
        lemma_ref_resolved(*db, *mref, system.id@, member_id@);
    }
    let enabled = match member_id.enabled(db) {
        Some(e) => e,
        None => {
            proof {
                assert(false);
            }
            false
        },
    };
    if !enabled {
        return SwitchOutcome::MemberDisabled;
    }
    match system.id.change_fronting_member(Some(member_id), db) {
        Some(member) => SwitchOutcome::Switched { member },
        None => {
            proof {
                assert(false);
            }
            SwitchOutcome::MemberNotFound
        },
    }
}

/// A reference validated against a system resolves to a member of that
/// system.
proof fn lemma_ref_resolved(db: Db, mref: MemberRef, system_id: int, resolved: int)
    requires
        db.wf(),
        ref_in_system(db, mref, system_id),
        resolved == spec_resolved_ref(db, mref, system_id),
    ensures
        db.has_member_in_system(resolved, system_id),
        db.has_member(resolved),
        db.spec_member(resolved).system_id@ == system_id,
{
    match mref {
        MemberRef::Id(id) => {
            let w = choose|w: int|
                0 <= w < db.members@.len() && (#[trigger] db.members@[w]).id@ == id@
                    && db.members@[w].system_id@ == system_id;
            db.lemma_member_index(w);
        },
        MemberRef::Alias(a) => {
            let w = choose|w: int|
                0 <= w < db.aliases@.len() && (#[trigger] db.aliases@[w]).alias@ == a@
                    && db.aliases@[w].system_id@ == system_id;
            db.lemma_alias_index_by_text(w);
            assert(db.has_member_in_system(db.aliases@[w].member_id@, db.aliases@[w].system_id@));
            let v = choose|v: int|
                0 <= v < db.members@.len() && (#[trigger] db.members@[v]).id@
                    == db.aliases@[w].member_id@ && db.members@[v].system_id@
                    == db.aliases@[w].system_id@;
            db.lemma_member_index(v);
        },
    }
}

/// What an enable or disable command came to.
#[derive(Debug)]
pub enum EnableOutcome {
    /// The requester has no system.
    NoSystem,
    /// The reference names no member of the requester's system.
    MemberNotFound,
    /// The member already has the asked-for flag; nothing changed.
    Unchanged,
    /// Disabling the currently fronting member is refused: switch first.
    CurrentlyFronting,
    /// The flag was written.
    Changed,
}

/// Disables a member: it keeps its rows and its past messages, but the
/// matcher and every reference stop finding it. The currently fronting
/// member cannot be disabled.
pub fn disable(requester: &user::Id<Trusted>, member_ref: &MemberRef, db: &mut Db) -> (r:
    EnableOutcome)
    requires
        old(db).wf(),
    ensures
        final(db).wf(),
        !old(db).has_system_owned_by(requester@) ==> (r matches EnableOutcome::NoSystem
            && *final(db) == *old(db)),
        old(db).has_system_owned_by(requester@) ==> ({
            let sys = old(db).spec_system_by_owner(requester@);
            if !ref_in_system(*old(db), *member_ref, sys.id@) {
                r matches EnableOutcome::MemberNotFound && *final(db) == *old(db)
            } else {
                let m = spec_resolved_ref(*old(db), *member_ref, sys.id@);
                if !old(db).spec_member(m).enabled {
                    r matches EnableOutcome::Unchanged && *final(db) == *old(db)
                } else if sys.currently_fronting_member_id matches Some(f) && f@ == m {
                    r matches EnableOutcome::CurrentlyFronting && *final(db) == *old(db)
                } else {
                    let i = old(db).member_index(m);
                    r matches EnableOutcome::Changed && final(db).members@ == old(
                        db,
                    ).members@.update(
                        i,
                        Member { enabled: false, ..old(db).members@[i] },
                    ) && final(db).systems == old(db).systems && final(db).triggers == old(
                        db,
                    ).triggers && final(db).aliases == old(db).aliases && final(db).message_logs
                        == old(db).message_logs
                }
            }
        }),
{
    let system = match System::fetch_by_user_id(requester, db) {
        Some(s) => s,
        None => {
            return EnableOutcome::NoSystem;
        },
    };
    let member_id = match member_ref.validate_by_system(system.id, db) {
        Some(id) => id,
        None => {
            return EnableOutcome::MemberNotFound;
        },
    };
    proof {
        lemma_ref_resolved(*db, *member_ref, system.id@, member_id@);
    }
    let enabled = match member_id.enabled(db) {
        Some(e) => e,
        None => {
            proof {
                assert(false);
            }
            false
        },
    };
    if !enabled {
        return EnableOutcome::Unchanged;
    }
    let fronting = match system.currently_fronting_member_id {
        Some(f) => f.value() == member_id.value(),
        None => false,
    };
    if fronting {
        return EnableOutcome::CurrentlyFronting;
    }
    member_id.set_enabled(false, db);
    EnableOutcome::Changed
}

/// Enables a member again, so that its aliases and triggers work once more.
pub fn enable(requester: &user::Id<Trusted>, member_ref: &MemberRef, db: &mut Db) -> (r:
    EnableOutcome)
    requires
        old(db).wf(),
    ensures
        final(db).wf(),
        !old(db).has_system_owned_by(requester@) ==> (r matches EnableOutcome::NoSystem
            && *final(db) == *old(db)),
        old(db).has_system_owned_by(requester@) ==> ({
            let sys = old(db).spec_system_by_owner(requester@);
            if !ref_in_system(*old(db), *member_ref, sys.id@) {
                r matches EnableOutcome::MemberNotFound && *final(db) == *old(db)
            } else {
                let m = spec_resolved_ref(*old(db), *member_ref, sys.id@);
                if old(db).spec_member(m).enabled {
                    r matches EnableOutcome::Unchanged && *final(db) == *old(db)
                } else {
                    let i = old(db).member_index(m);
                    r matches EnableOutcome::Changed && final(db).members@ == old(
                        db,
                    ).members@.update(
                        i,
                        Member { enabled: true, ..old(db).members@[i] },
                    ) && final(db).systems == old(db).systems && final(db).triggers == old(
                        db,
                    ).triggers && final(db).aliases == old(db).aliases && final(db).message_logs
                        == old(db).message_logs
                }
            }
        }),
{
    let system = match System::fetch_by_user_id(requester, db) {
        Some(s) => s,
        None => {
            return EnableOutcome::NoSystem;
        },
    };
    let member_id = match member_ref.validate_by_system(system.id, db) {
        Some(id) => id,
        None => {
            return EnableOutcome::MemberNotFound;
        },
    };
    proof {
        lemma_ref_resolved(*db, *member_ref, system.id@, member_id@);
    }
    let enabled = match member_id.enabled(db) {
        Some(e) => e,
        None => {
            proof {
                assert(false);
            }
            true
        },
    };
    if enabled {
        return EnableOutcome::Unchanged;
    }
    member_id.set_enabled(true, db);
    EnableOutcome::Changed
}

/// What a member-creation form submission came to.
#[derive(Debug)]
pub enum CreateMemberOutcome {
    /// The submission lacked a required field; nothing was written.
    Malformed { error: MissingFieldError },
    /// The requester has no system; nothing was written.
    NoSystem,
    /// The member was added with this id.
    Created { member_id: i64 },
}

/// Handles a member-creation form: the submission is validated before any
/// side effect, then the member is added to the requester's system.
pub fn create_member(requester: &user::Id<Trusted>, fields: &Vec<FormField>, created_at: i64, db: &mut Db) -> (r:
    CreateMemberOutcome)
    requires
        old(db).wf(),
        old(db).next_member_id < i64::MAX,
    ensures
        final(db).wf(),
        (r matches CreateMemberOutcome::Malformed { error } || r
            matches CreateMemberOutcome::NoSystem) ==> *final(db) == *old(db),
        r matches CreateMemberOutcome::Malformed { error } ==> (has_missing_required(
            fields@,
            "full_name"@,
            "display_name"@,
        ) || !required_present(fields@, "full_name"@) || !required_present(
            fields@,
            "display_name"@,
        )),
        r matches CreateMemberOutcome::NoSystem ==> !old(db).has_system_owned_by(requester@),
        r matches CreateMemberOutcome::Created { member_id } ==> ({
            let new_m = final(db).members@.last();
            &&& old(db).has_system_owned_by(requester@)
            &&& final(db).members@ == old(db).members@.push(new_m)
            &&& new_m.id@ == member_id
            &&& new_m.system_id == old(db).spec_system_by_owner(requester@).id
            &&& new_m.enabled == true
            &&& last_value(fields@, "full_name"@) == Some(Some(new_m.full_name@))
            &&& last_value(fields@, "display_name"@) == Some(Some(new_m.display_name@))
            &&& final(db).systems == old(db).systems
            &&& final(db).triggers == old(db).triggers
            &&& final(db).aliases == old(db).aliases
            &&& final(db).message_logs == old(db).message_logs
        }),
{
    let view = match MemberView::from_form(fields) {
        Ok(v) => v,
        Err(error) => {
            return CreateMemberOutcome::Malformed { error };
        },
    };
    let system = match System::fetch_by_user_id(requester, db) {
        Some(s) => s,
        None => {
            return CreateMemberOutcome::NoSystem;
        },
    };
    proof {
        let w = choose|w: int|
            0 <= w < db.systems@.len() && (#[trigger] db.systems@[w]).owner_id@ == requester@;
        assert(db.has_system(system.id@));
    }
    let member_id = view.add(system.id, created_at, db);
    CreateMemberOutcome::Created { member_id }
}

/// What a member-edit form submission came to.
#[derive(Debug)]
pub enum EditMemberOutcome {
    /// The submission lacked a required field; nothing was written.
    Malformed { error: MissingFieldError },
    /// The edited member is not the requester's; nothing was written.
    NotYourMember,
    /// The member's profile was rewritten.
    Edited,
}

/// Handles a member-edit form: the submission is validated before any side
/// effect, the edited member id is verified to belong to the requesting
/// account, and only then is the profile rewritten.
pub fn edit_member(
    requester: &user::Id<Trusted>,
    member_id: member::Id<crate::trust::Untrusted>,
    fields: &Vec<FormField>,
    db: &mut Db,
) -> (r: EditMemberOutcome)
    requires
        old(db).wf(),
    ensures
        final(db).wf(),
        (r matches EditMemberOutcome::Malformed { error } || r
            matches EditMemberOutcome::NotYourMember) ==> *final(db) == *old(db),
        r matches EditMemberOutcome::NotYourMember ==> !old(db).member_owned_by(
            member_id@,
            requester@,
        ),
        r matches EditMemberOutcome::Edited ==> ({
            let i = old(db).member_index(member_id@);
            let old_m = old(db).members@[i];
            let new_m = final(db).members@[i];
            &&& old(db).member_owned_by(member_id@, requester@)
            &&& final(db).members@ == old(db).members@.update(i, new_m)
            &&& new_m.id == old_m.id
            &&& new_m.system_id == old_m.system_id
            &&& new_m.enabled == old_m.enabled
            &&& last_value(fields@, "full_name"@) == Some(Some(new_m.full_name@))
            &&& last_value(fields@, "display_name"@) == Some(Some(new_m.display_name@))
            &&& final(db).systems == old(db).systems
            &&& final(db).triggers == old(db).triggers
            &&& final(db).aliases == old(db).aliases
            &&& final(db).message_logs == old(db).message_logs
        }),
{
    let view = match MemberView::from_form(fields) {
        Ok(v) => v,
        Err(error) => {
            return EditMemberOutcome::Malformed { error };
        },
    };
    let trusted = match member_id.validate_by_user(requester, db) {
        Some(id) => id,
        None => {
            return EditMemberOutcome::NotYourMember;
        },
    };
    let rows = view.update(trusted, db);
    proof {
        assert(rows == 1);
    }
    EditMemberOutcome::Edited
}

/// What an info command came to.
#[derive(Debug)]
pub enum InfoOutcome {
    /// The requester has no system.
    NoSystem,
    /// The reference names no member of the requester's system.
    MemberNotFound,
    /// The member exists but is disabled; only its name is reported.
    Disabled { member: Member },
    /// The member's record, and whether it is the one currently fronting.
    Info { member: Member, fronting: bool },
}

/// Looks a member up for display: its record, and whether it currently
/// fronts the system. Mutates nothing.
pub fn member_info(requester: &user::Id<Trusted>, member_ref: &MemberRef, db: &Db) -> (r:
    InfoOutcome)
    requires
        db.wf(),
    ensures
        !db.has_system_owned_by(requester@) ==> r matches InfoOutcome::NoSystem,
        db.has_system_owned_by(requester@) ==> ({
            let sys = db.spec_system_by_owner(requester@);
            if !ref_in_system(*db, *member_ref, sys.id@) {
                r matches InfoOutcome::MemberNotFound
            } else {
                let m = spec_resolved_ref(*db, *member_ref, sys.id@);
                if !db.spec_member(m).enabled {
                    r matches InfoOutcome::Disabled { member } && member == db.spec_member(m)
                } else {
                    r matches InfoOutcome::Info { member, fronting } && member == db.spec_member(m)
                        && fronting == (sys.currently_fronting_member_id matches Some(f) && f@
                        == m)
                }
            }
        }),
{
    let system = match System::fetch_by_user_id(requester, db) {
        Some(s) => s,
        None => {
            return InfoOutcome::NoSystem;
        },
    };
    let member_id = match member_ref.validate_by_system(system.id, db) {
        Some(id) => id,
        None => {
            return InfoOutcome::MemberNotFound;
        },
    };
    proof {
        lemma_ref_resolved(*db, *member_ref, system.id@, member_id@);
    }
    let member = match Member::fetch_by_id(member_id, db) {
        Some(m) => m,
        None => {
            proof {
                assert(false);
            }
            return InfoOutcome::MemberNotFound;
        },
    };
    if !member.enabled {
        return InfoOutcome::Disabled { member };
    }
    let fronting = match system.currently_fronting_member_id {
        Some(f) => f.value() == member_id.value(),
        None => false,
    };
    InfoOutcome::Info { member, fronting }
}

} // verus!
