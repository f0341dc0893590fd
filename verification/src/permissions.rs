//! The permission registry: the authoritative yes/no answer to "may
//! `grantee` access data owned by `owner`?".
//!
//! Grants form a set of directed `(owner, grantee)` edges. Absence of an
//! edge means no access (default-deny); an owner's access to its own data is
//! implicit and never stored.

use vstd::prelude::*;

use crate::events::Event;
use crate::events::EventLog;
use crate::events::EventModel;
use crate::types::AccountId;
use crate::types::Error;

verus! {

/// Whether `grantee` may access data owned by `owner`, given the stored set
/// of grants: self-access is implicit, everything else is default-deny.
pub open spec fn allows(
    grants: Set<(AccountId, AccountId)>,
    owner: AccountId,
    grantee: AccountId,
) -> bool {
    owner == grantee || grants.contains((owner, grantee))
}

/// Owns the `(owner, grantee)` access edges.
pub struct PermissionRegistry {
    grants: Vec<(AccountId, AccountId)>,
}

impl View for PermissionRegistry {
    type V = Set<(AccountId, AccountId)>;

    closed spec fn view(&self) -> Set<(AccountId, AccountId)> {
        Set::new(|edge: (AccountId, AccountId)| self.grants@.contains(edge))
    }
}

impl PermissionRegistry {
    /// No edge is stored twice.
    pub closed spec fn wf(&self) -> bool {
        forall|i: int, j: int|
            0 <= i < j < self.grants@.len() ==> self.grants@[i] != self.grants@[j]
    }

    /// An empty registry: nothing is granted.
    pub fn new() -> (r: PermissionRegistry)
        ensures
            r.wf(),
            r@ == Set::<(AccountId, AccountId)>::empty(),
    {
        let r = PermissionRegistry { grants: Vec::new() };
        proof {
            assert(r@ =~= Set::<(AccountId, AccountId)>::empty());
        }
        r
    }

    /// Position of the stored `(owner, grantee)` edge, if present.
    fn find(&self, owner: AccountId, grantee: AccountId) -> (r: Option<usize>)
        ensures
            match r {
                Some(i) => i < self.grants@.len() && self.grants@[i as int] == (owner, grantee),
                None => !self@.contains((owner, grantee)),
            },
    {
        let n = self.grants.len();
        let mut i: usize = 0;
        while i < n
            invariant
                n == self.grants@.len(),
                i <= n,
                forall|j: int| 0 <= j < i ==> self.grants@[j] != (owner, grantee),
            decreases n - i,
        {
            let edge = self.grants[i];
            if edge.0 == owner && edge.1 == grantee {
                return Some(i);
            }
            i += 1;
        }
        None
    }

    /// Pure query: may `doctor` access `patient`'s data? An owner always has
    /// implicit access to its own data, even with nothing stored.
    pub fn has_access(&self, patient: AccountId, doctor: AccountId) -> (r: bool)
        ensures
            r == allows(self@, patient, doctor),
    {
        if patient == doctor {
            return true;
        }
        self.find(patient, doctor).is_some()
    }

    /// Storage getter: whether the edge `(patient, doctor)` is stored.
    /// Unlike [`Self::has_access`], implicit self-access does not count.
    pub fn permissions(&self, patient: AccountId, doctor: AccountId) -> (r: bool)
        ensures
            r == self@.contains((patient, doctor)),
    {
        self.find(patient, doctor).is_some()
    }

    /// The caller grants `doctor` access to its own data.
    ///
    /// Fails with [`Error::SelfGrantNotAllowed`] when `doctor` is the caller
    /// itself (self-access is implicit, never registry-mediated), leaving
    /// everything unchanged. Otherwise stores the edge — overwriting an
    /// existing grant changes nothing — and emits
    /// [`Event::AccessGranted`].
    pub fn grant_access(
        &mut self,
        log: &mut EventLog,
        caller: AccountId,
        doctor: AccountId,
    ) -> (r: Result<(), Error>)
        requires
            old(self).wf(),
        ensures
            final(self).wf(),
            caller == doctor ==> {
                &&& r == Err::<(), Error>(Error::SelfGrantNotAllowed)
                &&& *final(self) == *old(self)
                &&& *final(log) == *old(log)
            },
            caller != doctor ==> {
                &&& r == Ok::<(), Error>(())
                &&& final(self)@ == old(self)@.insert((caller, doctor))
                &&& final(log)@ == old(log)@.push(
                    EventModel::AccessGranted { patient: caller, doctor },
                )
            },
    {
        if caller == doctor {
            return Err(Error::SelfGrantNotAllowed);
        }
        match self.find(caller, doctor) {
            Some(_) => {
                proof {
                    assert(self@ =~= old(self)@.insert((caller, doctor)));
                }
            },
            None => {
                let ghost before = self.grants@;
                self.grants.push((caller, doctor));
                proof {
                    broadcast use vstd::seq_lib::lemma_seq_contains_after_push;

                    assert forall|i: int, j: int|
                        0 <= i < j < self.grants@.len() implies self.grants@[i]
                        != self.grants@[j] by {
                        if j == self.grants@.len() - 1 {
                            assert(before.contains(before[i]));
                        }
                    }
                    assert(self@ =~= old(self)@.insert((caller, doctor)));
                }
            },
        }
        log.emit(Event::AccessGranted { patient: caller, doctor });
        Ok(())
    }

    /// The caller withdraws `doctor`'s access to its own data.
    ///
    /// Always succeeds: revoking an absent grant is a no-op on the stored
    /// set. Only the caller's own edge `(caller, doctor)` is touched — no
    /// principal can alter another owner's grants. Emits
    /// [`Event::AccessRevoked`].
    pub fn revoke_access(&mut self, log: &mut EventLog, caller: AccountId, doctor: AccountId)
        requires
            old(self).wf(),
        ensures
            final(self).wf(),
            final(self)@ == old(self)@.remove((caller, doctor)),
            final(log)@ == old(log)@.push(EventModel::AccessRevoked { patient: caller, doctor }),
    {
        match self.find(caller, doctor) {
            Some(i) => {
                let ghost before = self.grants@;
                self.grants.swap_remove(i);
                proof {
                    assert forall|edge: (AccountId, AccountId)|
                        self.grants@.contains(edge) <==> (before.contains(edge) && edge != (
                        caller,
                        doctor,
                    )) by {
                        let after = self.grants@;
                        if after.contains(edge) {
                            let k = choose|k: int| 0 <= k < after.len() && after[k] == edge;
                            if k == i {
                                assert(before.contains(before[before.len() - 1]));
                            } else {
                                assert(before.contains(before[k]));
                            }
                        }
                        if before.contains(edge) && edge != (caller, doctor) {
                            let k = choose|k: int| 0 <= k < before.len() && before[k] == edge;
                            if k < after.len() {
                                assert(after.contains(after[k]));
                            } else {
                                assert(after.contains(after[i as int]));
                            }
                        }
                    }
                    assert forall|a: int, b: int|
                        0 <= a < b < self.grants@.len() implies self.grants@[a]
                        != self.grants@[b] by {}
                    assert(self@ =~= old(self)@.remove((caller, doctor)));
                }
            },
            None => {
                proof {
                    assert(self@ =~= old(self)@.remove((caller, doctor)));
                }
            },
        }
        log.emit(Event::AccessRevoked { patient: caller, doctor });
    }
}

// ---------------------------------------------------------------------
// Laws of the registry.
// ---------------------------------------------------------------------

/// Default-deny: with no stored grant for `(owner, grantee)`, access is
/// allowed exactly when the grantee is the owner itself.
pub proof fn lemma_default_deny(
    grants: Set<(AccountId, AccountId)>,
    owner: AccountId,
    grantee: AccountId,
)
    requires
        !grants.contains((owner, grantee)),
    ensures
        allows(grants, owner, grantee) == (owner == grantee),
{
}

/// Self-access is implicit: whatever the registry holds, an owner may
/// always access its own data.
pub proof fn lemma_self_access(grants: Set<(AccountId, AccountId)>, owner: AccountId)
    ensures
        allows(grants, owner, owner),
{
}

/// Grant/revoke round trip: after `grant(owner, grantee)` access is
/// allowed; after the subsequent `revoke(owner, grantee)` it is denied
/// again. (A grant to oneself never succeeds, so the two principals
/// differ.)
pub proof fn lemma_grant_revoke_round_trip(
    grants: Set<(AccountId, AccountId)>,
    owner: AccountId,
    grantee: AccountId,
)
    requires
        owner != grantee,
    ensures
        allows(grants.insert((owner, grantee)), owner, grantee),
        !allows(grants.insert((owner, grantee)).remove((owner, grantee)), owner, grantee),
{
}

/// Revocation is scoped to the caller: after `grant(owner, grantee)`, a
/// revoke by any other principal leaves the grant standing.
pub proof fn lemma_revocation_scoped(
    grants: Set<(AccountId, AccountId)>,
    owner: AccountId,
    grantee: AccountId,
    intruder: AccountId,
)
    requires
        intruder != owner,
    ensures
        allows(grants.insert((owner, grantee)).remove((intruder, grantee)), owner, grantee),
{
}

} // verus!
