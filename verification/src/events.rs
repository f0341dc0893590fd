//! Notifications: one-way, ordered, append-only events that the host's
//! indexers and auditors consume. The core only ever appends.

use vstd::prelude::*;

use crate::types::AccountId;
use crate::types::FileHash;

verus! {

/// Mathematical value of an [`Event`], used in contracts.
#[verifier::ext_equal]
pub enum EventModel {
    /// Access was granted from an owner to a grantee.
    AccessGranted { patient: AccountId, doctor: AccountId },
    /// Access was revoked from an owner's grantee.
    AccessRevoked { patient: AccountId, doctor: AccountId },
    /// A record was created and indexed.
    RecordCreated { patient: AccountId, doctor: AccountId, hash: Seq<u8> },
    /// An owner read their own record.
    OwnDataAccessed { patient: AccountId, hash: Seq<u8> },
    /// A permitted principal read an owner's record.
    PatientDataAccessed { doctor: AccountId, patient: AccountId, hash: Seq<u8> },
}

/// One notification, as handed to external observers.
#[derive(Debug, PartialEq, Eq)]
pub enum Event {
    /// Access was granted from an owner (`patient`) to a grantee (`doctor`).
    AccessGranted { patient: AccountId, doctor: AccountId },
    /// Access was revoked from an owner's grantee.
    AccessRevoked { patient: AccountId, doctor: AccountId },
    /// A record was created and indexed.
    RecordCreated { patient: AccountId, doctor: AccountId, hash: FileHash },
    /// An owner read their own record.
    OwnDataAccessed { patient: AccountId, file_hash: FileHash },
    /// A permitted principal read an owner's record.
    PatientDataAccessed { doctor: AccountId, patient: AccountId, file_hash: FileHash },
}

impl View for Event {
    type V = EventModel;

    open spec fn view(&self) -> EventModel {
        match self {
            Event::AccessGranted { patient, doctor } => EventModel::AccessGranted {
                patient: *patient,
                doctor: *doctor,
            },
            Event::AccessRevoked { patient, doctor } => EventModel::AccessRevoked {
                patient: *patient,
                doctor: *doctor,
            },
            Event::RecordCreated { patient, doctor, hash } => EventModel::RecordCreated {
                patient: *patient,
                doctor: *doctor,
                hash: hash@,
            },
            Event::OwnDataAccessed { patient, file_hash } => EventModel::OwnDataAccessed {
                patient: *patient,
                hash: file_hash@,
            },
            Event::PatientDataAccessed { doctor, patient, file_hash } => EventModel::PatientDataAccessed {
                doctor: *doctor,
                patient: *patient,
                hash: file_hash@,
            },
        }
    }
}

/// The append-only notification sink. The host subscribes by reading it;
/// the core never reads an event back into a decision.
pub struct EventLog {
    entries: Vec<Event>,
}

impl View for EventLog {
    type V = Seq<EventModel>;

    closed spec fn view(&self) -> Seq<EventModel> {
        self.entries@.map_values(|e: Event| e@)
    }
}

impl EventLog {
    /// An empty log.
    pub fn new() -> (r: EventLog)
        ensures
            r@ == Seq::<EventModel>::empty(),
    {
        let r = EventLog { entries: Vec::new() };
        proof {
            assert(r@ =~= Seq::<EventModel>::empty());
        }
        r
    }

    /// Appends one notification; everything already emitted stays in place.
    pub fn emit(&mut self, event: Event)
        ensures
            final(self)@ == old(self)@.push(event@),
    {
        let ghost before = self@;
        let ghost ev = event@;
        self.entries.push(event);
        proof {
            assert(self@ =~= before.push(ev));
        }
    }

    /// How many notifications have been emitted.
    pub fn len(&self) -> (n: usize)
        ensures
            n == self@.len(),
    {
        self.entries.len()
    }

    /// The `i`-th notification, oldest first.
    pub fn get(&self, i: usize) -> (r: &Event)
        requires
            i < self@.len(),
        ensures
            r@ == self@[i as int],
    {
        &self.entries[i]
    }

    /// The most recent notification, if any was emitted.
    pub fn last(&self) -> (r: Option<&Event>)
        ensures
            self@.len() == 0 ==> r is None,
            self@.len() > 0 ==> (r matches Some(e) && e@ == self@.last()),
    {
        if self.entries.len() == 0 {
            None
        } else {
            Some(&self.entries[self.entries.len() - 1])
        }
    }
}

} // verus!
