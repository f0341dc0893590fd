//! The record reader: a stateless "owner or permitted" facade over the
//! record store and the permission registry.
//!
//! Nothing is cached: every call re-derives its answer from the registry
//! and the store, so a revocation takes effect on the very next read.

use vstd::prelude::*;

use crate::events::Event;
use crate::events::EventLog;
use crate::events::EventModel;
use crate::history::RecordStore;
use crate::history::consistent;
use crate::history::created;
use crate::history::lookup;
use crate::permissions::PermissionRegistry;
use crate::permissions::allows;
use crate::types::AccountId;
use crate::types::Error;
use crate::types::FileHash;
use crate::types::MedicalRecord;
use crate::types::Moment;
use crate::types::RecordModel;

verus! {

/// Outcome of an owner reading its own record: the owner-scoped lookup, a
/// miss reported as [`Error::RecordNotFound`]. A hash that exists under a
/// different owner fails the same way, so existence never leaks.
pub open spec fn read_own_result(
    records: Map<Seq<u8>, RecordModel>,
    current: Map<AccountId, Seq<u8>>,
    caller: AccountId,
    hash: Seq<u8>,
) -> Result<RecordModel, Error> {
    match lookup(records, current, caller, hash) {
        Some(rec) => Ok(rec),
        None => Err(Error::RecordNotFound),
    }
}

/// Outcome of a permitted read: authorization is judged before existence,
/// so an unauthorized caller learns nothing from the error kind; an
/// authorized caller gets exactly what the owner would get.
pub open spec fn read_patient_result(
    grants: Set<(AccountId, AccountId)>,
    records: Map<Seq<u8>, RecordModel>,
    current: Map<AccountId, Seq<u8>>,
    doctor: AccountId,
    patient: AccountId,
    hash: Seq<u8>,
) -> Result<RecordModel, Error> {
    if !allows(grants, patient, doctor) {
        Err(Error::AccessDenied)
    } else {
        read_own_result(records, current, patient, hash)
    }
}

/// The caller reads its own record under `file_hash`.
///
/// Fails with [`Error::RecordNotFound`] when `file_hash` is not the
/// caller's current record — also when the hash exists under someone else.
/// On success emits [`Event::OwnDataAccessed`]; on failure nothing.
pub fn read_own_data(
    store: &RecordStore,
    log: &mut EventLog,
    caller: AccountId,
    file_hash: &FileHash,
) -> (r: Result<MedicalRecord, Error>)
    requires
        store.wf(),
    ensures
        match r {
            Ok(rec) => read_own_result(store.records_map(), store.current_map(), caller, file_hash@)
                == Ok::<RecordModel, Error>(rec@) && final(log)@ == old(log)@.push(
                EventModel::OwnDataAccessed { patient: caller, hash: file_hash@ },
            ),
            Err(e) => read_own_result(store.records_map(), store.current_map(), caller, file_hash@)
                == Err::<RecordModel, Error>(e) && *final(log) == *old(log),
        },
{
    match store.get_patient_record(caller, file_hash) {
        Some(rec) => {
            log.emit(Event::OwnDataAccessed { patient: caller, file_hash: file_hash.clone() });
            Ok(rec)
        },
        None => Err(Error::RecordNotFound),
    }
}

/// The caller reads `patient`'s record under `file_hash`.
///
/// Fails with [`Error::AccessDenied`] when the registry holds no grant from
/// `patient` to the caller — checked before existence. Otherwise performs
/// the same owner-scoped lookup the owner would, failing with
/// [`Error::RecordNotFound`] on a miss. On success emits
/// [`Event::PatientDataAccessed`]; on failure nothing.
pub fn read_patient_data(
    perms: &PermissionRegistry,
    store: &RecordStore,
    log: &mut EventLog,
    caller: AccountId,
    patient: AccountId,
    file_hash: &FileHash,
) -> (r: Result<MedicalRecord, Error>)
    requires
        store.wf(),
    ensures
        match r {
            Ok(rec) => read_patient_result(
                perms@,
                store.records_map(),
                store.current_map(),
                caller,
                patient,
                file_hash@,
            ) == Ok::<RecordModel, Error>(rec@) && final(log)@ == old(log)@.push(
                EventModel::PatientDataAccessed { doctor: caller, patient, hash: file_hash@ },
            ),
            Err(e) => read_patient_result(
                perms@,
                store.records_map(),
                store.current_map(),
                caller,
                patient,
                file_hash@,
            ) == Err::<RecordModel, Error>(e) && *final(log) == *old(log),
        },
{
    if !perms.has_access(patient, caller) {
        return Err(Error::AccessDenied);
    }
    match store.get_patient_record(patient, file_hash) {
        Some(rec) => {
            log.emit(
                Event::PatientDataAccessed { doctor: caller, patient, file_hash: file_hash.clone() },
            );
            Ok(rec)
        },
        None => Err(Error::RecordNotFound),
    }
}

// ---------------------------------------------------------------------
// Laws of reading.
// ---------------------------------------------------------------------

/// Read isolation: right after a creation commits a fresh hash for
/// `patient`, the owner reads exactly the committed record, while any other
/// principal asking for that hash as its own record is refused as
/// [`Error::RecordNotFound`].
pub proof fn lemma_read_isolation(
    records: Map<Seq<u8>, RecordModel>,
    current: Map<AccountId, Seq<u8>>,
    caller: AccountId,
    patient: AccountId,
    other: AccountId,
    hash: Seq<u8>,
    now: Moment,
)
    requires
        consistent(records, current),
        !records.dom().contains(hash),
        other != patient,
    ensures
        read_own_result(
            records.insert(hash, created(caller, patient, now, hash)),
            current.insert(patient, hash),
            patient,
            hash,
        ) == Ok::<RecordModel, Error>(created(caller, patient, now, hash)),
        read_own_result(
            records.insert(hash, created(caller, patient, now, hash)),
            current.insert(patient, hash),
            other,
            hash,
        ) == Err::<RecordModel, Error>(Error::RecordNotFound),
{
    let new_current = current.insert(patient, hash);
    if new_current.dom().contains(other) && new_current[other] == hash {
        assert(current.dom().contains(other));
        assert(records.dom().contains(current[other]));
    }
}

/// Permission-gated read: a grantee of `patient` reads exactly what the
/// owner reads — record and miss alike — while a principal without a grant
/// is refused as [`Error::AccessDenied`], whatever is stored.
pub proof fn lemma_permission_gated_read(
    grants: Set<(AccountId, AccountId)>,
    records: Map<Seq<u8>, RecordModel>,
    current: Map<AccountId, Seq<u8>>,
    doctor: AccountId,
    patient: AccountId,
    hash: Seq<u8>,
)
    ensures
        allows(grants, patient, doctor) ==> read_patient_result(
            grants,
            records,
            current,
            doctor,
            patient,
            hash,
        ) == read_own_result(records, current, patient, hash),
        !allows(grants, patient, doctor) ==> read_patient_result(
            grants,
            records,
            current,
            doctor,
            patient,
            hash,
        ) == Err::<RecordModel, Error>(Error::AccessDenied),
{
}

} // verus!
