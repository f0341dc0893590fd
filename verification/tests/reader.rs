//! Tests for the record reader.
//!
//! Coverage:
//! - A patient can read their own medical record (`read_own_data`).
//! - A doctor can read a patient's record only if permission exists
//!   (`read_patient_data`).

use healthchain::events::Event;
use healthchain::events::EventLog;
use healthchain::history::RecordStore;
use healthchain::permissions::PermissionRegistry;
use healthchain::reader::read_own_data;
use healthchain::reader::read_patient_data;
use healthchain::types::Error;
use healthchain::types::FileHash;

/// The one record known to the prepared store: owned by patient `1`,
/// created by doctor `10` at time `100`, under the hash `[1; 64]`.
fn prepared_state() -> (PermissionRegistry, RecordStore, EventLog) {
    let mut registry = PermissionRegistry::new();
    let mut store = RecordStore::new();
    let mut log = EventLog::new();
    registry
        .grant_access(&mut log, 1, 10)
        .expect("the grant must succeed");
    let file_hash = FileHash::new(vec![1; 64]).unwrap();
    store
        .create_record(&registry, &mut log, 10, 1, file_hash, 100)
        .expect("the creation must succeed");
    (registry, store, log)
}

/// A patient can read their own data when the record exists.
#[test]
fn read_own_data_works() {
    let (_registry, store, mut log) = prepared_state();

    let patient_id = 1;
    let file_hash = FileHash::new(vec![1; 64]).unwrap();

    assert!(read_own_data(&store, &mut log, patient_id, &file_hash).is_ok());

    assert_eq!(
        log.last(),
        Some(&Event::OwnDataAccessed {
            patient: patient_id,
            file_hash,
        })
    );
}

/// A different account cannot read another patient's record.
#[test]
fn read_own_data_fails_for_wrong_patient() {
    let (_registry, store, mut log) = prepared_state();

    let hacker_id = 99;
    let file_hash = FileHash::new(vec![1; 64]).unwrap();
    assert_eq!(
        read_own_data(&store, &mut log, hacker_id, &file_hash),
        Err(Error::RecordNotFound)
    );
}

/// A doctor can read a patient's record when permission is granted.
#[test]
fn read_patient_data_works_with_permission() {
    let (registry, store, mut log) = prepared_state();

    let doctor_id = 10; // Authorized by the patient's grant.
    let patient_id = 1;
    let file_hash = FileHash::new(vec![1; 64]).unwrap();

    assert!(read_patient_data(&registry, &store, &mut log, doctor_id, patient_id, &file_hash)
        .is_ok());

    assert_eq!(
        log.last(),
        Some(&Event::PatientDataAccessed {
            doctor: doctor_id,
            patient: patient_id,
            file_hash,
        })
    );
}

/// A doctor without permission cannot read a patient's record.
#[test]
fn read_patient_data_fails_without_permission() {
    let (registry, store, mut log) = prepared_state();

    let doctor_hacker = 99; // Not authorized
    let patient_id = 1;
    let file_hash = FileHash::new(vec![1; 64]).unwrap();

    assert_eq!(
        read_patient_data(&registry, &store, &mut log, doctor_hacker, patient_id, &file_hash),
        Err(Error::AccessDenied)
    );
}

/// A failed read emits nothing; a successful one emits exactly one event.
#[test]
fn reads_emit_only_on_success() {
    let (registry, store, mut log) = prepared_state();
    let events_before = log.len();

    let file_hash = FileHash::new(vec![1; 64]).unwrap();
    let absent = FileHash::new(vec![9; 64]).unwrap();

    assert!(read_own_data(&store, &mut log, 2, &file_hash).is_err());
    assert!(read_patient_data(&registry, &store, &mut log, 99, 1, &file_hash).is_err());
    assert!(read_patient_data(&registry, &store, &mut log, 10, 1, &absent).is_err());
    assert_eq!(log.len(), events_before);

    assert!(read_own_data(&store, &mut log, 1, &file_hash).is_ok());
    assert_eq!(log.len(), events_before + 1);
}
