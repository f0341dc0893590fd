//! Concrete checks of the stated properties of the core, plus edge cases.

use healthchain::events::Event;
use healthchain::events::EventLog;
use healthchain::history::RecordStore;
use healthchain::permissions::PermissionRegistry;
use healthchain::reader::read_own_data;
use healthchain::reader::read_patient_data;
use healthchain::runtime::Version;
use healthchain::runtime::preset_names;
use healthchain::types::Error;
use healthchain::types::FileHash;
use healthchain::weights::OPERATION_WEIGHT;
use healthchain::weights::SubstrateWeight;

/// Default-deny: without a prior grant, access is refused unless the
/// grantee is the owner itself.
#[test]
fn default_deny() {
    let registry = PermissionRegistry::new();
    assert!(!registry.has_access(1, 2));
    assert!(!registry.has_access(2, 1));
    assert!(registry.has_access(7, 7));
}

/// Grant/revoke round trip: a grant opens access, the matching revoke
/// closes it again.
#[test]
fn grant_revoke_round_trip() {
    let mut registry = PermissionRegistry::new();
    let mut log = EventLog::new();

    registry.grant_access(&mut log, 1, 2).unwrap();
    assert!(registry.has_access(1, 2));

    registry.revoke_access(&mut log, 1, 2);
    assert!(!registry.has_access(1, 2));
}

/// Self-grant rejected: a grant to oneself always fails, yet self-access
/// stays implicit.
#[test]
fn self_grant_rejected() {
    let mut registry = PermissionRegistry::new();
    let mut log = EventLog::new();

    assert_eq!(
        registry.grant_access(&mut log, 5, 5),
        Err(Error::SelfGrantNotAllowed)
    );
    assert!(registry.has_access(5, 5));
}

/// Revocation scoping: a third principal's revoke leaves another owner's
/// grant standing.
#[test]
fn revocation_is_scoped_to_the_caller() {
    let mut registry = PermissionRegistry::new();
    let mut log = EventLog::new();

    registry.grant_access(&mut log, 1, 2).unwrap();
    registry.revoke_access(&mut log, 3, 2);
    assert!(registry.has_access(1, 2));
}

/// Uniqueness: the first creation of a hash wins; a second one fails with
/// `RecordAlreadyExists` whoever the owner and the author are.
#[test]
fn duplicate_hash_fails_across_owners() {
    let mut registry = PermissionRegistry::new();
    let mut store = RecordStore::new();
    let mut log = EventLog::new();

    registry.grant_access(&mut log, 1, 10).unwrap();
    registry.grant_access(&mut log, 2, 20).unwrap();

    let hash = FileHash::new(vec![0xAB; 32]).unwrap();
    assert!(store
        .create_record(&registry, &mut log, 10, 1, hash.clone(), 5)
        .is_ok());
    assert_eq!(
        store.create_record(&registry, &mut log, 20, 2, hash, 6),
        Err(Error::RecordAlreadyExists)
    );
}

/// Authorization gate on write: without a grant the creation fails with
/// `NoPermission`; after the grant the identical call succeeds.
#[test]
fn grant_opens_the_write_gate() {
    let mut registry = PermissionRegistry::new();
    let mut store = RecordStore::new();
    let mut log = EventLog::new();

    let hash = FileHash::new(vec![0xCD; 16]).unwrap();
    assert_eq!(
        store.create_record(&registry, &mut log, 10, 1, hash.clone(), 5),
        Err(Error::NoPermission)
    );

    registry.grant_access(&mut log, 1, 10).unwrap();
    assert!(store.create_record(&registry, &mut log, 10, 1, hash, 5).is_ok());
}

/// An owner may author their own record: self-access is sufficient for the
/// write gate.
#[test]
fn owner_can_author_own_record() {
    let registry = PermissionRegistry::new();
    let mut store = RecordStore::new();
    let mut log = EventLog::new();

    let hash = FileHash::new(vec![0x11; 8]).unwrap();
    assert!(store.create_record(&registry, &mut log, 1, 1, hash.clone(), 7).is_ok());

    let record = store.get_patient_record(1, &hash).unwrap();
    assert_eq!(record.owner, 1);
    assert_eq!(record.created_by, 1);
}

/// Read isolation: a stranger asking for another owner's hash is told
/// `RecordNotFound`, while the owner receives the record.
#[test]
fn read_isolation() {
    let mut registry = PermissionRegistry::new();
    let mut store = RecordStore::new();
    let mut log = EventLog::new();

    registry.grant_access(&mut log, 1, 10).unwrap();
    let hash = FileHash::new(vec![0x42; 64]).unwrap();
    store
        .create_record(&registry, &mut log, 10, 1, hash.clone(), 9)
        .unwrap();

    assert_eq!(
        read_own_data(&store, &mut log, 2, &hash),
        Err(Error::RecordNotFound)
    );
    let record = read_own_data(&store, &mut log, 1, &hash).unwrap();
    assert_eq!(record.owner, 1);
    assert_eq!(record.file_hash, hash);
}

/// Permission-gated read: the granted doctor sees exactly what the owner
/// sees; an ungranted one is refused as `AccessDenied`.
#[test]
fn permission_gated_read() {
    let mut registry = PermissionRegistry::new();
    let mut store = RecordStore::new();
    let mut log = EventLog::new();

    registry.grant_access(&mut log, 1, 10).unwrap();
    let hash = FileHash::new(vec![0x55; 64]).unwrap();
    store
        .create_record(&registry, &mut log, 10, 1, hash.clone(), 11)
        .unwrap();

    let through_doctor =
        read_patient_data(&registry, &store, &mut log, 10, 1, &hash).unwrap();
    let through_owner = read_own_data(&store, &mut log, 1, &hash).unwrap();
    assert_eq!(through_doctor, through_owner);

    assert_eq!(
        read_patient_data(&registry, &store, &mut log, 99, 1, &hash),
        Err(Error::AccessDenied)
    );
}

/// End-to-end: grant, create, owner read, revoke, refused doctor read.
#[test]
fn end_to_end_scenario() {
    let mut registry = PermissionRegistry::new();
    let mut store = RecordStore::new();
    let mut log = EventLog::new();

    registry.grant_access(&mut log, 1, 10).unwrap();

    let hash = FileHash::new(vec![0x01; 64]).unwrap();
    assert!(store
        .create_record(&registry, &mut log, 10, 1, hash.clone(), 100)
        .is_ok());

    let record = read_own_data(&store, &mut log, 1, &hash).unwrap();
    assert_eq!(record.owner, 1);
    assert_eq!(record.created_by, 10);

    registry.revoke_access(&mut log, 1, 10);
    assert_eq!(
        read_patient_data(&registry, &store, &mut log, 10, 1, &hash),
        Err(Error::AccessDenied)
    );
}

/// The hash capacity is exactly 64 bytes; the empty hash is a hash.
#[test]
fn hash_capacity_is_sixty_four_bytes() {
    assert!(FileHash::new(Vec::new()).is_some());
    let full = FileHash::new(vec![0xFF; 64]).unwrap();
    assert_eq!(full.len(), 64);
    assert!(FileHash::new(vec![0xFF; 65]).is_none());
}

/// Notifications are ordered, oldest first, and are never rewritten.
#[test]
fn event_log_keeps_order() {
    let mut registry = PermissionRegistry::new();
    let mut log = EventLog::new();

    registry.grant_access(&mut log, 1, 2).unwrap();
    registry.revoke_access(&mut log, 1, 2);
    registry.grant_access(&mut log, 3, 4).unwrap();

    assert_eq!(log.len(), 3);
    assert_eq!(log.get(0), &Event::AccessGranted { patient: 1, doctor: 2 });
    assert_eq!(log.get(1), &Event::AccessRevoked { patient: 1, doctor: 2 });
    assert_eq!(log.get(2), &Event::AccessGranted { patient: 3, doctor: 4 });
}

/// A failed creation leaves store and log untouched.
#[test]
fn failed_creation_changes_nothing() {
    let registry = PermissionRegistry::new();
    let mut store = RecordStore::new();
    let mut log = EventLog::new();

    let hash = FileHash::new(vec![0x77; 4]).unwrap();
    assert_eq!(
        store.create_record(&registry, &mut log, 10, 1, hash.clone(), 1),
        Err(Error::NoPermission)
    );
    assert_eq!(log.len(), 0);
    assert!(store.records(&hash).is_none());
    assert!(store.patient_record(1).is_none());
}

/// The advertised genesis presets, development first.
#[test]
fn preset_names_lists_dev_and_local() {
    let names = preset_names();
    assert_eq!(names.len(), 2);
    assert_eq!(names[0], "dev");
    assert_eq!(names[1], "local");
}

/// The version record and the chain-spec name.
#[test]
fn version_record() {
    let version = Version::get();
    assert_eq!(version.spec_version, 101);
    assert_eq!(version.impl_version, 1);
    assert_eq!(version.authoring_version, 1);
    assert_eq!(version.transaction_version, 1);
    assert_eq!(Version::spec_name(), "healthchain-runtime");
}

/// Both registry operations are charged the fixed placeholder weight.
#[test]
fn operation_weights() {
    assert_eq!(SubstrateWeight::grant_access(), OPERATION_WEIGHT);
    assert_eq!(SubstrateWeight::revoke_access(), 10_000);
}
