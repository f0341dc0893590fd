//! Tests for the permission registry.

use healthchain::events::Event;
use healthchain::events::EventLog;
use healthchain::permissions::PermissionRegistry;
use healthchain::types::Error;

/// A patient can grant access to a doctor; the grant is stored and the
/// expected event is emitted.
#[test]
fn grant_access_works() {
    let mut registry = PermissionRegistry::new();
    let mut log = EventLog::new();

    let patient: u64 = 1;
    let doctor: u64 = 2;

    // 1) Grant permission.
    assert!(registry.grant_access(&mut log, patient, doctor).is_ok());

    // 2) Verify the emitted event.
    assert_eq!(log.last(), Some(&Event::AccessGranted { patient, doctor }));

    // 3) Verify the storage write.
    assert!(registry.permissions(patient, doctor));
}

/// A patient can revoke access previously granted to a doctor; the grant is
/// removed and the expected event is emitted.
#[test]
fn revoke_access_works() {
    let mut registry = PermissionRegistry::new();
    let mut log = EventLog::new();

    let patient: u64 = 1;
    let doctor: u64 = 2;

    // Precondition: grant permission first.
    assert!(registry.grant_access(&mut log, patient, doctor).is_ok());

    // 1) Revoke permission.
    registry.revoke_access(&mut log, patient, doctor);

    // 2) Verify the emitted event.
    assert_eq!(log.last(), Some(&Event::AccessRevoked { patient, doctor }));

    // 3) Verify the storage removal.
    assert!(!registry.permissions(patient, doctor));
}

/// A patient cannot grant permission to themselves.
#[test]
fn cannot_grant_access_to_self() {
    let mut registry = PermissionRegistry::new();
    let mut log = EventLog::new();

    let patient: u64 = 1;

    // Granting access to self should fail.
    assert_eq!(
        registry.grant_access(&mut log, patient, patient),
        Err(Error::SelfGrantNotAllowed)
    );
}

/// Permissions are origin-scoped and fully isolated: an unrelated account's
/// revoke touches only its own mapping, never another owner's grant.
#[test]
fn doctor_cannot_change_patient_permission() {
    let mut registry = PermissionRegistry::new();
    let mut log = EventLog::new();

    let patient_account: u64 = 1;
    let doctor_account: u64 = 2;
    let unrelated_account: u64 = 3;

    // Initial permission grant
    assert!(registry
        .grant_access(&mut log, patient_account, doctor_account)
        .is_ok());

    // Unrelated account attempts to revoke access
    registry.revoke_access(&mut log, unrelated_account, doctor_account);

    // Original permission must remain intact
    assert!(
        registry.permissions(patient_account, doctor_account),
        "Permission granted by the original origin must remain unchanged"
    );

    // Revocation must apply only to the caller's mapping
    assert!(
        !registry.permissions(unrelated_account, doctor_account),
        "Revocation must be scoped to the caller only"
    );
}
