use classmesh::ordered::{OrderedMap, OrderedSet};
use classmesh::security::{
    AuthorizationStore, AuthorizationStoreError, CredentialFingerprint, CredentialMutationError,
    CredentialRecord, CredentialState, EnrollmentError, EnrollmentRecord, EnrollmentState,
    ExpectedWorkerPeer, LocalPeerValidation, Permission, Principal, PrincipalId, PrincipalKind,
    ReplayWindow,
};

fn id(value: u8) -> PrincipalId {
    PrincipalId([value; 32])
}

fn fingerprint(value: u8) -> CredentialFingerprint {
    CredentialFingerprint([value; 32])
}

fn teacher_with_credential(
    principal_id: PrincipalId,
    credential: CredentialFingerprint,
) -> Principal {
    let mut permissions = OrderedSet::new();
    permissions.insert(Permission::ViewMonitoring);
    let mut credentials = OrderedMap::new();
    credentials.insert(credential, CredentialRecord::active(credential, 10));
    Principal {
        id: principal_id,
        kind: PrincipalKind::Teacher,
        enabled: true,
        permissions,
        credentials,
    }
}

#[test]
fn enrollment_cannot_skip_or_silently_switch_approval_credential() {
    let mut record = EnrollmentRecord::new(id(1));
    assert_eq!(record.approve(10), Err(EnrollmentError::NotPending));

    record
        .request(fingerprint(1))
        .expect("request should succeed");
    assert_eq!(
        record.request(fingerprint(2)),
        Err(EnrollmentError::PendingCredentialMismatch)
    );

    let approved = record.approve(20).expect("approval should succeed");
    assert_eq!(approved, fingerprint(1));
    assert_eq!(record.state, EnrollmentState::Enrolled);
    assert_eq!(record.pending_credential, None);
}

#[test]
fn credential_rotation_keeps_principal_identity_and_bounds_overlap() {
    let principal_id = id(2);
    let old = fingerprint(10);
    let new = fingerprint(11);
    let mut principal = teacher_with_credential(principal_id, old);

    principal
        .rotate_to_bounded(CredentialRecord::active(new, 20), 40)
        .expect("bounded rotation should succeed");

    assert_eq!(principal.id, principal_id);
    assert_eq!(
        principal
            .credentials
            .get(&old)
            .map(|credential| (credential.state, credential.expires_at_unix_ms)),
        Some((CredentialState::Retiring, Some(40)))
    );
    assert!(principal.accepts_credential(old, 39));
    assert!(!principal.accepts_credential(old, 40));
    assert!(principal.accepts_credential(new, 40));
}

#[test]
fn bounded_rotation_preserves_earlier_expiry_and_rejects_invalid_deadline() {
    let principal_id = id(12);
    let old = fingerprint(50);
    let new = fingerprint(51);
    let mut principal = teacher_with_credential(principal_id, old);
    principal
        .credentials
        .get_mut(&old)
        .expect("old credential")
        .expires_at_unix_ms = Some(30);

    principal
        .rotate_to_bounded(CredentialRecord::active(new, 20), 40)
        .expect("bounded rotation should succeed");
    assert_eq!(
        principal
            .credentials
            .get(&old)
            .and_then(|credential| credential.expires_at_unix_ms),
        Some(30)
    );

    let another = fingerprint(52);
    assert_eq!(
        principal.rotate_to_bounded(CredentialRecord::active(another, 60), 60),
        Err(CredentialMutationError::InvalidRotationOverlapDeadline)
    );
}

#[test]
fn expired_or_revoked_credentials_do_not_authenticate() {
    let fp = fingerprint(5);
    let mut credential = CredentialRecord::active(fp, 10);
    credential.expires_at_unix_ms = Some(30);
    assert!(!credential.is_accepted_at(9));
    assert!(credential.is_accepted_at(10));
    assert!(credential.is_accepted_at(29));
    assert!(!credential.is_accepted_at(30));

    credential.expires_at_unix_ms = None;
    credential.revoke(40);
    assert!(!credential.is_accepted_at(40));
    assert!(!credential.is_accepted_at(50));
}

#[test]
fn authorization_store_resolves_credential_to_stable_principal_across_rotation() {
    let principal_id = id(3);
    let old = fingerprint(20);
    let new = fingerprint(21);
    let mut principal = teacher_with_credential(principal_id, old);
    let mut store = AuthorizationStore::default();

    store
        .upsert(principal.clone())
        .expect("initial identity should register");
    assert_eq!(store.principal_for_credential(old, 15), Some(principal_id));
    assert!(store.authorize_credential(old, Permission::ViewMonitoring, 15));

    principal
        .rotate_to_bounded(CredentialRecord::active(new, 20), 40)
        .expect("bounded rotation should succeed");
    store
        .upsert(principal.clone())
        .expect("rotated identity should register");

    assert_eq!(store.principal_for_credential(old, 25), Some(principal_id));
    assert_eq!(store.principal_for_credential(new, 25), Some(principal_id));

    principal
        .revoke_credential(old, 30)
        .expect("old credential should revoke");
    store
        .upsert(principal)
        .expect("revoked identity should update");

    assert_eq!(store.principal_for_credential(old, 30), None);
    assert_eq!(store.principal_for_credential(new, 30), Some(principal_id));
}

#[test]
fn one_credential_cannot_be_bound_to_two_principals() {
    let shared = fingerprint(33);
    let mut store = AuthorizationStore::default();
    store
        .upsert(teacher_with_credential(id(1), shared))
        .expect("first principal should own credential");

    assert_eq!(
        store.upsert(teacher_with_credential(id(2), shared)),
        Err(AuthorizationStoreError::CredentialOwnedByAnotherPrincipal {
            fingerprint: shared,
            owner: id(1),
        })
    );
}

#[test]
fn authorization_is_permission_and_enabled_state_specific() {
    let fp = fingerprint(9);
    let principal = teacher_with_credential(id(4), fp);
    let mut store = AuthorizationStore::default();
    store.upsert(principal).expect("principal should register");
    assert!(store.authorize(id(4), Permission::ViewMonitoring));
    assert!(!store.authorize(id(4), Permission::ShutdownDevice));
    assert!(store.disable(id(4)));
    assert!(!store.authorize(id(4), Permission::ViewMonitoring));
    assert_eq!(store.principal_for_credential(fp, 20), None);
}

#[test]
fn replay_window_rejects_recent_duplicate_but_stays_bounded() {
    let mut window = ReplayWindow::new(2);
    assert!(window.accept(1));
    assert!(!window.accept(1));
    assert!(window.accept(2));
    assert!(window.accept(3));
    assert!(window.accept(1));
}

#[test]
fn expected_worker_binds_local_ipc_to_session_and_process() {
    let expected = ExpectedWorkerPeer {
        session_id: 4,
        process_id: 100,
        principal: id(7),
    };
    assert_eq!(
        expected.validate_metadata(4, 100, id(7)),
        LocalPeerValidation::Accepted
    );
    assert_eq!(
        expected.validate_metadata(5, 100, id(7)),
        LocalPeerValidation::WrongSession
    );
}

#[test]
fn credential_mutations_have_their_errors() {
    let mut principal = teacher_with_credential(id(1), fingerprint(1));
    assert_eq!(
        principal.add_credential(CredentialRecord::active(fingerprint(1), 5)),
        Err(CredentialMutationError::DuplicateCredential)
    );
    assert_eq!(
        principal.revoke_credential(fingerprint(9), 5),
        Err(CredentialMutationError::CredentialNotFound)
    );
    let mut retiring = CredentialRecord::active(fingerprint(2), 20);
    retiring.mark_retiring();
    assert_eq!(
        principal.rotate_to_bounded(retiring, 40),
        Err(CredentialMutationError::ReplacementMustBeActive)
    );
    assert_eq!(
        principal.rotate_to_bounded(CredentialRecord::active(fingerprint(1), 20), 40),
        Err(CredentialMutationError::DuplicateCredential)
    );
}

#[test]
fn enrollment_ends_with_revocation() {
    let mut record = EnrollmentRecord::new(id(1));
    record.request(fingerprint(1)).expect("requested");
    record.approve(5).expect("approved");
    assert_eq!(
        record.request(fingerprint(2)),
        Err(EnrollmentError::AlreadyEnrolled)
    );
    record.revoke(9);
    assert_eq!(record.state, EnrollmentState::Revoked);
    assert_eq!(
        record.request(fingerprint(2)),
        Err(EnrollmentError::Revoked)
    );
}

#[test]
fn worker_checks_come_in_order() {
    let expected = ExpectedWorkerPeer {
        session_id: 4,
        process_id: 100,
        principal: id(7),
    };
    assert_eq!(
        expected.validate_metadata(4, 101, id(8)),
        LocalPeerValidation::WrongProcess
    );
    assert_eq!(
        expected.validate_metadata(4, 100, id(8)),
        LocalPeerValidation::WrongPrincipal
    );
}

#[test]
fn unknown_principals_are_not_disabled() {
    let mut store = AuthorizationStore::default();
    assert!(!store.disable(id(1)));
    assert!(!store.authorize(id(1), Permission::ViewMonitoring));
}

#[test]
fn numbers_are_remembered_while_the_window_has_room() {
    let mut window = ReplayWindow::new(3);
    assert!(window.accept(7));
    assert!(window.accept(9));
    assert!(!window.accept(9));
    assert!(window.accept(8));
    assert!(!window.accept(7));
    assert!(window.accept(10));
    assert!(window.accept(7));
}
