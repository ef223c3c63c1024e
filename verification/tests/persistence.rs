use classmesh::durable::{
    choose_state_source, first_save_step, next_save_step, SaveAction, SaveStep, StateSource,
};
use classmesh::ordered::{OrderedMap, OrderedSet};
use classmesh::security::persistence::{
    check_state_size, PersistedCredential, PersistedPrincipal, PersistedState, PersistenceError,
    MAX_STATE_BYTES,
};
use classmesh::security::{
    AuthorizationStore, AuthorizationStoreError, CredentialFingerprint, CredentialRecord,
    CredentialState, Permission, Principal, PrincipalId, PrincipalKind,
};

fn id(value: u8) -> PrincipalId {
    PrincipalId([value; 32])
}

fn fingerprint(value: u8) -> CredentialFingerprint {
    CredentialFingerprint([value; 32])
}

fn test_store() -> AuthorizationStore {
    let old = fingerprint(10);
    let new = fingerprint(11);
    let mut permissions = OrderedSet::new();
    permissions.insert(Permission::ViewMonitoring);
    permissions.insert(Permission::ControlInput);

    let mut credentials = OrderedMap::new();
    let mut old_record = CredentialRecord::active(old, 10);
    old_record.state = CredentialState::Retiring;
    old_record.expires_at_unix_ms = Some(40);
    credentials.insert(old, old_record);
    credentials.insert(new, CredentialRecord::active(new, 20));

    let mut store = AuthorizationStore::default();
    store
        .upsert(Principal {
            id: id(7),
            kind: PrincipalKind::Teacher,
            enabled: true,
            permissions,
            credentials,
        })
        .expect("test principal should register");
    store
}

fn kept_credential(value: u8) -> PersistedCredential {
    PersistedCredential {
        fingerprint: [value; 32],
        state: 1,
        issued_at_unix_ms: 10,
        expires_at_unix_ms: None,
        revoked_at_unix_ms: None,
    }
}

fn kept_principal(value: u8) -> PersistedPrincipal {
    PersistedPrincipal {
        id: [value; 32],
        kind: 1,
        enabled: true,
        permissions: vec![1],
        credentials: vec![kept_credential(value)],
    }
}

fn load(principals: Vec<PersistedPrincipal>) -> Result<AuthorizationStore, PersistenceError> {
    PersistedState {
        version: 1,
        principals,
    }
    .into_store()
}

#[test]
fn durable_state_round_trips_authorization_and_rotation() {
    let store = test_store();

    let kept = PersistedState::from_store(&store);
    let loaded = kept.into_store().expect("state should load");

    assert_eq!(
        loaded.principal_for_credential(fingerprint(10), 39),
        Some(id(7))
    );
    assert_eq!(loaded.principal_for_credential(fingerprint(10), 40), None);
    assert!(loaded.authorize_credential(fingerprint(11), Permission::ControlInput, 40));
}

#[test]
fn load_recovers_backup_if_commit_was_interrupted() {
    let backup = PersistedState::from_store(&test_store());
    assert_eq!(choose_state_source(false, true), Some(StateSource::Backup));
    assert_eq!(choose_state_source(true, true), Some(StateSource::Primary));
    assert_eq!(choose_state_source(false, false), None);

    let loaded = backup.into_store().expect("backup should load");
    assert_eq!(
        loaded.principal_for_credential(fingerprint(11), 30),
        Some(id(7))
    );
}

#[test]
fn corrupted_or_oversized_state_fails_closed() {
    let kept = PersistedState {
        version: 999,
        principals: vec![],
    };
    assert!(matches!(
        kept.into_store(),
        Err(PersistenceError::UnsupportedVersion(999))
    ));
    assert_eq!(check_state_size(MAX_STATE_BYTES), Ok(()));
    assert_eq!(
        check_state_size(MAX_STATE_BYTES + 1),
        Err(PersistenceError::StateTooLarge {
            bytes: MAX_STATE_BYTES + 1,
            maximum: MAX_STATE_BYTES
        })
    );
}

#[test]
fn refused_states_name_their_fault() {
    assert!(load(vec![kept_principal(1), kept_principal(2)]).is_ok());
    assert!(matches!(
        load(vec![kept_principal(1), kept_principal(1)]),
        Err(PersistenceError::DuplicatePrincipal(principal)) if principal == id(1)
    ));

    let mut other = kept_principal(2);
    other.credentials = vec![kept_credential(1)];
    assert!(matches!(
        load(vec![kept_principal(1), other]),
        Err(PersistenceError::Authorization(
            AuthorizationStoreError::CredentialOwnedByAnotherPrincipal { .. }
        ))
    ));

    let mut other = kept_principal(1);
    other.credentials.push(kept_credential(1));
    assert!(matches!(
        load(vec![other]),
        Err(PersistenceError::DuplicateCredential(found)) if found == fingerprint(1)
    ));

    let mut other = kept_principal(1);
    other.kind = 6;
    assert!(matches!(
        load(vec![other]),
        Err(PersistenceError::InvalidPrincipalKind(6))
    ));

    let mut other = kept_principal(1);
    other.permissions.push(0);
    assert!(matches!(
        load(vec![other]),
        Err(PersistenceError::InvalidPermission(0))
    ));

    let mut other = kept_principal(1);
    other.credentials[0].state = 9;
    assert!(matches!(
        load(vec![other]),
        Err(PersistenceError::InvalidCredentialState(9))
    ));

    let mut other = kept_principal(1);
    other.credentials[0].expires_at_unix_ms = Some(10);
    assert!(matches!(
        load(vec![other]),
        Err(PersistenceError::InvalidCredentialTime(_))
    ));

    let mut other = kept_principal(1);
    other.credentials = (0..17).map(kept_credential).collect();
    assert!(matches!(
        load(vec![other]),
        Err(PersistenceError::TooManyCredentials { count: 17, .. })
    ));

    let mut other = kept_principal(1);
    other.permissions = vec![1; 33];
    assert!(matches!(
        load(vec![other]),
        Err(PersistenceError::TooManyPermissions { count: 33, .. })
    ));
}

#[test]
fn persistence_errors_speak() {
    assert_eq!(
        PersistenceError::UnsupportedVersion(999).message(),
        "unsupported security state version 999"
    );
    let many = PersistenceError::TooManyCredentials {
        principal: id(1),
        count: 17,
    };
    assert_eq!(
        many.message(),
        format!(
            "principal {:?} has too many persisted credentials: 17",
            id(1)
        )
    );
    let owned = AuthorizationStoreError::CredentialOwnedByAnotherPrincipal {
        fingerprint: fingerprint(200),
        owner: id(3),
    };
    assert_eq!(
        PersistenceError::Authorization(owned).message(),
        format!("persisted authorization state violates invariants: {owned:?}")
    );
}

/// Goes through a save in which every action succeeds but the refused one.
fn save(primary: bool, refused: Option<SaveAction>) -> (Vec<SaveAction>, SaveStep) {
    let mut primary = primary;
    let mut backup = false;
    let mut actions = Vec::new();
    let mut step = first_save_step();
    while let SaveStep::Perform(action) = step {
        actions.push(action);
        let mut outcome = refused != Some(action);
        match action {
            SaveAction::LookForPrimary => outcome = primary,
            SaveAction::LookForRestore => outcome = backup && !primary,
            SaveAction::MovePrimaryToBackup if outcome => {
                primary = false;
                backup = true;
            }
            SaveAction::MoveTemporaryToPrimary if outcome => primary = true,
            SaveAction::RestoreBackup if outcome => {
                primary = true;
                backup = false;
            }
            _ => {}
        }
        step = next_save_step(action, outcome);
    }
    (actions, step)
}

#[test]
fn states_are_replaced_step_by_step() {
    let (actions, step) = save(true, None);
    assert_eq!(step, SaveStep::Saved);
    assert_eq!(
        actions,
        vec![
            SaveAction::RemoveTemporary,
            SaveAction::WriteTemporary,
            SaveAction::RemoveBackup,
            SaveAction::LookForPrimary,
            SaveAction::MovePrimaryToBackup,
            SaveAction::MoveTemporaryToPrimary,
            SaveAction::RemoveOldBackup,
        ]
    );
    let (actions, step) = save(false, None);
    assert_eq!(step, SaveStep::Saved);
    assert!(!actions.contains(&SaveAction::MovePrimaryToBackup));

    let (actions, step) = save(true, Some(SaveAction::MoveTemporaryToPrimary));
    assert_eq!(step, SaveStep::Failed);
    assert_eq!(actions.last(), Some(&SaveAction::RestoreBackup));
    let (actions, step) = save(false, Some(SaveAction::MoveTemporaryToPrimary));
    assert_eq!(step, SaveStep::Failed);
    assert_eq!(actions.last(), Some(&SaveAction::LookForRestore));
    for refused in [SaveAction::WriteTemporary, SaveAction::MovePrimaryToBackup] {
        let (actions, step) = save(true, Some(refused));
        assert_eq!(step, SaveStep::Failed);
        assert_eq!(actions.last(), Some(&refused));
    }
    for ignored in [
        SaveAction::RemoveTemporary,
        SaveAction::RemoveBackup,
        SaveAction::RemoveOldBackup,
    ] {
        assert_eq!(save(true, Some(ignored)).1, SaveStep::Saved);
    }
}
