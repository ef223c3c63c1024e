use classmesh::ordered::{OrderedMap, OrderedSet};
use classmesh::security::group_media::{
    GroupMediaEpoch, GroupMediaKeyMaterial, GroupMediaReceiver,
};
use classmesh::security::group_media_coordinator::{
    GroupMediaCoordinator, GroupMediaCoordinatorError, GroupMediaReceiverInstallState,
    GroupMediaRegistration, MAX_GROUP_MEDIA_RECEIVERS,
};
use classmesh::security::{
    AuthorizationStore, CredentialFingerprint, CredentialRecord, Permission, Principal,
    PrincipalId, PrincipalKind,
};

fn principal(value: u8) -> PrincipalId {
    PrincipalId([value; 32])
}

fn store(entries: &[(u8, bool)]) -> AuthorizationStore {
    let mut store = AuthorizationStore::default();
    for (value, can_receive) in entries {
        let principal_id = principal(*value);
        let fingerprint = CredentialFingerprint([value.wrapping_add(100); 32]);
        let mut permissions = OrderedSet::new();
        if *can_receive {
            permissions.insert(Permission::ReceivePresentation);
        }
        let mut credentials = OrderedMap::new();
        credentials.insert(fingerprint, CredentialRecord::active(fingerprint, 1));
        store
            .upsert(Principal {
                id: principal_id,
                kind: PrincipalKind::StudentDevice,
                enabled: true,
                permissions,
                credentials,
            })
            .expect("test principal should register");
    }
    store
}

#[test]
fn receiver_registration_requires_live_receive_permission() {
    let authorization = store(&[(1, true), (2, false)]);
    let mut coordinator = GroupMediaCoordinator::default();

    assert!(matches!(
        coordinator.register_receiver(&authorization, principal(1)),
        Ok(GroupMediaRegistration::Added)
    ));
    assert!(matches!(
        coordinator.register_receiver(&authorization, principal(2)),
        Err(GroupMediaCoordinatorError::UnauthorizedReceiver)
    ));
    assert_eq!(coordinator.receiver_count(), 1);
}

#[test]
fn receiver_membership_is_bounded_and_duplicate_registration_is_idempotent() {
    let authorization = store(&[(1, true), (2, true), (3, true)]);
    let mut coordinator = GroupMediaCoordinator::with_limit(2).expect("bounded coordinator");

    assert!(matches!(
        coordinator.register_receiver(&authorization, principal(1)),
        Ok(GroupMediaRegistration::Added)
    ));
    assert!(matches!(
        coordinator.register_receiver(&authorization, principal(1)),
        Ok(GroupMediaRegistration::AlreadyRegistered)
    ));
    assert!(matches!(
        coordinator.register_receiver(&authorization, principal(2)),
        Ok(GroupMediaRegistration::Added)
    ));
    assert!(matches!(
        coordinator.register_receiver(&authorization, principal(3)),
        Err(GroupMediaCoordinatorError::ReceiverLimitExceeded)
    ));
    assert_eq!(coordinator.receiver_count(), 2);
}

#[test]
fn key_issue_and_install_are_exact_principal_and_epoch_bound() {
    let authorization = store(&[(1, true), (2, true)]);
    let mut coordinator = GroupMediaCoordinator::default();
    coordinator
        .register_receiver(&authorization, principal(1))
        .expect("registered receiver");
    let epoch = coordinator.begin_epoch().expect("epoch");

    let grant = coordinator
        .issue_key(&authorization, principal(1))
        .expect("authorized grant");
    assert_eq!(grant.principal(), principal(1));
    assert_eq!(grant.epoch(), epoch);
    assert_eq!(
        coordinator.receiver_state(principal(1)),
        Some(GroupMediaReceiverInstallState::KeyIssued(epoch))
    );

    assert!(matches!(
        coordinator.mark_installed(
            &authorization,
            principal(1),
            GroupMediaEpoch::new(epoch.get() + 1).expect("future epoch"),
        ),
        Err(GroupMediaCoordinatorError::StaleEpoch)
    ));
    coordinator
        .mark_installed(&authorization, principal(1), epoch)
        .expect("exact epoch install");
    assert_eq!(
        coordinator.receiver_state(principal(1)),
        Some(GroupMediaReceiverInstallState::Installed(epoch))
    );

    assert!(matches!(
        coordinator.issue_key(&authorization, principal(2)),
        Err(GroupMediaCoordinatorError::ReceiverNotRegistered)
    ));
}

#[test]
fn membership_change_during_active_epoch_blocks_media_until_rotation() {
    let authorization = store(&[(1, true), (2, true)]);
    let mut coordinator = GroupMediaCoordinator::default();
    coordinator
        .register_receiver(&authorization, principal(1))
        .expect("first receiver");
    let first = coordinator.begin_epoch().expect("first epoch");
    coordinator
        .issue_key(&authorization, principal(1))
        .expect("first key");
    coordinator
        .mark_installed(&authorization, principal(1), first)
        .expect("first install");

    assert!(
        coordinator
            .seal_frame(&authorization, b"frame", b"presentation-binding")
            .is_ok()
    );

    coordinator
        .register_receiver(&authorization, principal(2))
        .expect("new receiver");
    assert!(coordinator.rotation_required());
    assert!(matches!(
        coordinator.seal_frame(&authorization, b"blocked", b"presentation-binding"),
        Err(GroupMediaCoordinatorError::RotationRequired)
    ));
    assert!(matches!(
        coordinator.issue_key(&authorization, principal(2)),
        Err(GroupMediaCoordinatorError::RotationRequired)
    ));

    let second = coordinator.begin_epoch().expect("rotated epoch");
    assert_eq!(second.get(), first.get() + 1);
    assert!(!coordinator.rotation_required());
    assert_eq!(
        coordinator.receiver_state(principal(1)),
        Some(GroupMediaReceiverInstallState::AwaitingKey)
    );
    assert_eq!(
        coordinator.receiver_state(principal(2)),
        Some(GroupMediaReceiverInstallState::AwaitingKey)
    );
}

#[test]
fn ending_epoch_drops_active_key_state_without_reusing_epoch_number() {
    let authorization = store(&[(1, true)]);
    let mut coordinator = GroupMediaCoordinator::default();
    coordinator
        .register_receiver(&authorization, principal(1))
        .expect("receiver");
    let first = coordinator.begin_epoch().expect("first epoch");
    coordinator
        .issue_key(&authorization, principal(1))
        .expect("grant");

    assert_eq!(coordinator.end_epoch(), Some(first));
    assert!(coordinator.active_epoch().is_none());
    assert_eq!(
        coordinator.receiver_state(principal(1)),
        Some(GroupMediaReceiverInstallState::AwaitingKey)
    );
    assert!(matches!(
        coordinator.seal_frame(&authorization, b"frame", b"binding"),
        Err(GroupMediaCoordinatorError::NoActiveEpoch)
    ));

    let second = coordinator.begin_epoch().expect("second epoch");
    assert_eq!(second.get(), first.get() + 1);
}

#[test]
fn pending_receiver_does_not_block_healthy_receiver_media() {
    let authorization = store(&[(1, true), (2, true)]);
    let mut coordinator = GroupMediaCoordinator::default();
    coordinator
        .register_receiver(&authorization, principal(1))
        .expect("healthy receiver");
    coordinator
        .register_receiver(&authorization, principal(2))
        .expect("slow receiver");
    let epoch = coordinator.begin_epoch().expect("epoch");

    coordinator
        .issue_key(&authorization, principal(1))
        .expect("healthy key");
    coordinator
        .mark_installed(&authorization, principal(1), epoch)
        .expect("healthy install");

    assert_eq!(
        coordinator.receiver_state(principal(2)),
        Some(GroupMediaReceiverInstallState::AwaitingKey)
    );
    assert!(
        coordinator
            .seal_frame(&authorization, b"frame", b"presentation-binding")
            .is_ok(),
        "a slow receiver must not create a global key-install barrier"
    );
}

#[test]
fn live_permission_revocation_evicts_receiver_and_requires_rotation_before_more_media() {
    let mut authorization = store(&[(1, true)]);
    let mut coordinator = GroupMediaCoordinator::default();
    coordinator
        .register_receiver(&authorization, principal(1))
        .expect("registered receiver");
    let epoch = coordinator.begin_epoch().expect("epoch");
    coordinator
        .issue_key(&authorization, principal(1))
        .expect("grant");
    coordinator
        .mark_installed(&authorization, principal(1), epoch)
        .expect("install");

    authorization.disable(principal(1));
    assert!(matches!(
        coordinator.seal_frame(&authorization, b"frame", b"binding"),
        Err(GroupMediaCoordinatorError::RotationRequired)
    ));
    assert_eq!(coordinator.receiver_count(), 0);
    assert!(coordinator.rotation_required());
}

#[test]
fn removal_during_active_epoch_requires_rotation_but_does_not_destroy_control_state() {
    let authorization = store(&[(1, true)]);
    let mut coordinator = GroupMediaCoordinator::default();
    coordinator
        .register_receiver(&authorization, principal(1))
        .expect("receiver");
    coordinator.begin_epoch().expect("epoch");

    assert!(coordinator.remove_receiver(principal(1)));
    assert!(coordinator.rotation_required());
    assert_eq!(coordinator.receiver_count(), 0);
    assert!(!coordinator.remove_receiver(principal(1)));
}

#[test]
fn epoch_counter_is_monotonic_and_exhaustion_fails_closed() {
    let mut coordinator = GroupMediaCoordinator::resuming_after(u32::MAX);
    assert!(matches!(
        coordinator.begin_epoch(),
        Err(GroupMediaCoordinatorError::EpochExhausted)
    ));
    assert!(coordinator.active_epoch().is_none());
}

#[test]
fn invalid_receiver_limits_are_rejected() {
    assert!(matches!(
        GroupMediaCoordinator::with_limit(0),
        Err(GroupMediaCoordinatorError::InvalidReceiverLimit)
    ));
    assert!(matches!(
        GroupMediaCoordinator::with_limit(MAX_GROUP_MEDIA_RECEIVERS + 1),
        Err(GroupMediaCoordinatorError::InvalidReceiverLimit)
    ));
}

#[test]
fn granted_keys_open_the_frames_of_their_epoch() {
    let authorization = store(&[(1, true)]);
    let mut coordinator = GroupMediaCoordinator::default();
    coordinator
        .register_receiver(&authorization, principal(1))
        .expect("receiver");
    let epoch = coordinator
        .begin_epoch_with(GroupMediaKeyMaterial::new([9; 32]))
        .expect("epoch");
    let grant = coordinator
        .issue_key(&authorization, principal(1))
        .expect("grant");
    assert_eq!(grant.copy_key_material_for_delivery(), [9; 32]);
    let key = GroupMediaKeyMaterial::new(grant.copy_key_material_for_delivery());
    let mut receiver =
        GroupMediaReceiver::with_default_replay_tolerance(epoch, &key).expect("receiver");
    let sealed = coordinator
        .seal_frame(&authorization, b"frame", b"binding")
        .expect("sealed");
    assert_eq!(
        receiver.open_frame(&sealed, b"binding").expect("opened"),
        b"frame"
    );
}
