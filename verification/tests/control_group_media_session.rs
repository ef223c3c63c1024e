use classmesh::control::authorization::{AuthenticatedControlGuard, CommandAuthorizationError};
use classmesh::control::group_media_session::{
    BoundGroupMediaReceiverSession, GroupMediaSessionError, PresentationKeyAckError,
};
use classmesh::control::handshake::{
    version_to_wire, EstablishedAuthenticatedPeer, EstablishedControlSession,
};
use classmesh::control::peer_identity::AuthenticatedPeerIdentity;
use classmesh::control::NegotiatedHello;
use classmesh::ordered::{OrderedMap, OrderedSet};
use classmesh::protocol::control_wire::{ControlEnvelope, Payload, PresentationKeyAck};
use classmesh::protocol::{Capability, ControlRole, ProtocolVersion};
use classmesh::security::group_media_coordinator::{
    GroupMediaCoordinator, GroupMediaReceiverInstallState,
};
use classmesh::security::{
    AuthorizationStore, CredentialFingerprint, CredentialRecord, Permission, Principal,
    PrincipalId, PrincipalKind,
};

const VERSION: ProtocolVersion = ProtocolVersion { major: 0, minor: 4 };

fn principal(value: u8) -> PrincipalId {
    PrincipalId([value; 32])
}

fn fingerprint(value: u8) -> CredentialFingerprint {
    CredentialFingerprint([value; 32])
}

fn authorization(receiver: PrincipalId, credential: CredentialFingerprint) -> AuthorizationStore {
    let mut credentials = OrderedMap::new();
    credentials.insert(credential, CredentialRecord::active(credential, 1));
    let mut store = AuthorizationStore::default();
    store
        .upsert(Principal {
            id: receiver,
            kind: PrincipalKind::StudentDevice,
            enabled: true,
            permissions: OrderedSet::from_slice(&[Permission::ReceivePresentation]),
            credentials,
        })
        .expect("receiver principal");
    store
}

fn peer(receiver: PrincipalId, credential: CredentialFingerprint, session_id: u64) -> EstablishedAuthenticatedPeer {
    EstablishedAuthenticatedPeer {
        identity: AuthenticatedPeerIdentity {
            principal_id: receiver,
            credential_fingerprint: credential,
        },
        control_session_id: session_id,
    }
}

fn session(receiver: PrincipalId, session_id: u64) -> EstablishedControlSession {
    EstablishedControlSession {
        control_session_id: session_id,
        negotiated: NegotiatedHello {
            principal_id: receiver,
            role: ControlRole::StudentDevice,
            version: VERSION,
            capabilities: OrderedSet::from_slice(&[Capability::TeacherPresentation, Capability::SframeGroupMedia]),
        },
    }
}

fn setup() -> (
    PrincipalId,
    CredentialFingerprint,
    AuthorizationStore,
    GroupMediaCoordinator,
    BoundGroupMediaReceiverSession,
    AuthenticatedPeerIdentity,
) {
    let receiver = principal(7);
    let credential = fingerprint(9);
    let authorization = authorization(receiver, credential);
    let mut coordinator = GroupMediaCoordinator::default();
    coordinator
        .register_receiver(&authorization, receiver)
        .expect("receiver registration");
    coordinator.begin_epoch().expect("epoch");
    let established_peer = peer(receiver, credential, 77);
    let bound = BoundGroupMediaReceiverSession::bind(&session(receiver, 77), established_peer)
        .expect("bound receiver session");
    (
        receiver,
        credential,
        authorization,
        coordinator,
        bound,
        established_peer.identity,
    )
}

fn ack_envelope(
    session_id: u64,
    sequence: u64,
    request_id: u64,
    presentation_id: u64,
    stream_id: u64,
    epoch: u32,
) -> ControlEnvelope {
    ControlEnvelope {
        control_session_id: session_id,
        sequence,
        protocol_version: Some(version_to_wire(VERSION)),
        request_id,
        payload: Some(Payload::PresentationKeyAck(
            PresentationKeyAck {
                presentation_id,
                stream_id,
                epoch,
            },
        )),
    }
}

#[test]
fn binding_requires_exact_authenticated_student_session_and_v04_capabilities() {
    let receiver = principal(1);
    let credential = fingerprint(2);
    let exact_peer = peer(receiver, credential, 77);

    let mut wrong_session = session(receiver, 78);
    assert!(matches!(
        BoundGroupMediaReceiverSession::bind(&wrong_session, exact_peer),
        Err(GroupMediaSessionError::SessionMismatch { .. })
    ));

    wrong_session.control_session_id = 77;
    wrong_session.negotiated.principal_id = principal(3);
    assert!(matches!(
        BoundGroupMediaReceiverSession::bind(&wrong_session, exact_peer),
        Err(GroupMediaSessionError::IdentityMismatch)
    ));

    let mut wrong_role = session(receiver, 77);
    wrong_role.negotiated.role = ControlRole::Teacher;
    assert!(matches!(
        BoundGroupMediaReceiverSession::bind(&wrong_role, exact_peer),
        Err(GroupMediaSessionError::ReceiverRoleRequired)
    ));

    let mut missing_capability = session(receiver, 77);
    missing_capability
        .negotiated
        .capabilities
        .remove(&Capability::SframeGroupMedia);
    assert!(matches!(
        BoundGroupMediaReceiverSession::bind(&missing_capability, exact_peer),
        Err(GroupMediaSessionError::ContractUnavailable)
    ));
}

#[test]
fn grant_is_exact_session_bound_sensitive_and_request_correlated() {
    let (_, _, authorization, mut coordinator, bound, _) = setup();
    let (sensitive, pending) = bound
        .issue_key_grant(&mut coordinator, &authorization, 55, 7, 44, 2)
        .expect("key grant");

    let envelope = sensitive.envelope();
    assert_eq!(envelope.control_session_id, 77);
    assert_eq!(envelope.request_id, 44);
    assert_eq!(envelope.sequence, 2);
    let Some(Payload::PresentationKeyGrant(grant)) =
        envelope.payload.as_ref()
    else {
        panic!("expected key grant");
    };
    assert_eq!(grant.presentation_id, 55);
    assert_eq!(grant.stream_id, 7);
    assert_eq!(grant.epoch, pending.epoch().get());
    assert_eq!(grant.key_material.len(), 32);
    assert!(!sensitive.debug_text().contains(&format!("{:?}", grant.key_material)));
}

#[test]
fn zero_request_or_sequence_fails_before_key_issue() {
    let (receiver, _, authorization, mut coordinator, bound, _) = setup();

    assert!(matches!(
        bound.issue_key_grant(&mut coordinator, &authorization, 55, 7, 0, 2),
        Err(GroupMediaSessionError::ZeroRequestId)
    ));
    assert_eq!(
        coordinator.receiver_state(receiver),
        Some(GroupMediaReceiverInstallState::AwaitingKey)
    );

    assert!(matches!(
        bound.issue_key_grant(&mut coordinator, &authorization, 55, 7, 44, 0),
        Err(GroupMediaSessionError::ZeroSequence)
    ));
    assert_eq!(
        coordinator.receiver_state(receiver),
        Some(GroupMediaReceiverInstallState::AwaitingKey)
    );
}

#[test]
fn exact_ack_rechecks_live_permission_and_marks_only_bound_receiver_installed() {
    let (receiver, _, authorization, mut coordinator, bound, identity) = setup();
    let (_sensitive, mut pending) = bound
        .issue_key_grant(&mut coordinator, &authorization, 55, 7, 44, 2)
        .expect("key grant");
    let mut guard = AuthenticatedControlGuard::new(identity, 77, VERSION, 1);
    let ack = ack_envelope(77, 2, 44, 55, 7, pending.epoch().get());

    pending
        .accept(&mut guard, &authorization, &mut coordinator, &ack, 10)
        .expect("exact ACK");
    assert!(pending.is_acknowledged());
    assert_eq!(
        coordinator.receiver_state(receiver),
        Some(GroupMediaReceiverInstallState::Installed(pending.epoch()))
    );
}

#[test]
fn wrong_session_ack_is_rejected_before_sequence_consumption() {
    let (_, _, authorization, mut coordinator, bound, identity) = setup();
    let (_sensitive, mut pending) = bound
        .issue_key_grant(&mut coordinator, &authorization, 55, 7, 44, 2)
        .expect("key grant");
    let mut guard = AuthenticatedControlGuard::new(identity, 77, VERSION, 1);
    let ack = ack_envelope(78, 2, 44, 55, 7, pending.epoch().get());

    assert!(matches!(
        pending.accept(&mut guard, &authorization, &mut coordinator, &ack, 10),
        Err(PresentationKeyAckError::SessionMismatch {
            expected: 77,
            received: 78
        })
    ));
    assert_eq!(guard.last_sequence(), 1);
    assert!(!pending.is_acknowledged());
}

#[test]
fn request_mismatch_consumes_sequence_but_does_not_install_key() {
    let (receiver, _, authorization, mut coordinator, bound, identity) = setup();
    let (_sensitive, mut pending) = bound
        .issue_key_grant(&mut coordinator, &authorization, 55, 7, 44, 2)
        .expect("key grant");
    let mut guard = AuthenticatedControlGuard::new(identity, 77, VERSION, 1);

    let wrong = ack_envelope(77, 2, 45, 55, 7, pending.epoch().get());
    assert!(matches!(
        pending.accept(&mut guard, &authorization, &mut coordinator, &wrong, 10),
        Err(PresentationKeyAckError::RequestMismatch {
            expected: 44,
            received: 45
        })
    ));
    assert_eq!(guard.last_sequence(), 2);
    assert!(!pending.is_acknowledged());
    assert_eq!(
        coordinator.receiver_state(receiver),
        Some(GroupMediaReceiverInstallState::KeyIssued(pending.epoch()))
    );

    let exact = ack_envelope(77, 3, 44, 55, 7, pending.epoch().get());
    pending
        .accept(&mut guard, &authorization, &mut coordinator, &exact, 10)
        .expect("next exact ACK");
    assert!(pending.is_acknowledged());
}

#[test]
fn revoked_receiver_cannot_acknowledge_an_issued_key() {
    let (receiver, _, mut authorization, mut coordinator, bound, identity) = setup();
    let (_sensitive, mut pending) = bound
        .issue_key_grant(&mut coordinator, &authorization, 55, 7, 44, 2)
        .expect("key grant");
    assert!(authorization.disable(receiver));

    let mut guard = AuthenticatedControlGuard::new(identity, 77, VERSION, 1);
    let ack = ack_envelope(77, 2, 44, 55, 7, pending.epoch().get());
    assert!(matches!(
        pending.accept(&mut guard, &authorization, &mut coordinator, &ack, 10),
        Err(PresentationKeyAckError::Authorization(
            CommandAuthorizationError::Unauthorized {
                permission: Permission::ReceivePresentation
            }
        ))
    ));
    assert!(!pending.is_acknowledged());
}

#[test]
fn ack_from_another_authenticated_principal_is_rejected_before_sequence_consumption() {
    let (_, _, authorization, mut coordinator, bound, _) = setup();
    let (_sensitive, mut pending) = bound
        .issue_key_grant(&mut coordinator, &authorization, 55, 7, 44, 2)
        .expect("key grant");

    let other_identity = AuthenticatedPeerIdentity {
        principal_id: principal(99),
        credential_fingerprint: fingerprint(100),
    };
    let mut guard = AuthenticatedControlGuard::new(other_identity, 77, VERSION, 1);
    let ack = ack_envelope(77, 2, 44, 55, 7, pending.epoch().get());
    assert!(matches!(
        pending.accept(&mut guard, &authorization, &mut coordinator, &ack, 10),
        Err(PresentationKeyAckError::PeerMismatch)
    ));
    assert_eq!(guard.last_sequence(), 1);
}

#[test]
fn acknowledgements_are_taken_once() {
    let (_, _, authorization, mut coordinator, bound, identity) = setup();
    let (_sensitive, mut pending) = bound
        .issue_key_grant(&mut coordinator, &authorization, 55, 7, 44, 2)
        .expect("key grant");
    let mut guard = AuthenticatedControlGuard::new(identity, 77, VERSION, 1);
    let epoch = pending.epoch().get();
    let wrong_stream = ack_envelope(77, 2, 44, 55, 8, epoch);
    assert!(matches!(
        pending.accept(&mut guard, &authorization, &mut coordinator, &wrong_stream, 10),
        Err(PresentationKeyAckError::StreamMismatch {
            expected: 7,
            received: 8
        })
    ));
    let wrong_epoch = ack_envelope(77, 3, 44, 55, 7, epoch + 1);
    assert!(matches!(
        pending.accept(&mut guard, &authorization, &mut coordinator, &wrong_epoch, 10),
        Err(PresentationKeyAckError::EpochMismatch { .. })
    ));
    let ack = ack_envelope(77, 4, 44, 55, 7, epoch);
    pending
        .accept(&mut guard, &authorization, &mut coordinator, &ack, 10)
        .expect("exact ACK");
    assert!(matches!(
        pending.accept(&mut guard, &authorization, &mut coordinator, &ack, 10),
        Err(PresentationKeyAckError::AlreadyAcknowledged)
    ));
}
