use classmesh::control::authorization::{AuthenticatedControlGuard, CommandAuthorizationError};
use classmesh::control::peer_identity::AuthenticatedPeerIdentity;
use classmesh::ordered::{OrderedMap, OrderedSet};
use classmesh::protocol::control_wire::{self, ControlEnvelope, InputAction, Payload};
use classmesh::protocol::ProtocolVersion;
use classmesh::security::{
    AuthorizationStore, CredentialFingerprint, CredentialRecord, Permission, Principal,
    PrincipalId, PrincipalKind,
};

fn identity() -> AuthenticatedPeerIdentity {
    AuthenticatedPeerIdentity {
        principal_id: PrincipalId([7; 32]),
        credential_fingerprint: CredentialFingerprint([9; 32]),
    }
}

fn store(permissions: OrderedSet<Permission>) -> AuthorizationStore {
    let peer = identity();
    let mut credentials = OrderedMap::new();
    credentials.insert(
        peer.credential_fingerprint,
        CredentialRecord::active(peer.credential_fingerprint, 100),
    );
    let mut store = AuthorizationStore::default();
    store
        .upsert(Principal {
            id: peer.principal_id,
            kind: PrincipalKind::Teacher,
            enabled: true,
            permissions,
            credentials,
        })
        .expect("principal should register");
    store
}

const VERSION: ProtocolVersion = ProtocolVersion { major: 0, minor: 2 };

fn envelope(session: u64, sequence: u64) -> ControlEnvelope {
    ControlEnvelope {
        control_session_id: session,
        sequence,
        protocol_version: Some(control_wire::ProtocolVersion {
            major: u32::from(VERSION.major),
            minor: u32::from(VERSION.minor),
        }),
        request_id: 0,
        payload: Some(Payload::InputEvent(
            control_wire::InputEvent {
                sequence,
                timestamp_us: 0,
                event: Some(
                    InputAction::ReleaseAll(
                        control_wire::ReleaseAllInput {},
                    ),
                ),
            },
        )),
    }
}

#[test]
fn malformed_established_payload_does_not_consume_sequence() {
    let authorization = store(OrderedSet::from_slice(&[Permission::ControlInput]));
    let mut guard = AuthenticatedControlGuard::new(identity(), 77, VERSION, 1);

    let mut missing = envelope(77, 2);
    missing.payload = None;
    assert_eq!(
        guard.authorize(&authorization, &missing, Permission::ControlInput, 150),
        Err(CommandAuthorizationError::MissingPayload)
    );
    assert_eq!(guard.last_sequence(), 1);

    let hello = control_wire::Hello {
        version: Some(control_wire::ProtocolVersion {
            major: u32::from(VERSION.major),
            minor: u32::from(VERSION.minor),
        }),
        device_id: vec![7; 32],
        hostname: "student".to_owned(),
        capabilities: Vec::new(),
        app_version: "0.0.1".to_owned(),
        role: 2,
        credential_fingerprint_sha256: Vec::new(),
    };
    let mut handshake = envelope(77, 2);
    handshake.payload = Some(Payload::Hello(hello));
    assert_eq!(
        guard.authorize(&authorization, &handshake, Permission::ControlInput, 150,),
        Err(CommandAuthorizationError::HandshakePayloadAfterEstablishment)
    );
    assert_eq!(guard.last_sequence(), 1);
}

#[test]
fn guard_requires_negotiated_protocol_version_without_consuming_sequence() {
    let authorization = store(OrderedSet::from_slice(&[Permission::ControlInput]));
    let mut guard = AuthenticatedControlGuard::new(identity(), 77, VERSION, 1);

    let mut missing = envelope(77, 2);
    missing.protocol_version = None;
    assert_eq!(
        guard.authorize(&authorization, &missing, Permission::ControlInput, 150),
        Err(CommandAuthorizationError::MissingProtocolVersion)
    );
    assert_eq!(guard.last_sequence(), 1);

    let mut wrong = envelope(77, 2);
    wrong.protocol_version =
        Some(control_wire::ProtocolVersion { major: 0, minor: 1 });
    assert_eq!(
        guard.authorize(&authorization, &wrong, Permission::ControlInput, 150),
        Err(CommandAuthorizationError::WrongProtocolVersion {
            expected: VERSION,
            received: ProtocolVersion { major: 0, minor: 1 },
        })
    );
    assert_eq!(guard.last_sequence(), 1);

    guard
        .authorize(
            &authorization,
            &envelope(77, 2),
            Permission::ControlInput,
            150,
        )
        .expect("matching negotiated version should authorize");
    assert_eq!(guard.last_sequence(), 2);
}

#[test]
fn guard_requires_exact_session_and_strictly_increasing_sequence() {
    let authorization = store(OrderedSet::from_slice(&[Permission::ControlInput]));
    let mut guard = AuthenticatedControlGuard::new(identity(), 77, VERSION, 1);

    assert_eq!(
        guard.authorize(
            &authorization,
            &envelope(78, 1),
            Permission::ControlInput,
            150,
        ),
        Err(CommandAuthorizationError::WrongSession {
            expected: 77,
            received: 78,
        })
    );
    assert_eq!(guard.last_sequence(), 1);

    guard
        .authorize(
            &authorization,
            &envelope(77, 2),
            Permission::ControlInput,
            150,
        )
        .expect("first post-handshake command should authorize");
    assert_eq!(
        guard.authorize(
            &authorization,
            &envelope(77, 2),
            Permission::ControlInput,
            150,
        ),
        Err(CommandAuthorizationError::NonIncreasingSequence {
            previous: 2,
            received: 2,
        })
    );
    assert_eq!(
        guard.authorize(
            &authorization,
            &envelope(77, 0),
            Permission::ControlInput,
            150,
        ),
        Err(CommandAuthorizationError::NonIncreasingSequence {
            previous: 2,
            received: 0,
        })
    );
}

#[test]
fn non_privileged_envelopes_share_the_same_session_sequence() {
    let mut guard = AuthenticatedControlGuard::new(identity(), 77, VERSION, 1);
    let mut heartbeat = envelope(77, 2);
    heartbeat.payload = Some(Payload::Heartbeat(
        control_wire::Heartbeat {
            monotonic_time_us: 100,
            control_session_id: 77,
            media: 1,
        },
    ));

    guard
        .validate_envelope(&heartbeat)
        .expect("heartbeat should consume the global session sequence");
    assert_eq!(guard.last_sequence(), 2);

    let authorization = store(OrderedSet::from_slice(&[Permission::ControlInput]));
    assert_eq!(
        guard.authorize(
            &authorization,
            &envelope(77, 2),
            Permission::ControlInput,
            150,
        ),
        Err(CommandAuthorizationError::NonIncreasingSequence {
            previous: 2,
            received: 2,
        })
    );
}

#[test]
fn denied_sequence_cannot_be_replayed_after_permission_change() {
    let mut authorization = store(OrderedSet::new());
    let mut guard = AuthenticatedControlGuard::new(identity(), 77, VERSION, 1);
    assert_eq!(
        guard.authorize(
            &authorization,
            &envelope(77, 2),
            Permission::ControlInput,
            150,
        ),
        Err(CommandAuthorizationError::Unauthorized {
            permission: Permission::ControlInput,
        })
    );
    assert_eq!(guard.last_sequence(), 2);

    let peer = identity();
    let mut credentials = OrderedMap::new();
    credentials.insert(
        peer.credential_fingerprint,
        CredentialRecord::active(peer.credential_fingerprint, 100),
    );
    authorization
        .upsert(Principal {
            id: peer.principal_id,
            kind: PrincipalKind::Teacher,
            enabled: true,
            permissions: OrderedSet::from_slice(&[Permission::ControlInput]),
            credentials,
        })
        .expect("permission update should register");

    assert_eq!(
        guard.authorize(
            &authorization,
            &envelope(77, 2),
            Permission::ControlInput,
            151,
        ),
        Err(CommandAuthorizationError::NonIncreasingSequence {
            previous: 2,
            received: 2,
        })
    );
    guard
        .authorize(
            &authorization,
            &envelope(77, 3),
            Permission::ControlInput,
            151,
        )
        .expect("new sequence should use current permission");
}

#[test]
fn credential_revocation_blocks_next_privileged_command() {
    let mut authorization = store(OrderedSet::from_slice(&[Permission::ControlInput]));
    let mut guard = AuthenticatedControlGuard::new(identity(), 77, VERSION, 1);
    guard
        .authorize(
            &authorization,
            &envelope(77, 2),
            Permission::ControlInput,
            150,
        )
        .expect("credential should initially authorize");

    let peer = identity();
    let mut credentials = OrderedMap::new();
    let mut credential = CredentialRecord::active(peer.credential_fingerprint, 100);
    credential.revoke(160);
    credentials.insert(peer.credential_fingerprint, credential);
    authorization
        .upsert(Principal {
            id: peer.principal_id,
            kind: PrincipalKind::Teacher,
            enabled: true,
            permissions: OrderedSet::from_slice(&[Permission::ControlInput]),
            credentials,
        })
        .expect("revocation update should register");

    assert_eq!(
        guard.authorize(
            &authorization,
            &envelope(77, 3),
            Permission::ControlInput,
            160,
        ),
        Err(CommandAuthorizationError::Unauthorized {
            permission: Permission::ControlInput,
        })
    );
}

#[test]
fn versions_that_do_not_fit_are_refused() {
    let mut guard = AuthenticatedControlGuard::new(identity(), 77, VERSION, 1);
    let mut huge = envelope(77, 2);
    huge.protocol_version = Some(control_wire::ProtocolVersion {
        major: 0,
        minor: 65_536,
    });
    assert_eq!(
        guard.validate_envelope(&huge),
        Err(CommandAuthorizationError::ProtocolVersionOutOfRange)
    );
    assert_eq!(guard.peer(), identity());
    assert_eq!(guard.protocol_version(), VERSION);
}
