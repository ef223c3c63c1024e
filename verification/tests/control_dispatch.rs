use classmesh::control::authorization::{AuthenticatedControlGuard, CommandAuthorizationError};
use classmesh::control::dispatch::{
    dispatch_privileged_command, PrivilegedControlCommand, PrivilegedDispatchError,
};
use classmesh::control::peer_identity::AuthenticatedPeerIdentity;
use classmesh::ordered::{OrderedMap, OrderedSet};
use classmesh::protocol::clipboard::{ClipboardTextError, MAX_CLIPBOARD_TEXT_BYTES};
use classmesh::protocol::control_wire::{
    ClipboardReadRequest, ClipboardWrite, ControlEnvelope, Heartbeat, InputAction, InputEvent,
    Payload, ProtocolVersion as WireProtocolVersion, ReleaseAllInput,
};
use classmesh::protocol::ProtocolVersion;
use classmesh::security::{
    AuthorizationStore, CredentialFingerprint, CredentialRecord, Permission, Principal,
    PrincipalId, PrincipalKind,
};

const VERSION: ProtocolVersion = ProtocolVersion { major: 0, minor: 2 };

fn identity() -> AuthenticatedPeerIdentity {
    AuthenticatedPeerIdentity {
        principal_id: PrincipalId([7; 32]),
        credential_fingerprint: CredentialFingerprint([9; 32]),
    }
}

fn store(permissions: OrderedSet<Permission>) -> AuthorizationStore {
    let peer = identity();
    let mut credentials = OrderedMap::new();
    credentials.insert(
        peer.credential_fingerprint,
        CredentialRecord::active(peer.credential_fingerprint, 100),
    );
    let mut store = AuthorizationStore::default();
    store
        .upsert(Principal {
            id: peer.principal_id,
            kind: PrincipalKind::Teacher,
            enabled: true,
            permissions,
            credentials,
        })
        .expect("principal should register");
    store
}

fn input_envelope(sequence: u64) -> ControlEnvelope {
    ControlEnvelope {
        control_session_id: 77,
        sequence,
        protocol_version: Some(WireProtocolVersion {
            major: u32::from(VERSION.major),
            minor: u32::from(VERSION.minor),
        }),
        request_id: 0,
        payload: Some(Payload::InputEvent(InputEvent {
            sequence,
            timestamp_us: 123,
            event: Some(InputAction::ReleaseAll(ReleaseAllInput {})),
        })),
    }
}

fn clipboard_read_envelope(sequence: u64) -> ControlEnvelope {
    ControlEnvelope {
        control_session_id: 77,
        sequence,
        protocol_version: Some(WireProtocolVersion {
            major: u32::from(VERSION.major),
            minor: u32::from(VERSION.minor),
        }),
        request_id: 91,
        payload: Some(Payload::ClipboardReadRequest(
            ClipboardReadRequest {},
        )),
    }
}

fn clipboard_write_envelope(sequence: u64, text_utf8: String) -> ControlEnvelope {
    ControlEnvelope {
        control_session_id: 77,
        sequence,
        protocol_version: Some(WireProtocolVersion {
            major: u32::from(VERSION.major),
            minor: u32::from(VERSION.minor),
        }),
        request_id: 0,
        payload: Some(Payload::ClipboardWrite(ClipboardWrite {
            text_utf8,
        })),
    }
}

#[test]
fn authorized_input_dispatches_and_consumes_sequence() {
    let authorization = store(OrderedSet::from_slice(&[Permission::ControlInput]));
    let mut guard = AuthenticatedControlGuard::new(identity(), 77, VERSION, 1);

    let command =
        dispatch_privileged_command(&mut guard, &authorization, &input_envelope(2), 150)
            .expect("authorized input should dispatch");

    assert!(matches!(command, PrivilegedControlCommand::InputEvent(_)));
    assert_eq!(guard.last_sequence(), 2);
}

#[test]
fn malformed_input_is_rejected_before_sequence_consumption() {
    let authorization = store(OrderedSet::from_slice(&[Permission::ControlInput]));
    let mut guard = AuthenticatedControlGuard::new(identity(), 77, VERSION, 1);

    let mut missing_event = input_envelope(2);
    let Some(Payload::InputEvent(input)) = missing_event.payload.as_mut()
    else {
        panic!("expected input event");
    };
    input.event = None;
    assert_eq!(
        dispatch_privileged_command(&mut guard, &authorization, &missing_event, 150),
        Err(PrivilegedDispatchError::MalformedInputEvent)
    );
    assert_eq!(guard.last_sequence(), 1);

    let mut mismatched = input_envelope(2);
    let Some(Payload::InputEvent(input)) = mismatched.payload.as_mut() else {
        panic!("expected input event");
    };
    input.sequence = 99;
    assert_eq!(
        dispatch_privileged_command(&mut guard, &authorization, &mismatched, 150),
        Err(PrivilegedDispatchError::InputSequenceMismatch {
            envelope: 2,
            input: 99,
        })
    );
    assert_eq!(guard.last_sequence(), 1);
}

#[test]
fn unsupported_payload_does_not_consume_privileged_sequence() {
    let authorization = store(OrderedSet::from_slice(&[Permission::ControlInput]));
    let mut guard = AuthenticatedControlGuard::new(identity(), 77, VERSION, 1);
    let mut envelope = input_envelope(2);
    envelope.payload = Some(Payload::Heartbeat(Heartbeat {
        monotonic_time_us: 100,
        control_session_id: 77,
        media: 1,
    }));

    assert_eq!(
        dispatch_privileged_command(&mut guard, &authorization, &envelope, 150),
        Err(PrivilegedDispatchError::UnsupportedPayload)
    );
    assert_eq!(guard.last_sequence(), 1);
}

#[test]
fn clipboard_read_requires_request_id_before_sequence_consumption() {
    let authorization = store(OrderedSet::from_slice(&[Permission::ReadClipboard]));
    let mut guard = AuthenticatedControlGuard::new(identity(), 77, VERSION, 1);
    let mut envelope = clipboard_read_envelope(2);
    envelope.request_id = 0;

    assert_eq!(
        dispatch_privileged_command(&mut guard, &authorization, &envelope, 150),
        Err(PrivilegedDispatchError::ClipboardReadRequestMissingId)
    );
    assert_eq!(guard.last_sequence(), 1);
}

#[test]
fn clipboard_permissions_are_explicit_and_separate() {
    let input_only = store(OrderedSet::from_slice(&[Permission::ControlInput]));
    let mut input_guard = AuthenticatedControlGuard::new(identity(), 77, VERSION, 1);
    assert_eq!(
        dispatch_privileged_command(
            &mut input_guard,
            &input_only,
            &clipboard_read_envelope(2),
            150,
        ),
        Err(PrivilegedDispatchError::Authorization(
            CommandAuthorizationError::Unauthorized {
                permission: Permission::ReadClipboard,
            }
        ))
    );

    let read_only = store(OrderedSet::from_slice(&[Permission::ReadClipboard]));
    let mut read_guard = AuthenticatedControlGuard::new(identity(), 77, VERSION, 1);
    assert!(matches!(
        dispatch_privileged_command(
            &mut read_guard,
            &read_only,
            &clipboard_read_envelope(2),
            150,
        ),
        Ok(PrivilegedControlCommand::ClipboardReadRequest(_))
    ));

    let mut write_guard = AuthenticatedControlGuard::new(identity(), 77, VERSION, 1);
    assert_eq!(
        dispatch_privileged_command(
            &mut write_guard,
            &read_only,
            &clipboard_write_envelope(2, "hello".to_owned()),
            150,
        ),
        Err(PrivilegedDispatchError::Authorization(
            CommandAuthorizationError::Unauthorized {
                permission: Permission::WriteClipboard,
            }
        ))
    );
}

#[test]
fn oversized_clipboard_write_is_rejected_before_sequence_consumption() {
    let authorization = store(OrderedSet::from_slice(&[Permission::WriteClipboard]));
    let mut guard = AuthenticatedControlGuard::new(identity(), 77, VERSION, 1);
    let envelope = clipboard_write_envelope(2, "a".repeat(MAX_CLIPBOARD_TEXT_BYTES + 1));

    assert!(matches!(
        dispatch_privileged_command(&mut guard, &authorization, &envelope, 150),
        Err(PrivilegedDispatchError::InvalidClipboardText(
            ClipboardTextError::TooLarge { .. }
        ))
    ));
    assert_eq!(guard.last_sequence(), 1);
}

#[test]
fn authorized_clipboard_write_dispatches_and_consumes_sequence() {
    let authorization = store(OrderedSet::from_slice(&[Permission::WriteClipboard]));
    let mut guard = AuthenticatedControlGuard::new(identity(), 77, VERSION, 1);
    let envelope = clipboard_write_envelope(2, "bounded clipboard".to_owned());

    assert!(matches!(
        dispatch_privileged_command(&mut guard, &authorization, &envelope, 150),
        Ok(PrivilegedControlCommand::ClipboardWrite(_))
    ));
    assert_eq!(guard.last_sequence(), 2);
}

#[test]
fn denied_input_sequence_is_consumed_by_authorization_guard() {
    let authorization = store(OrderedSet::new());
    let mut guard = AuthenticatedControlGuard::new(identity(), 77, VERSION, 1);

    assert_eq!(
        dispatch_privileged_command(&mut guard, &authorization, &input_envelope(2), 150),
        Err(PrivilegedDispatchError::Authorization(
            CommandAuthorizationError::Unauthorized {
                permission: Permission::ControlInput,
            }
        ))
    );
    assert_eq!(guard.last_sequence(), 2);
}
