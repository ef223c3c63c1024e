use classmesh::control::authorization::CommandAuthorizationError;
use classmesh::control::diagnostics::{
    command_authorization_diagnostic_code, handshake_diagnostic_code, heartbeat_diagnostic_code,
    privileged_dispatch_diagnostic_code, stream_offer_diagnostic_code, transport_diagnostic_code,
};
use classmesh::control::dispatch::PrivilegedDispatchError;
use classmesh::control::handshake::HandshakeError;
use classmesh::control::quic::ControlTransportError;
use classmesh::control::stream::StreamOfferError;
use classmesh::control::HeartbeatError;
use classmesh::engine::adaptation::StreamProfileError;
use classmesh::protocol::clipboard::ClipboardTextError;
use classmesh::protocol::ProtocolVersion;
use classmesh::security::Permission;

#[test]
fn command_codes_do_not_embed_peer_values() {
    let wrong_session = CommandAuthorizationError::WrongSession {
        expected: 123,
        received: 999,
    };
    assert_eq!(
        command_authorization_diagnostic_code(&wrong_session),
        "control.command.wrong_session"
    );

    let wrong_version = CommandAuthorizationError::WrongProtocolVersion {
        expected: ProtocolVersion { major: 0, minor: 2 },
        received: ProtocolVersion {
            major: 65_535,
            minor: 65_535,
        },
    };
    assert_eq!(
        command_authorization_diagnostic_code(&wrong_version),
        "control.command.wrong_version"
    );

    let unauthorized = CommandAuthorizationError::Unauthorized {
        permission: Permission::ShutdownDevice,
    };
    assert_eq!(
        command_authorization_diagnostic_code(&unauthorized),
        "control.command.unauthorized"
    );
}

#[test]
fn stream_offer_codes_are_stable_and_non_sensitive() {
    assert_eq!(
        stream_offer_diagnostic_code(&StreamOfferError::InvalidStreamId),
        "control.stream.invalid_stream"
    );
    assert_eq!(
        stream_offer_diagnostic_code(&StreamOfferError::TransportCapabilityNotNegotiated),
        "control.stream.transport_not_negotiated"
    );
    assert_eq!(
        stream_offer_diagnostic_code(&StreamOfferError::InvalidProfile(
            StreamProfileError::InvalidGeometry
        )),
        "control.stream.invalid_profile"
    );
}

#[test]
fn clipboard_request_id_code_is_stable() {
    assert_eq!(
        privileged_dispatch_diagnostic_code(
            &PrivilegedDispatchError::ClipboardReadRequestMissingId
        ),
        "control.command.clipboard_missing_request_id"
    );
}

#[test]
fn clipboard_bound_code_does_not_embed_payload_size() {
    let error = PrivilegedDispatchError::InvalidClipboardText(
        ClipboardTextError::TooLarge {
            bytes: usize::MAX,
            maximum: 64 * 1024,
        },
    );
    assert_eq!(
        privileged_dispatch_diagnostic_code(&error),
        "control.command.clipboard_text_too_large"
    );
}

#[test]
fn heartbeat_codes_do_not_embed_session_or_sequence_values() {
    assert_eq!(
        heartbeat_diagnostic_code(&HeartbeatError::SessionMismatch {
            expected: 7,
            received: 999,
        }),
        "control.heartbeat.wrong_session"
    );
    assert_eq!(
        heartbeat_diagnostic_code(&HeartbeatError::NonIncreasingSequence {
            previous: 55,
            received: 55,
        }),
        "control.heartbeat.replayed_sequence"
    );
}

#[test]
fn privileged_dispatch_codes_remain_value_free() {
    assert_eq!(
        privileged_dispatch_diagnostic_code(&PrivilegedDispatchError::InputSequenceMismatch {
            envelope: 7,
            input: 999,
        },),
        "control.command.input_sequence_mismatch"
    );
    assert_eq!(
        privileged_dispatch_diagnostic_code(&PrivilegedDispatchError::MalformedInputEvent),
        "control.command.malformed_input"
    );
}

#[test]
fn transport_timeout_collapses_operation_detail_to_stable_code() {
    let error = HandshakeError::Transport(ControlTransportError::Timeout {
        operation: "peer supplied context should not become a metric label",
    });
    assert_eq!(
        handshake_diagnostic_code(&error),
        "control.transport.timeout"
    );
}

#[test]
fn transport_codes_tell_the_failures_apart() {
    assert_eq!(
        transport_diagnostic_code(&ControlTransportError::Timeout { operation: "connect" }),
        "control.transport.timeout"
    );
    assert_eq!(
        transport_diagnostic_code(&ControlTransportError::Configuration("secret".to_owned())),
        "control.transport.configuration"
    );
    assert_eq!(
        transport_diagnostic_code(&ControlTransportError::Transport("secret".to_owned())),
        "control.transport.failure"
    );
    assert_eq!(
        transport_diagnostic_code(&ControlTransportError::EndpointClosed),
        "control.transport.endpoint_closed"
    );
}
