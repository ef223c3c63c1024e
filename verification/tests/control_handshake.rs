use classmesh::control::client_session::{SessionAttempts, SessionStep};
use classmesh::control::handshake::{
    capability_to_wire, client_hello, client_hello_answered, established_from_ack,
    established_peer, hello_from_wire, hello_to_wire, server_hello, server_hello_authenticated,
    validate_authenticated_hello, validate_hello_ack_envelope, validate_hello_envelope,
    validate_hello_protocol_version, version_to_wire, HandshakeError, ServerHelloConfig,
    FIRST_SEQUENCE, HELLO_REQUEST_ID, REJECT_INCOMPATIBLE_PROTOCOL,
};
use classmesh::control::peer_identity::AuthenticatedPeerIdentity;
use classmesh::control::quic::{
    default_reconnect_policy, validate_io_timeout, validate_reconnect_policy,
    ControlTransportError, ReconnectAttempts, ReconnectStep, DEFAULT_IO_TIMEOUT,
};
use classmesh::control::ControlHello;
use classmesh::engine::recovery::RecoveryPolicy;
use classmesh::ordered::OrderedSet;
use classmesh::protocol::control_wire::{
    ControlEnvelope, HelloAck, Payload, ProtocolVersion as WireProtocolVersion,
};
use classmesh::protocol::{Capability, ControlRole, ProtocolVersion};
use classmesh::security::{CredentialFingerprint, PrincipalId};

fn id(value: u8) -> PrincipalId {
    PrincipalId([value; 32])
}

fn capabilities(values: &[Capability]) -> OrderedSet<Capability> {
    OrderedSet::from_slice(values)
}

#[test]
fn hello_wire_conversion_validates_identity_and_role() {
    let hello = ControlHello {
        principal_id: id(5),
        role: ControlRole::StudentDevice,
        version: ProtocolVersion { major: 0, minor: 1 },
        capabilities: capabilities(&[Capability::H264HardwareDecode, Capability::UdpUnicast]),
        hostname: "student-05".to_owned(),
        app_version: "0.0.1".to_owned(),
    };

    let decoded = hello_from_wire(&hello_to_wire(&hello)).expect("hello should round trip");
    assert_eq!(decoded, hello);

    let mut invalid = hello_to_wire(&hello);
    invalid.device_id.pop();
    assert!(matches!(
        hello_from_wire(&invalid),
        Err(HandshakeError::InvalidPrincipalIdLength { .. })
    ));
}

#[test]
fn hello_envelope_requires_bootstrap_session_and_first_sequence() {
    let hello = ControlHello {
        principal_id: id(7),
        role: ControlRole::StudentDevice,
        version: ProtocolVersion { major: 0, minor: 2 },
        capabilities: OrderedSet::new(),
        hostname: "student-07".to_owned(),
        app_version: "0.0.1".to_owned(),
    };
    let valid = ControlEnvelope {
        control_session_id: 0,
        sequence: FIRST_SEQUENCE,
        protocol_version: Some(version_to_wire(hello.version)),
        request_id: HELLO_REQUEST_ID,
        payload: Some(Payload::Hello(hello_to_wire(&hello))),
    };
    assert!(validate_hello_envelope(&valid).is_ok());

    for invalid in [
        ControlEnvelope {
            control_session_id: 77,
            ..valid.clone()
        },
        ControlEnvelope {
            sequence: FIRST_SEQUENCE + 1,
            ..valid.clone()
        },
        ControlEnvelope {
            request_id: HELLO_REQUEST_ID + 1,
            ..valid
        },
    ] {
        assert!(matches!(
            validate_hello_envelope(&invalid),
            Err(HandshakeError::InvalidHelloEnvelope { .. })
        ));
    }
}

#[test]
fn hello_envelope_version_must_match_hello_payload_version() {
    let hello = ControlHello {
        principal_id: id(7),
        role: ControlRole::StudentDevice,
        version: ProtocolVersion { major: 0, minor: 2 },
        capabilities: OrderedSet::new(),
        hostname: "student-07".to_owned(),
        app_version: "0.0.1".to_owned(),
    };
    let mut envelope = ControlEnvelope {
        control_session_id: 0,
        sequence: FIRST_SEQUENCE,
        protocol_version: Some(WireProtocolVersion { major: 0, minor: 1 }),
        request_id: HELLO_REQUEST_ID,
        payload: Some(Payload::Hello(hello_to_wire(&hello))),
    };

    assert!(matches!(
        validate_hello_protocol_version(&envelope, &hello),
        Err(HandshakeError::HelloVersionMismatch {
            envelope: ProtocolVersion { major: 0, minor: 1 },
            hello: ProtocolVersion { major: 0, minor: 2 },
        })
    ));

    envelope.protocol_version = None;
    assert!(matches!(
        validate_hello_protocol_version(&envelope, &hello),
        Err(HandshakeError::MissingProtocolVersion)
    ));
}

#[test]
fn authenticated_hello_must_claim_the_tls_principal() {
    let authenticated = AuthenticatedPeerIdentity {
        principal_id: id(7),
        credential_fingerprint: CredentialFingerprint([9; 32]),
    };
    let mut hello = ControlHello {
        principal_id: id(7),
        role: ControlRole::StudentDevice,
        version: ProtocolVersion { major: 0, minor: 2 },
        capabilities: OrderedSet::new(),
        hostname: "student-07".to_owned(),
        app_version: "0.0.1".to_owned(),
    };

    assert!(validate_authenticated_hello(authenticated, &hello).is_ok());

    hello.principal_id = id(8);
    assert!(matches!(
        validate_authenticated_hello(authenticated, &hello),
        Err(HandshakeError::IdentityMismatch {
            authenticated: actual,
            claimed,
        }) if actual == id(7) && claimed == id(8)
    ));
}

#[test]
fn accepted_ack_cannot_enable_unoffered_capability() {
    let hello = ControlHello {
        principal_id: id(9),
        role: ControlRole::Teacher,
        version: ProtocolVersion { major: 1, minor: 4 },
        capabilities: capabilities(&[Capability::UdpUnicast]),
        hostname: "teacher".to_owned(),
        app_version: "0.0.1".to_owned(),
    };

    let session = established_from_ack(
        &hello,
        &HelloAck {
            accepted: true,
            negotiated_version: Some(WireProtocolVersion { major: 1, minor: 2 }),
            control_session_id: 88,
            negotiated_capabilities: vec![
                capability_to_wire(Capability::UdpUnicast),
                capability_to_wire(Capability::QuicDatagram),
            ],
            reject_reason: 0,
            diagnostic: String::new(),
        },
    )
    .expect("ack should be accepted");

    assert_eq!(session.control_session_id, 88);
    assert_eq!(
        session.negotiated.capabilities,
        capabilities(&[Capability::UdpUnicast])
    );
}

#[test]
fn hello_ack_envelope_must_match_payload_session_request_and_version() {
    let ack = HelloAck {
        accepted: true,
        negotiated_version: Some(WireProtocolVersion { major: 0, minor: 2 }),
        control_session_id: 77,
        negotiated_capabilities: Vec::new(),
        reject_reason: 0,
        diagnostic: String::new(),
    };
    let valid = ControlEnvelope {
        control_session_id: 77,
        sequence: FIRST_SEQUENCE,
        protocol_version: Some(WireProtocolVersion { major: 0, minor: 2 }),
        request_id: HELLO_REQUEST_ID,
        payload: Some(Payload::HelloAck(ack.clone())),
    };
    assert!(validate_hello_ack_envelope(&valid, &ack).is_ok());

    let wrong_session = ControlEnvelope {
        control_session_id: 78,
        ..valid.clone()
    };
    assert!(matches!(
        validate_hello_ack_envelope(&wrong_session, &ack),
        Err(HandshakeError::InvalidHelloAckEnvelope { .. })
    ));

    let wrong_request = ControlEnvelope {
        request_id: HELLO_REQUEST_ID + 1,
        ..valid.clone()
    };
    assert!(matches!(
        validate_hello_ack_envelope(&wrong_request, &ack),
        Err(HandshakeError::InvalidHelloAckEnvelope { .. })
    ));

    let wrong_version = ControlEnvelope {
        protocol_version: Some(WireProtocolVersion { major: 0, minor: 1 }),
        ..valid
    };
    assert!(matches!(
        validate_hello_ack_envelope(&wrong_version, &ack),
        Err(HandshakeError::HelloAckVersionMismatch)
    ));
}

#[test]
fn rejected_hello_ack_requires_bootstrap_session_zero() {
    let ack = HelloAck {
        accepted: false,
        negotiated_version: None,
        control_session_id: 0,
        negotiated_capabilities: Vec::new(),
        reject_reason: REJECT_INCOMPATIBLE_PROTOCOL,
        diagnostic: "no".to_owned(),
    };
    let valid = ControlEnvelope {
        control_session_id: 0,
        sequence: FIRST_SEQUENCE,
        protocol_version: Some(WireProtocolVersion { major: 0, minor: 2 }),
        request_id: HELLO_REQUEST_ID,
        payload: Some(Payload::HelloAck(ack.clone())),
    };
    assert!(validate_hello_ack_envelope(&valid, &ack).is_ok());

    let invalid = ControlEnvelope {
        control_session_id: 77,
        ..valid
    };
    assert!(matches!(
        validate_hello_ack_envelope(&invalid, &ack),
        Err(HandshakeError::InvalidHelloAckEnvelope { .. })
    ));
}

#[test]
fn rejected_ack_is_explicit() {
    let hello = ControlHello {
        principal_id: id(1),
        role: ControlRole::Teacher,
        version: ProtocolVersion { major: 1, minor: 0 },
        capabilities: OrderedSet::new(),
        hostname: "teacher".to_owned(),
        app_version: "0.0.1".to_owned(),
    };

    assert!(matches!(
        established_from_ack(
            &hello,
            &HelloAck {
                accepted: false,
                negotiated_version: None,
                control_session_id: 0,
                negotiated_capabilities: Vec::new(),
                reject_reason: REJECT_INCOMPATIBLE_PROTOCOL,
                diagnostic: "no".to_owned(),
            }
        ),
        Err(HandshakeError::Rejected { .. })
    ));
}

fn student_hello(claimed: u8, minor: u16, offered: &[Capability]) -> ControlHello {
    ControlHello {
        principal_id: id(claimed),
        role: ControlRole::StudentDevice,
        version: ProtocolVersion { major: 0, minor },
        capabilities: capabilities(offered),
        hostname: "student-07".to_owned(),
        app_version: "0.0.1".to_owned(),
    }
}

#[test]
fn reliable_quic_channel_round_trips_control_envelopes() {
    let hello = student_hello(7, 1, &[Capability::UdpUnicast, Capability::QuicDatagram]);
    let request = client_hello(&hello);
    let outcome = server_hello(
        &ServerHelloConfig {
            local_version: ProtocolVersion { major: 0, minor: 1 },
            local_capabilities: capabilities(&[Capability::UdpUnicast]),
            control_session_id: 77,
        },
        &request,
    );
    assert_eq!(
        outcome.result.expect("accepted").control_session_id,
        77
    );
    let established = client_hello_answered(&hello, &outcome.reply.expect("answered"))
        .expect("established");
    assert_eq!(established.control_session_id, 77);
    assert_eq!(
        established.negotiated.capabilities,
        capabilities(&[Capability::UdpUnicast])
    );
}

#[test]
fn authenticated_hello_rejects_claimed_principal_mismatch() {
    let identity = AuthenticatedPeerIdentity {
        principal_id: id(7),
        credential_fingerprint: CredentialFingerprint([9; 32]),
    };
    let config = ServerHelloConfig {
        local_version: ProtocolVersion { major: 0, minor: 2 },
        local_capabilities: OrderedSet::new(),
        control_session_id: 77,
    };
    let hello = student_hello(8, 2, &[]);
    let outcome = server_hello_authenticated(&config, identity, &client_hello(&hello));
    assert!(matches!(
        outcome.result,
        Err(HandshakeError::IdentityMismatch { .. })
    ));
    assert!(matches!(
        client_hello_answered(&hello, &outcome.reply.expect("answered")),
        Err(HandshakeError::Rejected { reason: 4, .. })
    ));

    let hello = student_hello(7, 2, &[]);
    let outcome = server_hello_authenticated(&config, identity, &client_hello(&hello));
    let session = outcome.result.expect("accepted");
    let peer = established_peer(identity, &session);
    assert_eq!(peer.control_session_id, 77);
    assert_eq!(peer.identity, identity);
}

#[test]
fn incompatible_hello_is_told_so() {
    let hello = student_hello(7, 2, &[]);
    let outcome = server_hello(
        &ServerHelloConfig {
            local_version: ProtocolVersion { major: 9, minor: 0 },
            local_capabilities: OrderedSet::new(),
            control_session_id: 99,
        },
        &client_hello(&hello),
    );
    assert!(matches!(
        outcome.result,
        Err(HandshakeError::Negotiation(_))
    ));
    let answered = client_hello_answered(&hello, &outcome.reply.expect("answered"));
    assert!(matches!(
        answered,
        Err(HandshakeError::Rejected {
            reason: REJECT_INCOMPATIBLE_PROTOCOL,
            ..
        })
    ));
}

#[test]
fn reconnect_reestablishes_fresh_control_session_after_transport_drop() {
    let mut attempts = SessionAttempts::new(
        RecoveryPolicy {
            max_attempts: 2,
            base_backoff_ms: 1,
            max_backoff_ms: 2,
        },
        5_000_000_000,
    )
    .expect("valid policy");
    let dropped = || {
        HandshakeError::Transport(ControlTransportError::Transport(
            "simulate dropped control session".to_owned(),
        ))
    };
    assert!(matches!(
        attempts.failed(dropped()),
        SessionStep::RetryAfter(1)
    ));

    let hello = student_hello(7, 2, &[Capability::UdpUnicast]);
    let outcome = server_hello(
        &ServerHelloConfig {
            local_version: ProtocolVersion { major: 0, minor: 2 },
            local_capabilities: capabilities(&[Capability::UdpUnicast]),
            control_session_id: 88,
        },
        &client_hello(&hello),
    );
    let server_session = outcome.result.expect("the second attempt is accepted");
    assert_eq!(server_session.control_session_id, 88);
    let session = client_hello_answered(&hello, &outcome.reply.expect("answered"))
        .expect("the second attempt is established");
    assert_eq!(session.control_session_id, 88);
    assert_eq!(session, server_session);

    assert!(matches!(
        attempts.failed(dropped()),
        SessionStep::Fail(HandshakeError::Transport(_))
    ));
}

#[test]
fn reconnect_does_not_retry_terminal_protocol_rejection() {
    let mut attempts = SessionAttempts::new(
        RecoveryPolicy {
            max_attempts: 3,
            base_backoff_ms: 1,
            max_backoff_ms: 2,
        },
        5_000_000_000,
    )
    .expect("valid policy");
    let hello = student_hello(7, 2, &[Capability::UdpUnicast]);
    let outcome = server_hello(
        &ServerHelloConfig {
            local_version: ProtocolVersion { major: 9, minor: 0 },
            local_capabilities: OrderedSet::new(),
            control_session_id: 99,
        },
        &client_hello(&hello),
    );
    assert!(outcome.result.is_err());
    let Err(rejected) = client_hello_answered(&hello, &outcome.reply.expect("answered")) else {
        panic!("the server has refused");
    };
    assert!(matches!(
        attempts.failed(rejected),
        SessionStep::Fail(HandshakeError::Rejected { .. })
    ));
}

#[test]
fn reconnect_policy_rejects_zero_or_inverted_backoff() {
    for policy in [
        RecoveryPolicy {
            max_attempts: 0,
            base_backoff_ms: 200,
            max_backoff_ms: 5_000,
        },
        RecoveryPolicy {
            max_attempts: 1,
            base_backoff_ms: 0,
            max_backoff_ms: 5_000,
        },
        RecoveryPolicy {
            max_attempts: 1,
            base_backoff_ms: 200,
            max_backoff_ms: 0,
        },
        RecoveryPolicy {
            max_attempts: 1,
            base_backoff_ms: 5_001,
            max_backoff_ms: 5_000,
        },
    ] {
        assert!(matches!(
            validate_reconnect_policy(policy),
            Err(ControlTransportError::Configuration(_))
        ));
        assert!(ReconnectAttempts::new(policy).is_err());
    }

    assert!(validate_reconnect_policy(default_reconnect_policy()).is_ok());
}

#[test]
fn control_channel_rejects_zero_io_timeout() {
    assert!(matches!(
        validate_io_timeout(0),
        Err(ControlTransportError::Configuration(_))
    ));
    assert!(validate_io_timeout(1_000_000).is_ok());
    assert!(validate_io_timeout(u128::from(DEFAULT_IO_TIMEOUT) * 1_000_000).is_ok());
}

#[test]
fn transport_defaults_build_with_bounded_reconnect() {
    assert_eq!(default_reconnect_policy().backoff_ms(1), 200);
    assert_eq!(default_reconnect_policy().backoff_ms(8), 5_000);
}

#[test]
fn attempts_end_with_the_policy() {
    let mut attempts = ReconnectAttempts::new(default_reconnect_policy()).expect("valid");
    let mut waits = Vec::new();
    while let ReconnectStep::RetryAfter(wait) = attempts.failed() {
        waits.push(wait);
    }
    assert_eq!(waits, vec![200, 400, 800, 1_600, 3_200, 5_000, 5_000]);
    assert_eq!(attempts.attempt(), 8);
}

#[test]
fn handshake_errors_speak() {
    assert_eq!(
        HandshakeError::InvalidPrincipalIdLength { length: 31 }.message(),
        "principal id must be 32 bytes; received 31"
    );
    assert_eq!(
        ControlTransportError::Timeout {
            operation: "control receive"
        }
        .message(),
        "control receive timed out"
    );
}

#[test]
fn hello_and_answer_list_only_numbered_capabilities() {
    let hello = ControlHello {
        principal_id: id(6),
        role: ControlRole::StudentDevice,
        version: ProtocolVersion { major: 0, minor: 2 },
        capabilities: capabilities(&[
            Capability::SframeGroupMedia,
            Capability::ClipboardText,
            Capability::TeacherPresentation,
            Capability::DxgiCapture,
        ]),
        hostname: "student-06".to_owned(),
        app_version: "0.0.1".to_owned(),
    };
    let mut wire = hello_to_wire(&hello);
    assert_eq!(wire.capabilities, vec![2, 11]);

    wire.capabilities = vec![13, 11, 12, 99, 2];
    let read = hello_from_wire(&wire).expect("hello is read");
    assert_eq!(
        read.capabilities,
        capabilities(&[Capability::DxgiCapture, Capability::ClipboardText])
    );

    let outcome = server_hello(
        &ServerHelloConfig {
            local_version: ProtocolVersion { major: 0, minor: 2 },
            local_capabilities: capabilities(&[
                Capability::ClipboardText,
                Capability::DxgiCapture,
                Capability::UdpUnicast,
            ]),
            control_session_id: 5,
        },
        &client_hello(&hello),
    );
    let session = outcome.result.expect("session is established");
    assert_eq!(
        session.negotiated.capabilities,
        capabilities(&[Capability::DxgiCapture, Capability::ClipboardText])
    );
    match outcome.reply.expect("the hello is answered").payload {
        Some(Payload::HelloAck(ack)) => {
            assert_eq!(ack.negotiated_capabilities, vec![2, 11]);
        }
        other => panic!("unexpected answer: {other:?}"),
    }
}
