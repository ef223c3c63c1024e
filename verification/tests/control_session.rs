use classmesh::control::framing::{
    declared_payload_len, decode_frame, encode_frame, FrameError, CONTROL_LENGTH_PREFIX_BYTES,
    MAX_CONTROL_MESSAGE_BYTES,
};
use classmesh::control::{
    negotiate_hello, ControlHello, HeartbeatError, HeartbeatPolicy, HeartbeatPolicyError,
    HeartbeatSample, HeartbeatTracker, NegotiationError, PeerLiveness,
};
use classmesh::ordered::OrderedSet;
use classmesh::protocol::{Capability, ControlRole, MediaHealth, ProtocolVersion};
use classmesh::security::PrincipalId;
use prost::Message;

fn seconds(count: u128) -> u128 {
    count * 1_000_000_000
}

/// The session and the sequence number of a heartbeat, as fields of a message.
fn heartbeat_payload() -> Vec<u8> {
    vec![0x08, 7, 0x10, 11]
}

#[test]
fn bounded_frame_round_trips() {
    let frame = encode_frame(heartbeat_payload()).expect("valid envelope should encode");
    assert_eq!(frame, [0, 0, 0, 4, 0x08, 7, 0x10, 11]);
    let decoded = decode_frame(&frame).expect("valid frame should decode");
    assert_eq!(decoded, heartbeat_payload());

    let message = 300_u64;
    let frame = encode_frame(message.encode_to_vec()).expect("valid message should encode");
    let payload = decode_frame(&frame).expect("valid frame should decode");
    assert_eq!(u64::decode(payload.as_slice()), Ok(message));
}

#[test]
fn malformed_protobuf_is_rejected_after_length_validation() {
    let payload = [0xff_u8];
    let mut frame = Vec::with_capacity(CONTROL_LENGTH_PREFIX_BYTES + payload.len());
    frame.extend_from_slice(&(payload.len() as u32).to_be_bytes());
    frame.extend_from_slice(&payload);

    let decoded = decode_frame(&frame).expect("the length fits");
    let error = u64::decode(decoded.as_slice()).expect_err("no message");
    let text = format!("{error}");
    let error = FrameError::Decode(error);
    assert!(matches!(error, FrameError::Decode(_)));
    assert!(error.message().ends_with(&text));
    assert!(error.message().len() > text.len());
}

#[test]
fn declared_length_must_match_payload() {
    let mut frame = encode_frame(heartbeat_payload()).expect("frame should encode");
    frame.pop();
    assert!(matches!(
        decode_frame(&frame),
        Err(FrameError::LengthMismatch { .. })
    ));
    assert!(matches!(
        decode_frame(&frame[..3]),
        Err(FrameError::LengthMismatch { .. })
    ));
}

#[test]
fn oversized_frame_is_rejected_before_allocation() {
    let prefix = u32::try_from(MAX_CONTROL_MESSAGE_BYTES + 1)
        .expect("test size fits in u32")
        .to_be_bytes();
    assert!(matches!(
        declared_payload_len(prefix),
        Err(FrameError::MessageTooLarge { .. })
    ));
}

#[test]
fn zero_length_frame_is_rejected() {
    assert!(matches!(
        declared_payload_len(0_u32.to_be_bytes()),
        Err(FrameError::EmptyMessage)
    ));
}


fn id(value: u8) -> PrincipalId {
    PrincipalId([value; 32])
}

fn caps(values: &[Capability]) -> OrderedSet<Capability> {
    OrderedSet::from_slice(values)
}

#[test]
fn hello_negotiates_minor_version_and_capability_intersection() {
    let local = caps(&[
        Capability::DxgiCapture,
        Capability::H264HardwareEncode,
        Capability::UdpUnicast,
    ]);
    let peer = ControlHello {
        principal_id: id(7),
        role: ControlRole::StudentDevice,
        version: ProtocolVersion { major: 1, minor: 2 },
        capabilities: caps(&[
            Capability::DxgiCapture,
            Capability::H264HardwareDecode,
            Capability::UdpUnicast,
        ]),
        hostname: "student-07".to_owned(),
        app_version: "0.0.1".to_owned(),
    };

    let negotiated = negotiate_hello(ProtocolVersion { major: 1, minor: 5 }, &local, &peer)
        .expect("same major version should negotiate");

    assert_eq!(negotiated.version, ProtocolVersion { major: 1, minor: 2 });
    assert_eq!(
        negotiated.capabilities,
        caps(&[Capability::DxgiCapture, Capability::UdpUnicast])
    );
    assert_eq!(negotiated.principal_id, id(7));
}

#[test]
fn hello_rejects_protocol_major_mismatch_explicitly() {
    let peer = ControlHello {
        principal_id: id(1),
        role: ControlRole::Teacher,
        version: ProtocolVersion { major: 2, minor: 0 },
        capabilities: OrderedSet::new(),
        hostname: "teacher".to_owned(),
        app_version: "0.0.1".to_owned(),
    };

    assert_eq!(
        negotiate_hello(
            ProtocolVersion { major: 1, minor: 9 },
            &OrderedSet::new(),
            &peer
        ),
        Err(NegotiationError::IncompatibleProtocol {
            local: ProtocolVersion { major: 1, minor: 9 },
            peer: ProtocolVersion { major: 2, minor: 0 },
        })
    );
}

#[test]
fn heartbeat_keeps_control_liveness_independent_from_media_health() {
    let policy = HeartbeatPolicy::default();
    let mut tracker = HeartbeatTracker::new(55, MediaHealth::Idle);

    tracker
        .observe(
            seconds(1),
            HeartbeatSample {
                control_session_id: 55,
                sequence: 1,
                media_health: MediaHealth::Recovering,
            },
        )
        .expect("heartbeat should be accepted");

    assert_eq!(
        tracker.liveness(seconds(5), policy),
        PeerLiveness::Online
    );
    assert_eq!(tracker.media_health(), MediaHealth::Recovering);
    assert_eq!(
        tracker.liveness(seconds(7), policy),
        PeerLiveness::Suspect
    );
    assert_eq!(
        tracker.liveness(seconds(11), policy),
        PeerLiveness::Offline
    );
}

#[test]
fn heartbeat_rejects_wrong_session_and_replayed_sequence() {
    let mut tracker = HeartbeatTracker::new(10, MediaHealth::Idle);

    assert_eq!(
        tracker.observe(
            seconds(1),
            HeartbeatSample {
                control_session_id: 11,
                sequence: 1,
                media_health: MediaHealth::Idle,
            },
        ),
        Err(HeartbeatError::SessionMismatch {
            expected: 10,
            received: 11,
        })
    );

    tracker
        .observe(
            seconds(2),
            HeartbeatSample {
                control_session_id: 10,
                sequence: 7,
                media_health: MediaHealth::Streaming,
            },
        )
        .expect("first in-session heartbeat should be accepted");

    assert_eq!(
        tracker.observe(
            seconds(3),
            HeartbeatSample {
                control_session_id: 10,
                sequence: 7,
                media_health: MediaHealth::Streaming,
            },
        ),
        Err(HeartbeatError::NonIncreasingSequence {
            previous: 7,
            received: 7,
        })
    );
}

#[test]
fn heartbeat_policy_requires_ordered_timeouts() {
    assert_eq!(
        HeartbeatPolicy {
            interval: seconds(0),
            suspect_after: seconds(6),
            offline_after: seconds(10),
        }
        .validate(),
        Err(HeartbeatPolicyError::ZeroInterval)
    );

    assert_eq!(
        HeartbeatPolicy {
            interval: seconds(5),
            suspect_after: seconds(4),
            offline_after: seconds(10),
        }
        .validate(),
        Err(HeartbeatPolicyError::SuspectBeforeInterval)
    );

    assert_eq!(
        HeartbeatPolicy {
            interval: seconds(2),
            suspect_after: seconds(6),
            offline_after: seconds(6),
        }
        .validate(),
        Err(HeartbeatPolicyError::OfflineNotAfterSuspect)
    );
}
