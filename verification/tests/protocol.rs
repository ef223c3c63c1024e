use classmesh::ordered::OrderedSet;
use classmesh::protocol::clipboard::{
    validate_text, ClipboardTextError, MAX_CLIPBOARD_TEXT_BYTES,
};
use classmesh::protocol::control_wire::{
    PresentationKeyAck, PresentationKeyGrant, PresentationStart, PresentationState,
    PresentationStatus, PresentationStop,
};
use classmesh::protocol::feedback::{
    FeedbackCodecError, FeedbackMessage, MAX_NACK_PACKET_INDICES,
};
use classmesh::protocol::group_media_control::{
    group_media_control_available, group_media_control_min_version, validate_key_ack,
    validate_key_grant, GroupMediaControlError, PRESENTATION_GROUP_KEY_BYTES,
};
use classmesh::protocol::media::{MediaFlags, MediaHeaderError, MediaPacketHeader};
use classmesh::protocol::presentation::{
    validate_start, validate_status, validate_stop, PresentationControlError,
    MAX_PRESENTATION_DIAGNOSTIC_BYTES,
};
use classmesh::protocol::{Capability, ControlRole, ProtocolVersion};

#[test]
fn clipboard_text_limit_is_measured_in_utf8_bytes() {
    assert!(validate_text(&"a".repeat(MAX_CLIPBOARD_TEXT_BYTES)).is_ok());
    assert!(matches!(
        validate_text(&"a".repeat(MAX_CLIPBOARD_TEXT_BYTES + 1)),
        Err(ClipboardTextError::TooLarge { .. })
    ));

    let two_byte = "é".repeat(MAX_CLIPBOARD_TEXT_BYTES / 2);
    assert_eq!(two_byte.len(), MAX_CLIPBOARD_TEXT_BYTES);
    assert!(validate_text(&two_byte).is_ok());

    let oversized = format!("{two_byte}é");
    assert!(matches!(
        validate_text(&oversized),
        Err(ClipboardTextError::TooLarge { .. })
    ));
}

#[test]
fn empty_text_is_valid_for_explicit_clipboard_clear() {
    assert!(validate_text("").is_ok());
}

#[test]
fn nack_round_trips() {
    let message = FeedbackMessage::Nack {
        stream_id: 9,
        frame_id: 42,
        missing_packet_indices: vec![0, 3, 17],
    };
    let encoded = message.encode().expect("NACK encodes");
    assert_eq!(FeedbackMessage::decode(&encoded), Ok(message));
}

#[test]
fn keyframe_request_round_trips() {
    let message = FeedbackMessage::RequestKeyframe {
        stream_id: 9,
        after_frame_id: 42,
    };
    let encoded = message.encode().expect("keyframe request encodes");
    assert_eq!(FeedbackMessage::decode(&encoded), Ok(message));
}

#[test]
fn malformed_lengths_and_versions_are_rejected() {
    let message = FeedbackMessage::RequestKeyframe {
        stream_id: 1,
        after_frame_id: 2,
    };
    let mut encoded = message.encode().expect("keyframe request encodes");
    encoded.push(0);
    assert_eq!(
        FeedbackMessage::decode(&encoded),
        Err(FeedbackCodecError::LengthMismatch)
    );

    let mut encoded = message.encode().expect("keyframe request encodes");
    encoded[4] = encoded[4].wrapping_add(1);
    assert!(matches!(
        FeedbackMessage::decode(&encoded),
        Err(FeedbackCodecError::IncompatibleMajorVersion { .. })
    ));
}

#[test]
fn nack_size_is_bounded() {
    let message = FeedbackMessage::Nack {
        stream_id: 1,
        frame_id: 2,
        missing_packet_indices: vec![1; MAX_NACK_PACKET_INDICES + 1],
    };
    assert_eq!(
        message.encode(),
        Err(FeedbackCodecError::TooManyMissingPackets)
    );
}

fn grant() -> PresentationKeyGrant {
    PresentationKeyGrant {
        presentation_id: 55,
        stream_id: 7,
        epoch: 3,
        key_material: vec![9; PRESENTATION_GROUP_KEY_BYTES],
    }
}

#[test]
fn contract_requires_v04_and_both_explicit_capabilities() {
    let both = OrderedSet::from_slice(&[Capability::TeacherPresentation, Capability::SframeGroupMedia]);
    assert!(!group_media_control_available(
        ProtocolVersion { major: 0, minor: 3 },
        &both
    ));
    assert!(!group_media_control_available(
        ProtocolVersion { major: 1, minor: 4 },
        &both
    ));
    assert!(!group_media_control_available(
        group_media_control_min_version(),
        &OrderedSet::from_slice(&[Capability::TeacherPresentation])
    ));
    assert!(!group_media_control_available(
        group_media_control_min_version(),
        &OrderedSet::from_slice(&[Capability::SframeGroupMedia])
    ));
    assert!(group_media_control_available(
        group_media_control_min_version(),
        &both
    ));
}

#[test]
fn key_grant_requires_exact_binding_and_key_size() {
    assert_eq!(validate_key_grant(&grant()), Ok(()));

    let mut invalid = grant();
    invalid.presentation_id = 0;
    assert_eq!(
        validate_key_grant(&invalid),
        Err(GroupMediaControlError::InvalidPresentationId)
    );

    let mut invalid = grant();
    invalid.stream_id = 0;
    assert_eq!(
        validate_key_grant(&invalid),
        Err(GroupMediaControlError::InvalidStreamId)
    );

    let mut invalid = grant();
    invalid.stream_id = u64::from(u32::MAX) + 1;
    assert_eq!(
        validate_key_grant(&invalid),
        Err(GroupMediaControlError::StreamIdOutOfRange)
    );

    let mut invalid = grant();
    invalid.epoch = 0;
    assert_eq!(
        validate_key_grant(&invalid),
        Err(GroupMediaControlError::InvalidEpoch)
    );

    for size in [
        PRESENTATION_GROUP_KEY_BYTES - 1,
        PRESENTATION_GROUP_KEY_BYTES + 1,
    ] {
        let mut invalid = grant();
        invalid.key_material = vec![0; size];
        assert_eq!(
            validate_key_grant(&invalid),
            Err(GroupMediaControlError::InvalidKeyLength { actual: size })
        );
    }
}

#[test]
fn key_ack_requires_exact_nonzero_binding() {
    let valid = PresentationKeyAck {
        presentation_id: 55,
        stream_id: 7,
        epoch: 3,
    };
    assert_eq!(validate_key_ack(&valid), Ok(()));

    assert_eq!(
        validate_key_ack(&PresentationKeyAck {
            presentation_id: 0,
            ..valid
        }),
        Err(GroupMediaControlError::InvalidPresentationId)
    );
    assert_eq!(
        validate_key_ack(&PresentationKeyAck {
            stream_id: 0,
            ..valid
        }),
        Err(GroupMediaControlError::InvalidStreamId)
    );
    assert_eq!(
        validate_key_ack(&PresentationKeyAck { epoch: 0, ..valid }),
        Err(GroupMediaControlError::InvalidEpoch)
    );
}

#[test]
fn compatibility_requires_same_major_version() {
    assert!(
        ProtocolVersion { major: 1, minor: 0 }
            .is_compatible_with(ProtocolVersion { major: 1, minor: 8 })
    );
    assert!(
        !ProtocolVersion { major: 1, minor: 0 }
            .is_compatible_with(ProtocolVersion { major: 2, minor: 0 })
    );
}

#[test]
fn negotiation_selects_lower_minor_within_same_major() {
    assert_eq!(
        ProtocolVersion { major: 2, minor: 7 }
            .negotiate(ProtocolVersion { major: 2, minor: 3 }),
        Some(ProtocolVersion { major: 2, minor: 3 })
    );
    assert_eq!(
        ProtocolVersion { major: 2, minor: 7 }
            .negotiate(ProtocolVersion { major: 3, minor: 0 }),
        None
    );
}


fn sample_header() -> MediaPacketHeader {
    MediaPacketHeader {
        protocol_major: 0,
        protocol_minor: 1,
        flags: MediaFlags::keyframe() | MediaFlags::frame_start(),
        stream_id: 7,
        frame_id: 44,
        sequence: 100,
        packet_index: 1,
        packet_count: 3,
        timestamp_us: 1_234_567,
        payload_len: 1_000,
    }
}

#[test]
fn media_header_round_trips() {
    let original = sample_header();
    let bytes = original.encode().expect("sample header must encode");
    let decoded = MediaPacketHeader::decode(&bytes).expect("encoded header must decode");
    assert_eq!(decoded, original);
    assert!(decoded.flags.contains(MediaFlags::keyframe()));
}

#[test]
fn malformed_packet_index_is_rejected() {
    let mut header = sample_header();
    header.packet_index = header.packet_count;
    assert_eq!(header.encode(), Err(MediaHeaderError::InvalidPacketIndex));
}

#[test]
fn oversized_payload_is_rejected() {
    let mut header = sample_header();
    header.payload_len = 1_201;
    assert_eq!(header.encode(), Err(MediaHeaderError::PayloadTooLarge));
}

#[test]
fn start_requires_nonzero_ids_and_media_header_stream_range() {
    assert_eq!(
        validate_start(&PresentationStart {
            presentation_id: 0,
            stream_id: 7,
        }),
        Err(PresentationControlError::InvalidPresentationId)
    );
    assert_eq!(
        validate_start(&PresentationStart {
            presentation_id: 9,
            stream_id: 0,
        }),
        Err(PresentationControlError::InvalidStreamId)
    );
    assert_eq!(
        validate_start(&PresentationStart {
            presentation_id: 9,
            stream_id: u64::from(u32::MAX) + 1,
        }),
        Err(PresentationControlError::StreamIdOutOfRange)
    );
    assert_eq!(
        validate_start(&PresentationStart {
            presentation_id: 9,
            stream_id: 7,
        }),
        Ok(())
    );
}

#[test]
fn status_is_bounded_and_requires_known_state() {
    let mut status = PresentationStatus {
        presentation_id: 9,
        stream_id: 7,
        state: PresentationState::Active as i32,
        diagnostic: String::new(),
    };
    assert_eq!(validate_status(&status), Ok(()));

    status.state = PresentationState::Unspecified as i32;
    assert_eq!(
        validate_status(&status),
        Err(PresentationControlError::InvalidState)
    );

    status.state = i32::MAX;
    assert_eq!(
        validate_status(&status),
        Err(PresentationControlError::InvalidState)
    );

    status.state = PresentationState::Rejected as i32;
    status.diagnostic = "x".repeat(MAX_PRESENTATION_DIAGNOSTIC_BYTES + 1);
    assert_eq!(
        validate_status(&status),
        Err(PresentationControlError::DiagnosticTooLarge)
    );
}

#[test]
fn stop_requires_nonzero_presentation_id() {
    assert_eq!(
        validate_stop(&PresentationStop { presentation_id: 0 }),
        Err(PresentationControlError::InvalidPresentationId)
    );
    assert_eq!(
        validate_stop(&PresentationStop { presentation_id: 9 }),
        Ok(())
    );
}


#[test]
fn feedback_errors_have_their_inputs() {
    assert_eq!(
        FeedbackMessage::decode(&[0; 10]),
        Err(FeedbackCodecError::Truncated)
    );
    let request = FeedbackMessage::RequestKeyframe {
        stream_id: 1,
        after_frame_id: 2,
    };
    let encoded = request.encode().expect("keyframe request encodes");
    assert_eq!(&encoded[..4], b"CMF1");
    let mut magic = encoded.clone();
    magic[0] = 0;
    assert_eq!(
        FeedbackMessage::decode(&magic),
        Err(FeedbackCodecError::BadMagic)
    );
    let mut kind = encoded.clone();
    kind[6] = 9;
    assert_eq!(
        FeedbackMessage::decode(&kind),
        Err(FeedbackCodecError::UnknownKind(9))
    );
    let empty = FeedbackMessage::Nack {
        stream_id: 1,
        frame_id: 2,
        missing_packet_indices: vec![],
    };
    assert_eq!(empty.encode(), Err(FeedbackCodecError::EmptyNack));
    assert_eq!(request.stream_id(), 1);
}

#[test]
fn protocol_errors_speak() {
    assert_eq!(
        FeedbackCodecError::IncompatibleMajorVersion {
            received: 7,
            expected: 0
        }
        .message(),
        "feedback protocol major version 7 is incompatible with 0"
    );
    assert_eq!(
        FeedbackCodecError::UnknownKind(12).message(),
        "unknown feedback message kind 12"
    );
    let long = "a".repeat(MAX_CLIPBOARD_TEXT_BYTES + 1);
    assert_eq!(
        validate_text(&long).expect_err("too long").message(),
        "clipboard UTF-8 text is 65537 bytes; maximum is 65536"
    );
}

#[test]
fn media_header_errors_have_their_inputs() {
    let bytes = sample_header().encode().expect("sample header must encode");
    assert_eq!(&bytes[..4], b"CMV1");
    assert_eq!(
        MediaPacketHeader::decode(&bytes[..39]),
        Err(MediaHeaderError::Truncated)
    );
    let mut magic = bytes;
    magic[3] = 0;
    assert_eq!(
        MediaPacketHeader::decode(&magic),
        Err(MediaHeaderError::BadMagic)
    );
    let mut header = sample_header();
    header.packet_count = 0;
    header.packet_index = 0;
    assert_eq!(header.encode(), Err(MediaHeaderError::InvalidPacketCount));
}

#[test]
fn flags_are_sets_of_bits() {
    let flags = MediaFlags::retransmit() | MediaFlags::fec();
    assert!(flags.contains(MediaFlags::none()));
    assert!(flags.contains(MediaFlags::fec()));
    assert!(!flags.contains(MediaFlags::frame_end()));
    assert_eq!(MediaFlags::from_bits(flags.bits()), flags);
    assert_eq!(flags.bits(), 0x18);
}

#[test]
fn capabilities_and_roles_have_numbers_of_their_own() {
    for number in 1..=11 {
        let capability = Capability::from_number(number).expect("known");
        assert_eq!(capability.number(), Some(number));
    }
    for number in [0, 12, 13, 14] {
        assert_eq!(Capability::from_number(number), None);
    }
    assert_eq!(Capability::TeacherPresentation.number(), None);
    assert_eq!(Capability::SframeGroupMedia.number(), None);
    for number in 1..=3 {
        assert_eq!(
            ControlRole::from_number(number).expect("known").number(),
            number
        );
    }
    assert_eq!(ControlRole::from_number(0), None);
    assert_eq!(ControlRole::from_number(4), None);
}
