use classmesh::network::address::{IpAddress, Ipv4Address, SocketAddress};
use classmesh::network::feedback::{
    apply_sender_feedback, from_receiver_events, plan_sender_feedback, FeedbackOutcome,
    MediaFeedback,
};
use classmesh::network::impairment::{
    ImpairmentConfig, ImpairmentConfigError, ImpairmentDecision, ImpairmentEngine,
};
use classmesh::network::multicast::{
    evaluate_multicast_probe, MembershipChange, MulticastContractError, MulticastMembership,
    MulticastMembershipRegistry, MulticastProbeFailure, MulticastProbeObservation,
    MulticastProbeOutcome, MAX_MULTICAST_MEMBERSHIPS,
};
use classmesh::network::receiver::{ReceiverEvent, ReceiverPolicy, ReceiverWindow};
use classmesh::network::reliability::{RetransmitCache, SequenceObservation, SequenceTracker};
use classmesh::network::transport::{
    SendFrameReport, UdpFrameReceiver, UdpFrameSender, UdpSendError,
    UdpSenderConfig,
};
use classmesh::network::udp::{
    decode_datagram, encode_datagram, is_ipv4_multicast, DatagramError, IoErrorKind,
    MAX_MEDIA_DATAGRAM,
};
use classmesh::network::{
    packetize_frame, AssembleError, FrameAssembler, MediaPacket, PacketizeError, PacketizeMeta,
};
use classmesh::protocol::feedback::FeedbackMessage;
use classmesh::protocol::media::{MediaFlags, MediaPacketHeader, MAX_PACKET_PAYLOAD};
use classmesh::video::distributor::SharedEncodedFrame;
use classmesh::video::{Codec, EncodedFrameMeta};

fn loopback_any() -> SocketAddress {
    SocketAddress::new(IpAddress::V4(Ipv4Address::new(127, 0, 0, 1)), 40_000)
}

/// Plans a frame, hands its datagrams to `wire`, and finishes it.
fn send_frame(
    sender: &mut UdpFrameSender,
    now_us: u64,
    frame: &SharedEncodedFrame,
    wire: &mut Vec<Vec<u8>>,
) -> Result<SendFrameReport, UdpSendError> {
    let plan = sender.plan_frame(frame)?;
    let packets = plan.len();
    for index in 0..packets {
        wire.push(encode_datagram(plan.packet(index)).map_err(UdpSendError::Datagram)?);
    }
    Ok(sender
        .finish_frame(now_us, plan, packets)
        .expect("every packet was sent"))
}

/// Plans what is sent again, and takes note that all of it went out.
fn retransmit_missing(
    sender: &mut UdpFrameSender,
    now_us: u64,
    frame_id: u64,
    missing_packet_indices: &[u16],
) -> usize {
    let packets = sender.plan_retransmit(now_us, frame_id, missing_packet_indices);
    sender.finish_retransmit(&packets, packets.len())
}

/// Answers feedback, and takes note that everything it asks for went out.
fn answer_feedback(
    sender: &mut UdpFrameSender,
    now_us: u64,
    feedback: &MediaFeedback,
    asked: usize,
) -> FeedbackOutcome {
    let plan = plan_sender_feedback(sender, now_us, feedback);
    apply_sender_feedback(sender, &plan, asked)
}

#[test]
fn receiver_events_become_control_feedback_only_when_needed() {
    let events = vec![
        ReceiverEvent::NeedNack {
            stream_id: 3,
            frame_id: 10,
            missing_packet_indices: vec![1, 4],
        },
        ReceiverEvent::DroppedStaleFrame {
            stream_id: 3,
            frame_id: 10,
        },
        ReceiverEvent::NeedKeyframe {
            stream_id: 3,
            after_frame_id: 10,
        },
    ];
    assert_eq!(
        from_receiver_events(&events),
        vec![
            MediaFeedback::Nack {
                stream_id: 3,
                frame_id: 10,
                missing_packet_indices: vec![1, 4],
            },
            MediaFeedback::RequestKeyframe {
                stream_id: 3,
                after_frame_id: 10,
            },
        ]
    );
}


#[test]
fn nack_retransmits_from_live_cache_and_keyframe_is_surfaced() {
    let destination = loopback_any();
    let mut sender = UdpFrameSender::new(UdpSenderConfig::presentation(3, destination));
    let frame = SharedEncodedFrame::new(
        EncodedFrameMeta {
            frame_id: 10,
            timestamp_us: 1_000,
            keyframe: false,
        },
        Codec::H264,
        vec![7_u8; 2_000],
    );
    let mut wire = Vec::new();
    send_frame(&mut sender, 0, &frame, &mut wire).expect("frame sends");

    let nack = answer_feedback(
        &mut sender,
        1,
        &MediaFeedback::Nack {
            stream_id: 3,
            frame_id: 10,
            missing_packet_indices: vec![0],
        },
        1,
    );
    assert_eq!(nack.retransmitted_packets, 1);
    assert!(!nack.keyframe_requested);

    let keyframe = answer_feedback(
        &mut sender,
        2,
        &MediaFeedback::RequestKeyframe {
            stream_id: 3,
            after_frame_id: 10,
        },
        0,
    );
    assert!(keyframe.keyframe_requested);
    assert_eq!(keyframe.retransmitted_packets, 0);
}

#[test]
fn feedback_datagram_round_trips_over_loopback() {
    let feedback = MediaFeedback::RequestKeyframe {
        stream_id: 3,
        after_frame_id: 99,
    };

    let datagram = feedback.encode().expect("feedback sends");
    let received = FeedbackMessage::decode(&datagram).expect("feedback receives");
    assert_eq!(received, feedback);
}

#[test]
fn same_seed_produces_same_decisions() {
    let config = ImpairmentConfig {
        loss_basis_points: 300,
        reorder_basis_points: 1_000,
        jitter_max_us: 5_000,
        reorder_extra_delay_us: 20_000,
        seed: 42,
    };
    let mut first = ImpairmentEngine::new(config).unwrap();
    let mut second = ImpairmentEngine::new(config).unwrap();
    for packet in 0..1_000_u64 {
        assert_eq!(first.plan(packet * 100), second.plan(packet * 100));
    }
}

#[test]
fn one_hundred_percent_loss_drops_every_packet() {
    let mut engine = ImpairmentEngine::new(ImpairmentConfig {
        loss_basis_points: 10_000,
        ..ImpairmentConfig::default()
    })
    .unwrap();
    for packet in 0..100_u64 {
        assert_eq!(engine.plan(packet), ImpairmentDecision::Drop);
    }
    assert_eq!(engine.packets_dropped(), 100);
}

#[test]
fn zero_impairment_delivers_immediately() {
    let mut engine = ImpairmentEngine::new(ImpairmentConfig::default()).unwrap();
    assert_eq!(
        engine.plan(123_456),
        ImpairmentDecision::DeliverAt {
            due_us: 123_456,
            reordered: false,
        }
    );
}

#[test]
fn delay_never_exceeds_configured_bounds() {
    let config = ImpairmentConfig {
        reorder_basis_points: 10_000,
        jitter_max_us: 7_000,
        reorder_extra_delay_us: 11_000,
        seed: 9,
        ..ImpairmentConfig::default()
    };
    let mut engine = ImpairmentEngine::new(config).unwrap();
    for now_us in 0..1_000_u64 {
        let ImpairmentDecision::DeliverAt { due_us, reordered } = engine.plan(now_us) else {
            panic!("loss is disabled");
        };
        assert!(reordered);
        assert!(due_us >= now_us + 11_000);
        assert!(due_us <= now_us + 18_000);
    }
}

#[test]
fn invalid_percentages_are_rejected() {
    assert_eq!(
        ImpairmentConfig {
            loss_basis_points: 10_001,
            ..ImpairmentConfig::default()
        }
        .validate(),
        Err(ImpairmentConfigError::LossOutOfRange)
    );
    assert_eq!(
        ImpairmentConfig {
            reorder_basis_points: 10_001,
            ..ImpairmentConfig::default()
        }
        .validate(),
        Err(ImpairmentConfigError::ReorderOutOfRange)
    );
}

fn meta() -> PacketizeMeta {
    PacketizeMeta {
        protocol_major: 0,
        protocol_minor: 1,
        stream_id: 5,
        frame_id: 77,
        first_sequence: u32::MAX,
        timestamp_us: 1_000,
        keyframe: true,
    }
}

#[test]
fn packetization_preserves_frame_and_wraps_sequence() {
    let frame = vec![9_u8; MAX_PACKET_PAYLOAD * 2 + 13];
    let packets = packetize_frame(&frame, meta()).expect("frame should packetize");
    assert_eq!(packets.len(), 3);
    assert_eq!(packets[0].header.sequence, u32::MAX);
    assert_eq!(packets[1].header.sequence, 0);
    assert!(packets[0].header.flags.contains(MediaFlags::frame_start()));
    assert!(packets[2].header.flags.contains(MediaFlags::frame_end()));
}

#[test]
fn reassembly_accepts_reordered_packets() {
    let frame: Vec<u8> = (0_u8..=250).cycle().take(3_500).collect();
    let packets = packetize_frame(&frame, meta()).expect("frame should packetize");
    let mut assembler = FrameAssembler::from_first(&packets[0]);
    for packet in packets.iter().rev() {
        assembler.push(packet).expect("packet should be accepted");
    }
    let complete = assembler.finish().expect("all packets were supplied");
    assert_eq!(complete.data, frame);
    assert!(complete.keyframe);
}

#[test]
fn missing_indices_support_nack_generation() {
    let frame = vec![1_u8; MAX_PACKET_PAYLOAD * 3];
    let packets = packetize_frame(&frame, meta()).expect("frame should packetize");
    let mut assembler = FrameAssembler::from_first(&packets[0]);
    assembler
        .push(&packets[0])
        .expect("first packet should insert");
    assembler
        .push(&packets[2])
        .expect("third packet should insert");
    assert_eq!(assembler.missing_packet_indices(), vec![1]);
    assert!(!assembler.is_complete());
}

fn membership(group_last: u8, interface_last: u8) -> MulticastMembership {
    MulticastMembership::new(
        Ipv4Address::new(239, 10, 20, group_last),
        Ipv4Address::new(192, 168, 50, interface_last),
    )
    .expect("valid classroom multicast membership")
}

#[test]
fn membership_requires_multicast_group_and_non_multicast_interface() {
    assert_eq!(
        MulticastMembership::new(
            Ipv4Address::new(192, 168, 1, 10),
            Ipv4Address::new(192, 168, 1, 20),
        ),
        Err(MulticastContractError::InvalidGroup)
    );
    assert_eq!(
        MulticastMembership::new(
            Ipv4Address::new(239, 10, 20, 30),
            Ipv4Address::new(239, 10, 20, 31),
        ),
        Err(MulticastContractError::InvalidInterface)
    );
}

#[test]
fn duplicate_join_is_idempotent_and_does_not_consume_membership_budget() {
    let mut registry = MulticastMembershipRegistry::with_limit(1).expect("valid limit");
    let membership = membership(30, 10);

    assert_eq!(registry.join(membership), Ok(MembershipChange::Joined));
    assert_eq!(
        registry.join(membership),
        Ok(MembershipChange::AlreadyJoined)
    );
    assert_eq!(registry.len(), 1);
}

#[test]
fn membership_is_bounded_and_leave_is_explicit() {
    let mut registry = MulticastMembershipRegistry::with_limit(2).expect("valid limit");
    let first = membership(30, 10);
    let second = membership(31, 10);
    let third = membership(32, 10);

    assert_eq!(registry.join(first), Ok(MembershipChange::Joined));
    assert_eq!(registry.join(second), Ok(MembershipChange::Joined));
    assert_eq!(
        registry.join(third),
        Err(MulticastContractError::MembershipLimitReached)
    );
    assert!(registry.contains(first));
    assert_eq!(registry.leave(first), MembershipChange::Left);
    assert_eq!(registry.leave(first), MembershipChange::NotJoined);
    assert!(!registry.contains(first));
    assert_eq!(registry.len(), 1);
}

#[test]
fn cleanup_clears_bounded_membership_state() {
    let mut registry = MulticastMembershipRegistry::default();
    registry.join(membership(30, 10)).expect("first membership");
    registry.join(membership(31, 10)).expect("second membership");

    let cleanup = registry.take_all();
    assert_eq!(cleanup.len(), 2);
    assert!(cleanup.contains(&membership(30, 10)));
    assert!(cleanup.contains(&membership(31, 10)));
    assert!(registry.is_empty());
    assert!(registry.take_all().is_empty());
}

#[test]
fn capability_requires_join_receive_and_clean_leave_probe_evidence() {
    let available = evaluate_multicast_probe(MulticastProbeObservation {
        joined: true,
        probe_datagram_observed: true,
        left_cleanly: true,
    });
    assert_eq!(available, MulticastProbeOutcome::Available);
    assert!(available.can_advertise_udp_multicast());

    for (observation, failure) in [
        (
            MulticastProbeObservation {
                joined: false,
                probe_datagram_observed: false,
                left_cleanly: false,
            },
            MulticastProbeFailure::JoinFailed,
        ),
        (
            MulticastProbeObservation {
                joined: true,
                probe_datagram_observed: false,
                left_cleanly: true,
            },
            MulticastProbeFailure::ProbeDatagramNotObserved,
        ),
        (
            MulticastProbeObservation {
                joined: true,
                probe_datagram_observed: true,
                left_cleanly: false,
            },
            MulticastProbeFailure::LeaveFailed,
        ),
    ] {
        let outcome = evaluate_multicast_probe(observation);
        assert_eq!(outcome, MulticastProbeOutcome::Unavailable(failure));
        assert!(!outcome.can_advertise_udp_multicast());
    }
}

#[test]
fn invalid_or_unbounded_membership_limit_is_rejected() {
    assert!(matches!(
        MulticastMembershipRegistry::with_limit(0),
        Err(MulticastContractError::InvalidMaxMemberships)
    ));
    assert!(matches!(
        MulticastMembershipRegistry::with_limit(MAX_MULTICAST_MEMBERSHIPS + 1),
        Err(MulticastContractError::MaxMembershipsExceeded)
    ));
}

fn frame_packets(frame_id: u64) -> Vec<MediaPacket> {
    packetize_frame(
        &vec![7_u8; MAX_PACKET_PAYLOAD * 2 + 10],
        PacketizeMeta {
            protocol_major: 0,
            protocol_minor: 1,
            stream_id: 3,
            frame_id,
            first_sequence: 1,
            timestamp_us: frame_id * 1_000,
            keyframe: frame_id == 1,
        },
    )
    .expect("test frame should packetize")
}

#[test]
fn incomplete_frame_generates_nack_then_keyframe_recovery() {
    let mut window = ReceiverWindow::new(ReceiverPolicy::default());
    let frame = frame_packets(1);
    window.push(0, &frame[0]).expect("packet accepted");
    window.push(1_000, &frame[2]).expect("packet accepted");

    let nack = window.tick(25_000);
    assert!(matches!(
        &nack[0],
        ReceiverEvent::NeedNack {
            frame_id: 1,
            missing_packet_indices,
            ..
        } if missing_packet_indices == &vec![1]
    ));

    let expired = window.tick(100_000);
    assert!(expired.iter().any(|event| matches!(
        event,
        ReceiverEvent::NeedKeyframe {
            after_frame_id: 1,
            ..
        }
    )));
    assert_eq!(window.dropped_frames(), 1);
}

#[test]
fn completed_frame_is_delivered_despite_reordering() {
    let mut window = ReceiverWindow::new(ReceiverPolicy::default());
    let frame = frame_packets(2);
    let mut ready = Vec::new();
    for packet in frame.iter().rev() {
        ready.extend(window.push(5_000, packet).expect("packet accepted"));
    }
    assert!(ready.iter().any(|event| matches!(
        event,
        ReceiverEvent::FrameReady(frame) if frame.frame_id == 2
    )));
}

fn cached_packet(frame_id: u64, index: u16) -> MediaPacket {
    MediaPacket {
        header: MediaPacketHeader {
            protocol_major: 0,
            protocol_minor: 1,
            flags: MediaFlags::none(),
            stream_id: 1,
            frame_id,
            sequence: u32::from(index),
            packet_index: index,
            packet_count: 3,
            timestamp_us: 1,
            payload_len: 1,
        },
        payload: vec![index.to_le_bytes()[0]],
    }
}

#[test]
fn tracker_records_gap_and_clears_late_packet() {
    let mut tracker = SequenceTracker::default();
    assert_eq!(tracker.observe(10), SequenceObservation::First);
    assert_eq!(tracker.observe(12), SequenceObservation::Gap { missing: 1 });
    assert_eq!(tracker.missing_sequences(), vec![11]);
    assert_eq!(
        tracker.observe(11),
        SequenceObservation::ReorderedOrDuplicate
    );
    assert!(tracker.missing_sequences().is_empty());
}

#[test]
fn sequence_wrap_is_treated_as_in_order() {
    let mut tracker = SequenceTracker::default();
    let _ = tracker.observe(u32::MAX);
    assert_eq!(tracker.observe(0), SequenceObservation::InOrder);
}

#[test]
fn retransmit_cache_is_bounded_and_expires_old_media() {
    let mut cache = RetransmitCache::new(2, 100);
    cache.insert(0, cached_packet(1, 0));
    cache.insert(10, cached_packet(1, 1));
    cache.insert(20, cached_packet(1, 2));
    assert_eq!(cache.len(), 2);
    assert!(cache.find(1, 0).is_none());
    assert!(cache.find(1, 2).is_some());
    cache.prune(500);
    assert!(cache.is_empty());
}

fn frame(id: u64, bytes: usize) -> SharedEncodedFrame {
    SharedEncodedFrame::new(
        EncodedFrameMeta {
            frame_id: id,
            timestamp_us: id.saturating_mul(33_333),
            keyframe: id == 1,
        },
        Codec::H264,
        (0_u8..=250).cycle().take(bytes).collect(),
    )
}

#[test]
fn loopback_sender_receiver_delivers_encoded_frame() {
    let mut receiver = UdpFrameReceiver::new(ReceiverPolicy::default());
    let destination = loopback_any();
    let mut sender = UdpFrameSender::new(UdpSenderConfig::presentation(55, destination));
    let mut wire = Vec::new();
    let original = frame(1, 4_000);
    let report = send_frame(&mut sender, 10_000, &original, &mut wire).expect("frame sends");
    assert!(report.packets > 1);

    let mut completed = None;
    for index in 0..report.packets {
        let batch = receiver
            .receive_once(
                10_000 + u64::try_from(index).unwrap_or(0),
                &wire[index],
                loopback_any(),
            )
            .expect("datagram receives");
        for event in batch.events {
            if let ReceiverEvent::FrameReady(frame) = event {
                completed = Some(frame);
            }
        }
    }

    let completed = completed.expect("frame must complete");
    assert_eq!(completed.frame_id, original.meta.frame_id);
    assert_eq!(completed.timestamp_us, original.meta.timestamp_us);
    assert_eq!(completed.data.as_slice(), original.data.as_ref());
    assert_eq!(sender.stats().frames_sent, 1);
    assert_eq!(receiver.stats().frames_completed, 1);
}

#[test]
fn retransmit_cache_is_used_only_while_media_is_fresh() {
    let destination = loopback_any();
    let mut config = UdpSenderConfig::presentation(8, destination);
    config.retransmit_max_age_us = 100;
    let mut sender = UdpFrameSender::new(config);
    let report = send_frame(&mut sender, 0, &frame(4, 2_000), &mut Vec::new()).expect("frame sends");
    assert!(report.packets >= 2);

    let resent = retransmit_missing(&mut sender, 50, 4, &[0]);
    assert_eq!(resent, 1);

    let expired = retransmit_missing(&mut sender, 1_000, 4, &[0]);
    assert_eq!(expired, 0);
    assert_eq!(sender.stats().retransmit_cache_misses, 1);
}

fn packet() -> MediaPacket {
    MediaPacket {
        header: MediaPacketHeader {
            protocol_major: 0,
            protocol_minor: 1,
            flags: MediaFlags::frame_start() | MediaFlags::frame_end(),
            stream_id: 9,
            frame_id: 4,
            sequence: 8,
            packet_index: 0,
            packet_count: 1,
            timestamp_us: 55,
            payload_len: 4,
        },
        payload: vec![1, 2, 3, 4],
    }
}

#[test]
fn datagram_round_trip_preserves_header_and_payload() {
    let original = packet();
    let encoded = encode_datagram(&original).expect("packet should encode");
    assert!(encoded.len() <= MAX_MEDIA_DATAGRAM);
    let decoded = decode_datagram(&encoded).expect("packet should decode");
    assert_eq!(decoded, original);
}

#[test]
fn payload_length_mismatch_is_rejected() {
    let mut invalid = packet();
    invalid.header.payload_len = 3;
    assert!(matches!(
        encode_datagram(&invalid),
        Err(DatagramError::PayloadLengthMismatch)
    ));
}

#[test]
fn classroom_multicast_range_is_detected() {
    assert!(is_ipv4_multicast(IpAddress::V4(Ipv4Address::new(
        239, 10, 20, 30
    ))));
    assert!(!is_ipv4_multicast(IpAddress::V4(Ipv4Address::new(
        192, 168, 1, 20
    ))));
}

#[test]
fn datagram_errors_have_their_inputs() {
    let encoded = encode_datagram(&packet()).expect("packet should encode");
    assert_eq!(encoded.len(), 44);
    assert!(matches!(
        decode_datagram(&encoded[..43]),
        Err(DatagramError::PayloadLengthMismatch)
    ));
    assert!(matches!(
        decode_datagram(&encoded[..10]),
        Err(DatagramError::Header(_))
    ));
    assert!(!is_ipv4_multicast(IpAddress::V6 {
        segments: [0xff02, 0, 0, 0, 0, 0, 0, 1]
    }));
}

#[test]
fn packetization_errors_have_their_inputs() {
    assert_eq!(
        packetize_frame(&[], meta()),
        Err(PacketizeError::EmptyFrame)
    );
    let huge = vec![0_u8; MAX_PACKET_PAYLOAD * 65_535 + 1];
    assert_eq!(
        packetize_frame(&huge, meta()),
        Err(PacketizeError::TooManyPackets)
    );
}

#[test]
fn assembler_tells_strangers_apart() {
    let packets = packetize_frame(&[1_u8; 3_000], meta()).expect("frame should packetize");
    let mut assembler = FrameAssembler::from_first(&packets[0]);
    let mut other = packets[0].duplicate();
    other.header.frame_id = 1;
    assert_eq!(assembler.push(&other), Err(AssembleError::WrongFrame));
    let mut other = packets[0].duplicate();
    other.header.stream_id = 1;
    assert_eq!(assembler.push(&other), Err(AssembleError::WrongStream));
    let mut other = packets[0].duplicate();
    other.header.packet_count = 9;
    assert_eq!(
        assembler.push(&other),
        Err(AssembleError::PacketCountChanged)
    );
    let mut other = packets[0].duplicate();
    other.header.payload_len = 9;
    assert_eq!(
        assembler.push(&other),
        Err(AssembleError::PayloadLengthMismatch)
    );
    assert_eq!(assembler.push(&packets[0]), Ok(()));
    assert_eq!(assembler.push(&packets[0]), Ok(()));
    let mut other = packets[0].duplicate();
    other.payload[0] = 9;
    assert_eq!(
        assembler.push(&other),
        Err(AssembleError::DuplicatePacketConflict)
    );
    assert!(assembler.finish().is_none());
}

#[test]
fn interrupted_frame_is_not_counted_as_sent() {
    let mut sender = UdpFrameSender::new(UdpSenderConfig::presentation(8, loopback_any()));
    let plan = sender.plan_frame(&frame(1, 4_000)).expect("frame plans");
    assert_eq!(plan.len(), 4);
    assert_eq!(sender.finish_frame(0, plan, 2), None);
    assert_eq!(sender.stats().frames_sent, 0);
    assert_eq!(retransmit_missing(&mut sender, 1, 1, &[0, 1, 2]), 2);
    assert_eq!(sender.stats().retransmit_cache_misses, 1);
}

#[test]
fn other_codecs_are_not_sent() {
    let sender = UdpFrameSender::new(UdpSenderConfig::presentation(8, loopback_any()));
    let mut other = frame(1, 10);
    other.codec = Codec::Hevc;
    assert!(matches!(
        sender.plan_frame(&other),
        Err(UdpSendError::UnsupportedCodec)
    ));
    assert!(matches!(
        sender.plan_frame(&frame(1, 0)),
        Err(UdpSendError::Packetize(PacketizeError::EmptyFrame))
    ));
}

#[test]
fn malformed_datagrams_are_not_counted() {
    let mut receiver = UdpFrameReceiver::new(ReceiverPolicy::default());
    assert!(matches!(
        receiver.receive_once(0, &[1, 2, 3], loopback_any()),
        Err(DatagramError::Header(_))
    ));
    assert_eq!(receiver.stats().datagrams_received, 0);
}

#[test]
fn impairment_draws_follow_the_seed() {
    let mut engine = ImpairmentEngine::new(ImpairmentConfig {
        jitter_max_us: 9,
        seed: 1,
        ..ImpairmentConfig::default()
    })
    .expect("valid");
    let mut state = 1_u64;
    let mut draw = || {
        state ^= state << 13;
        state ^= state >> 7;
        state ^= state << 17;
        state
    };
    for _ in 0..20 {
        let decision = engine.plan(0);
        let _ = draw();
        let jitter = draw() % 10;
        let _ = draw();
        assert_eq!(
            decision,
            ImpairmentDecision::DeliverAt {
                due_us: jitter,
                reordered: false
            }
        );
    }
    assert_eq!(engine.packets_seen(), 20);
    assert_eq!(engine.packets_reordered(), 0);
}

#[test]
fn repeated_and_late_packets_are_counted() {
    let mut tracker = SequenceTracker::default();
    for sequence in [10, 12, 11, 12] {
        let _ = tracker.observe(sequence);
    }
    assert_eq!(tracker.received(), 4);
    assert_eq!(tracker.reordered_or_duplicate(), 2);
}

#[test]
fn refused_packets_are_reported_as_invalid_data() {
    let mut receiver = UdpFrameReceiver::new(ReceiverPolicy::default());
    let mut packets = frame_packets(5);
    let first = encode_datagram(&packets[0]).expect("datagram");
    receiver
        .receive_once(0, &first, loopback_any())
        .expect("first packet");
    packets[1].header.stream_id = 4;
    let second = encode_datagram(&packets[1]).expect("datagram");
    let Err(DatagramError::Io(failure)) = receiver.receive_once(1, &second, loopback_any()) else {
        panic!("the packet is of another stream");
    };
    assert_eq!(failure.kind, IoErrorKind::InvalidData);
    assert_eq!(failure.message, "frame assembly failed: WrongStream");
    assert_eq!(receiver.stats().datagrams_received, 2);
    assert_eq!(receiver.stats().frames_completed, 0);
}

#[test]
fn addresses_keep_their_flow_and_scope() {
    let link_local = SocketAddress::V6 {
        segments: [0xfe80, 0, 0, 0, 0, 0, 0, 1],
        port: 40_001,
        flow_info: 7,
        scope_id: 3,
    };
    let sender = UdpFrameSender::new(UdpSenderConfig::presentation(8, link_local));
    assert_eq!(sender.destination(), link_local);
    let mut receiver = UdpFrameReceiver::new(ReceiverPolicy::default());
    let datagram = encode_datagram(&frame_packets(5)[0]).expect("datagram");
    let batch = receiver
        .receive_once(0, &datagram, link_local)
        .expect("packet");
    assert_eq!(batch.source, link_local);
    assert_eq!(
        SocketAddress::new(
            IpAddress::V6 {
                segments: [0xfe80, 0, 0, 0, 0, 0, 0, 1]
            },
            40_001
        ),
        SocketAddress::V6 {
            segments: [0xfe80, 0, 0, 0, 0, 0, 0, 1],
            port: 40_001,
            flow_info: 0,
            scope_id: 0,
        }
    );
}

#[test]
fn memberships_are_handed_out_by_group_then_interface() {
    let mut registry = MulticastMembershipRegistry::with_limit(4).expect("limit");
    for (group, interface) in [(31, 9), (30, 11), (31, 7), (30, 10)] {
        registry
            .join(membership(group, interface))
            .expect("membership");
    }
    assert_eq!(
        registry.take_all(),
        vec![
            membership(30, 10),
            membership(30, 11),
            membership(31, 7),
            membership(31, 9),
        ]
    );
}

#[test]
fn frames_are_delivered_in_order_through_pushes_and_ticks() {
    let mut window = ReceiverWindow::new(ReceiverPolicy::default());
    let mut delivered = Vec::new();
    let mut note = |events: Vec<ReceiverEvent>| {
        for event in events {
            if let ReceiverEvent::FrameReady(frame) = event {
                delivered.push(frame.frame_id);
            }
        }
    };
    let frames: Vec<Vec<MediaPacket>> = (1..=5).map(frame_packets).collect();
    for (now_us, frame, packet) in [
        (0, 1, 0),
        (1, 0, 0),
        (2, 1, 2),
        (3, 1, 1),
        (4, 0, 1),
        (5, 0, 2),
        (6, 4, 0),
        (7, 3, 0),
        (8, 3, 1),
        (9, 3, 2),
        (10, 4, 2),
        (11, 4, 1),
        (12, 1, 0),
    ] {
        note(window.push(now_us, &frames[frame][packet]).expect("packet"));
        note(window.tick(now_us));
    }
    assert_eq!(delivered, vec![2, 4, 5]);
}

#[test]
fn reassembly_starts_from_any_packet_and_waits_for_all() {
    let packets = frame_packets(6);
    for start in 0..packets.len() {
        let mut assembler = FrameAssembler::from_first(&packets[start]);
        for index in [2, 0, 2] {
            assembler.push(&packets[index]).expect("packet");
        }
        assert_eq!(assembler.missing_packet_indices(), vec![1]);
        assert!(assembler.finish().is_none());

        let mut assembler = FrameAssembler::from_first(&packets[start]);
        for index in [2, 0, 2, 1] {
            assembler.push(&packets[index]).expect("packet");
        }
        let frame = assembler.finish().expect("every packet is there");
        assert_eq!(frame.frame_id, 6);
        assert_eq!(frame.data, vec![7_u8; MAX_PACKET_PAYLOAD * 2 + 10]);
    }
}

#[test]
fn pruning_keeps_exactly_the_young_packets() {
    let mut cache = RetransmitCache::new(8, 100);
    for (now_us, index) in [(0, 0), (40, 1), (40, 2)] {
        cache.insert(now_us, cached_packet(1, index));
    }
    cache.prune(140);
    assert_eq!(cache.len(), 2);
    assert!(cache.find(1, 0).is_none());
    assert!(cache.find(1, 1).is_some());
    assert!(cache.find(1, 2).is_some());
    cache.prune(141);
    assert!(cache.is_empty());
}

#[test]
fn late_deliveries_stay_at_the_largest_time() {
    let mut engine = ImpairmentEngine::new(ImpairmentConfig {
        reorder_basis_points: 10_000,
        jitter_max_us: 7_000,
        reorder_extra_delay_us: 11_000,
        seed: 9,
        ..ImpairmentConfig::default()
    })
    .expect("valid");
    assert_eq!(
        engine.plan(u64::MAX - 5),
        ImpairmentDecision::DeliverAt {
            due_us: u64::MAX,
            reordered: true,
        }
    );
}

#[test]
fn every_packet_of_a_fresh_frame_can_be_repeated() {
    let mut sender = UdpFrameSender::new(UdpSenderConfig::presentation(8, loopback_any()));
    let report =
        send_frame(&mut sender, 0, &frame(4, 5_000), &mut Vec::new()).expect("frame sends");
    let indices: Vec<u16> = (0..u16::try_from(report.packets).unwrap()).rev().collect();
    let found = sender.plan_retransmit(250_000, 4, &indices);
    for (packet, index) in found.iter().zip(&indices) {
        assert_eq!(packet.as_ref().expect("kept").header.packet_index, *index);
    }
    assert!(sender
        .plan_retransmit(250_001, 4, &indices)
        .iter()
        .all(Option::is_none));
}
