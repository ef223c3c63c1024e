use std::sync::Arc;

use classmesh::measure::Measure;
use classmesh::video::distributor::{
    DistributorError, FrameDistributor, SharedEncodedFrame, SinkId, SinkMode,
};
use classmesh::video::rendition::{
    plan_renditions, ReceiverDemand, RenditionPlannerConfig, RenditionProfile, RenditionTier,
};
use classmesh::video::{
    Codec, EncodedFrameMeta, EncoderClass, EncoderProbeResult, FramePacer, KeyframeCoordinator,
};

fn measure(value: f32) -> Measure {
    Measure::from_bits(value.to_bits())
}

fn frame(id: u64) -> SharedEncodedFrame {
    SharedEncodedFrame::new(
        EncodedFrameMeta {
            frame_id: id,
            timestamp_us: id * 1_000,
            keyframe: id == 1,
        },
        Codec::H264,
        vec![u8::try_from(id).unwrap_or(0); 16],
    )
}

#[test]
fn one_allocation_is_shared_across_many_sinks() {
    let mut distributor = FrameDistributor::default();
    distributor
        .add_sink(SinkId(1), SinkMode::Multicast, 2)
        .expect("sink 1");
    distributor
        .add_sink(SinkId(2), SinkMode::Unicast, 2)
        .expect("sink 2");
    let original = frame(1);
    let pointer = Arc::as_ptr(&original.data);
    distributor.publish(original);
    let a = distributor
        .pop_latest(SinkId(1))
        .expect("sink 1 gets frame");
    let b = distributor
        .pop_latest(SinkId(2))
        .expect("sink 2 gets frame");
    assert_eq!(Arc::as_ptr(&a.data), pointer);
    assert_eq!(Arc::as_ptr(&b.data), pointer);
}

#[test]
fn classroom_scale_shares_one_encoded_allocation() {
    let mut distributor = FrameDistributor::default();
    let original = frame(1);
    let pointer = Arc::as_ptr(&original.data);

    for id in 1..=20 {
        distributor
            .add_sink(SinkId(id), SinkMode::Unicast, 2)
            .expect("classroom sink should fit default bound");
    }
    distributor.publish(original);

    for id in 1..=20 {
        let delivered = distributor
            .pop_latest(SinkId(id))
            .expect("each sink gets the shared frame");
        assert_eq!(Arc::as_ptr(&delivered.data), pointer);
    }
    assert_eq!(distributor.sink_count(), 20);
}

#[test]
fn distributor_rejects_unbounded_membership_and_queue_depth() {
    assert!(matches!(
        FrameDistributor::with_limits(0, 2),
        Err(DistributorError::InvalidMaxSinks)
    ));
    assert!(matches!(
        FrameDistributor::with_limits(2, 0),
        Err(DistributorError::InvalidMaxQueueDepth)
    ));

    let mut distributor = FrameDistributor::with_limits(2, 3).expect("valid limits");
    assert_eq!(
        distributor.add_sink(SinkId(1), SinkMode::Unicast, 0),
        Err(DistributorError::InvalidQueueCapacity)
    );
    assert_eq!(
        distributor.add_sink(SinkId(1), SinkMode::Unicast, 4),
        Err(DistributorError::QueueCapacityExceeded)
    );
    distributor
        .add_sink(SinkId(1), SinkMode::Unicast, 2)
        .expect("first sink");
    assert_eq!(
        distributor.add_sink(SinkId(1), SinkMode::Multicast, 2),
        Err(DistributorError::DuplicateSink)
    );
    distributor
        .add_sink(SinkId(2), SinkMode::Multicast, 3)
        .expect("second sink");
    assert_eq!(
        distributor.add_sink(SinkId(3), SinkMode::Unicast, 1),
        Err(DistributorError::SinkLimitReached)
    );
    assert_eq!(distributor.sink_count(), 2);
}

#[test]
fn slow_sink_drops_old_frames_without_affecting_other_sink() {
    let mut distributor = FrameDistributor::default();
    distributor
        .add_sink(SinkId(1), SinkMode::Multicast, 2)
        .expect("sink 1");
    distributor
        .add_sink(SinkId(2), SinkMode::Unicast, 2)
        .expect("sink 2");

    distributor.publish(frame(1));
    let _ = distributor.pop_latest(SinkId(1));
    distributor.publish(frame(2));
    let _ = distributor.pop_latest(SinkId(1));
    distributor.publish(frame(3));
    let _ = distributor.pop_latest(SinkId(1));

    let latest_slow = distributor
        .pop_latest(SinkId(2))
        .expect("slow sink has latest");
    assert_eq!(latest_slow.meta.frame_id, 3);
    assert!(distributor.stats(SinkId(2)).expect("stats").dropped >= 2);
    assert_eq!(distributor.stats(SinkId(1)).expect("stats").dropped, 0);
}

fn probe() -> EncoderProbeResult {
    EncoderProbeResult {
        backend: "test".into(),
        codec: Codec::H264,
        advertised_hardware: true,
        gpu_native_input: true,
        low_latency_accepted: true,
        sustained_fps: measure(30.5),
        p50_encode_ms: measure(4.0),
        p95_encode_ms: measure(8.0),
        reset_ok: true,
        dynamic_bitrate_ok: true,
        keyframe_request_ok: true,
    }
}

#[test]
fn encoder_classification_requires_measured_performance() {
    assert_eq!(probe().classify(), EncoderClass::Presentation1080p30);
    let mut slow = probe();
    slow.sustained_fps = measure(12.0);
    assert_eq!(slow.classify(), EncoderClass::Unsupported);
}

#[test]
fn many_keyframe_requests_are_coalesced() {
    let mut coordinator = KeyframeCoordinator::new(500_000);
    coordinator.request();
    coordinator.request();
    coordinator.request();
    assert_eq!(coordinator.pending_requests(), 3);
    assert!(coordinator.poll(1_000_000));
    assert_eq!(coordinator.pending_requests(), 0);
    coordinator.request();
    assert!(!coordinator.poll(1_200_000));
    assert!(coordinator.poll(1_500_000));
}

#[test]
fn pacer_never_bursts_missed_frames() {
    let mut pacer = FramePacer::new(30);
    assert!(pacer.should_emit(0));
    assert!(!pacer.should_emit(1_000));
    assert!(pacer.should_emit(50_000));
    assert!(!pacer.should_emit(50_001));
}

#[test]
fn one_weak_receiver_does_not_force_second_encoder() {
    let plan = plan_renditions(
        RenditionPlannerConfig::default(),
        &[ReceiverDemand {
            tier: RenditionTier::Low,
        }],
    );
    assert_eq!(plan.profiles, vec![RenditionProfile::high()]);
}

#[test]
fn multiple_weak_receivers_can_justify_low_rendition() {
    let demands = vec![
        ReceiverDemand {
            tier: RenditionTier::Low,
        };
        5
    ];
    let plan = plan_renditions(RenditionPlannerConfig::default(), &demands);
    assert_eq!(plan.profiles.len(), 2);
    assert!(plan.profiles.contains(&RenditionProfile::low()));
}

#[test]
fn rendition_count_never_exceeds_gpu_budget() {
    let demands = [
        ReceiverDemand {
            tier: RenditionTier::Low,
        },
        ReceiverDemand {
            tier: RenditionTier::Low,
        },
        ReceiverDemand {
            tier: RenditionTier::Low,
        },
        ReceiverDemand {
            tier: RenditionTier::Medium,
        },
        ReceiverDemand {
            tier: RenditionTier::Medium,
        },
        ReceiverDemand {
            tier: RenditionTier::Medium,
        },
    ];
    let plan = plan_renditions(
        RenditionPlannerConfig {
            max_renditions: 2,
            min_receivers_for_extra_rendition: 3,
        },
        &demands,
    );
    assert_eq!(plan.profiles.len(), 2);
}

#[test]
fn removed_sinks_get_nothing() {
    let mut distributor = FrameDistributor::default();
    distributor
        .add_sink(SinkId(1), SinkMode::Unicast, 2)
        .expect("sink");
    assert!(distributor.remove_sink(SinkId(1)));
    assert!(!distributor.remove_sink(SinkId(1)));
    distributor.publish(frame(1));
    assert!(distributor.pop_latest(SinkId(1)).is_none());
    assert!(distributor.stats(SinkId(1)).is_none());
}

#[test]
fn encoder_classes_follow_the_measurements() {
    let mut probe = probe();
    probe.p95_encode_ms = measure(f32::NAN);
    assert_eq!(probe.classify(), EncoderClass::Unsupported);
}

#[test]
fn the_greatest_identifier_is_handed_out_whatever_came_last() {
    let mut distributor = FrameDistributor::default();
    distributor
        .add_sink(SinkId(1), SinkMode::Unicast, 4)
        .expect("sink");
    for id in [4, 9, 2] {
        distributor.publish(frame(id));
    }
    let latest = distributor.pop_latest(SinkId(1)).expect("frame");
    assert_eq!(latest.meta.frame_id, 9);
    assert_eq!(distributor.stats(SinkId(1)).expect("stats").dropped, 2);
    assert!(distributor.pop_latest(SinkId(1)).is_none());
}
