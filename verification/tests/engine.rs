use classmesh::engine::adaptation::{
    profile_for, AdaptationPolicy, AdaptiveController, HysteresisConfig, QualityTier,
    StreamDecision, StreamProfile, StreamProfileError,
};
use classmesh::engine::cohort::{CohortKey, CohortKind, CohortRouter, ReceiverId};
use classmesh::engine::keyframe::KeyframeRequestCoordinator;
use classmesh::engine::metrics::{MediaCounters, PipelineMetrics, RollingLatency};
use classmesh::engine::presence::{HeartbeatPolicy, PresenceState, PresenceTracker};
use classmesh::engine::queue::LatestQueue;
use classmesh::engine::recovery::{
    RecoveryController, RecoveryPolicy, RecoveryReason, RecoveryState,
};
use classmesh::engine::{ControlState, MediaState, MediaTransport, NetworkMetrics, StreamKind};
use classmesh::measure::Measure;

fn measure(value: f32) -> Measure {
    Measure::from_bits(value.to_bits())
}

fn healthy(wireless: bool, multicast_viable: bool) -> NetworkMetrics {
    NetworkMetrics {
        rtt_ms: measure(8.0),
        packet_loss: measure(0.001),
        jitter_ms: measure(1.0),
        decode_fps: measure(30.0),
        queue_delay_ms: measure(4.0),
        estimated_mbps: measure(100.0),
        multicast_viable,
        wireless,
    }
}

#[test]
fn wired_presentation_prefers_multicast_when_probe_succeeds() {
    let decision =
        AdaptationPolicy::default().decide(StreamKind::TeacherPresentation, healthy(false, true));
    assert_eq!(decision.transport, MediaTransport::UdpMulticast);
    assert_eq!(decision.tier, QualityTier::High);
}

#[test]
fn wireless_presentation_avoids_ip_multicast() {
    let decision =
        AdaptationPolicy::default().decide(StreamKind::TeacherPresentation, healthy(true, true));
    assert_eq!(decision.transport, MediaTransport::QuicDatagram);
}

#[test]
fn severe_loss_degrades_without_marking_device_offline() {
    let mut metrics = healthy(false, true);
    metrics.packet_loss = measure(0.12);
    let decision = AdaptationPolicy::default().decide(StreamKind::Interactive, metrics);
    assert_eq!(decision.tier, QualityTier::Emergency);
    assert_eq!(decision.transport, MediaTransport::ReliableFallback);
    assert_eq!(
        decision.profile,
        profile_for(StreamKind::Interactive, QualityTier::Emergency)
    );
}

#[test]
fn thresholds_separate_the_tiers() {
    let policy = AdaptationPolicy::default();
    let mut metrics = healthy(false, true);
    metrics.packet_loss = measure(0.08);
    assert_eq!(
        policy.decide(StreamKind::TeacherPresentation, metrics).tier,
        QualityTier::Emergency
    );
    metrics.packet_loss = measure(0.05);
    assert_eq!(
        policy.decide(StreamKind::TeacherPresentation, metrics).tier,
        QualityTier::Low
    );
    metrics.packet_loss = measure(0.02);
    assert_eq!(
        policy.decide(StreamKind::TeacherPresentation, metrics).tier,
        QualityTier::Medium
    );
    metrics.packet_loss = measure(f32::NAN);
    assert_eq!(
        policy.decide(StreamKind::TeacherPresentation, metrics).tier,
        QualityTier::Emergency
    );
}

#[test]
fn one_bad_sample_does_not_immediately_degrade() {
    let mut controller = AdaptiveController::new(
        StreamKind::TeacherPresentation,
        AdaptationPolicy::default(),
        HysteresisConfig::default(),
    );
    assert_eq!(
        controller.observe(healthy(false, true)).tier,
        QualityTier::High
    );
    let mut bad = healthy(false, true);
    bad.packet_loss = measure(0.12);
    assert_eq!(controller.observe(bad).tier, QualityTier::High);
    assert_eq!(controller.observe(bad).tier, QualityTier::Emergency);
}

#[test]
fn recovery_requires_more_good_samples_than_degradation() {
    let mut controller = AdaptiveController::new(
        StreamKind::Interactive,
        AdaptationPolicy::default(),
        HysteresisConfig {
            degrade_samples: 1,
            recover_samples: 3,
            transport_samples: 1,
        },
    );
    let mut bad = healthy(false, false);
    bad.packet_loss = measure(0.12);
    assert_eq!(controller.observe(bad).tier, QualityTier::Emergency);
    assert_eq!(
        controller.observe(healthy(false, false)).tier,
        QualityTier::Emergency
    );
    assert_eq!(
        controller.observe(healthy(false, false)).tier,
        QualityTier::Emergency
    );
    assert_eq!(
        controller.observe(healthy(false, false)).tier,
        QualityTier::High
    );
}

#[test]
fn interactive_profile_ladder_preserves_motion_before_resolution() {
    let medium = profile_for(StreamKind::Interactive, QualityTier::Medium);
    let low = profile_for(StreamKind::Interactive, QualityTier::Low);
    let emergency = profile_for(StreamKind::Interactive, QualityTier::Emergency);

    assert_eq!(medium.fps, 30);
    assert_eq!(low.fps, 30);
    assert_eq!(low.width, 960);
    assert_eq!(low.height, 540);
    assert_eq!(emergency.fps, 20);
    assert_eq!(emergency.width, 640);
    assert_eq!(emergency.height, 360);
}

#[test]
fn presentation_profile_can_trade_frame_rate_before_interactive() {
    let presentation_low = profile_for(StreamKind::TeacherPresentation, QualityTier::Low);
    let interactive_low = profile_for(StreamKind::Interactive, QualityTier::Low);

    assert_eq!(presentation_low.fps, 20);
    assert_eq!(interactive_low.fps, 30);
    assert!(interactive_low.width < presentation_low.width);
    assert_eq!(interactive_low.bitrate_kbps, presentation_low.bitrate_kbps);
}

#[test]
fn transport_change_waits_for_repeated_topology_observations() {
    let mut controller = AdaptiveController::new(
        StreamKind::TeacherPresentation,
        AdaptationPolicy::default(),
        HysteresisConfig {
            degrade_samples: 1,
            recover_samples: 1,
            transport_samples: 2,
        },
    );
    assert_eq!(
        controller.observe(healthy(false, true)).transport,
        MediaTransport::UdpMulticast
    );
    assert_eq!(
        controller.observe(healthy(true, false)).transport,
        MediaTransport::UdpMulticast
    );
    assert_eq!(
        controller.observe(healthy(true, false)).transport,
        MediaTransport::QuicDatagram
    );
}

#[test]
fn profiles_need_even_sides() {
    let even = StreamProfile::new(640, 360, 20, 500);
    assert_eq!(even.validate(), Ok(even));
    for (width, height) in [(0, 360), (640, 0), (641, 360), (640, 361)] {
        assert_eq!(
            StreamProfile::new(width, height, 20, 500).validate(),
            Err(StreamProfileError::InvalidGeometry)
        );
    }
}

fn decision(transport: MediaTransport, tier: QualityTier) -> StreamDecision {
    StreamDecision {
        transport,
        tier,
        profile: StreamProfile::new(1280, 720, 30, 2_500),
    }
}

#[test]
fn weak_receiver_moves_without_downgrading_multicast_peers() {
    let mut router = CohortRouter::default();
    let high_multicast = CohortKey {
        kind: CohortKind::WiredMulticast,
        tier: QualityTier::High,
    };

    router.update(
        ReceiverId(1),
        decision(MediaTransport::UdpMulticast, QualityTier::High),
    );
    router.update(
        ReceiverId(2),
        decision(MediaTransport::UdpMulticast, QualityTier::High),
    );
    router.update(
        ReceiverId(3),
        decision(MediaTransport::UdpMulticast, QualityTier::High),
    );
    assert_eq!(router.members(high_multicast).len(), 3);

    router.update(
        ReceiverId(3),
        decision(MediaTransport::ReliableFallback, QualityTier::Emergency),
    );
    assert_eq!(
        router.members(high_multicast),
        vec![ReceiverId(1), ReceiverId(2)]
    );
    assert_eq!(
        router.route(ReceiverId(3)),
        Some(CohortKey {
            kind: CohortKind::ReliableFallback,
            tier: QualityTier::Emergency
        })
    );
}

#[test]
fn wireless_and_wired_receivers_can_coexist() {
    let mut router = CohortRouter::default();
    router.update(
        ReceiverId(10),
        decision(MediaTransport::UdpMulticast, QualityTier::High),
    );
    router.update(
        ReceiverId(11),
        decision(MediaTransport::QuicDatagram, QualityTier::Medium),
    );
    let counts = router.cohort_counts();
    let mut receivers = 0;
    for index in 0..counts.len() {
        receivers += *counts.value_at(index);
    }
    assert_eq!(receivers, 2);
    assert_eq!(counts.len(), 2);
}

#[test]
fn removed_receivers_have_no_route() {
    let mut router = CohortRouter::default();
    router.update(
        ReceiverId(10),
        decision(MediaTransport::UdpUnicast, QualityTier::Low),
    );
    assert_eq!(router.len(), 1);
    assert!(router.remove(ReceiverId(10)));
    assert!(!router.remove(ReceiverId(10)));
    assert_eq!(router.route(ReceiverId(10)), None);
    assert!(router.is_empty());
    assert_eq!(router.cohort_counts().len(), 0);
}

#[test]
fn first_request_is_immediate_and_duplicates_are_coalesced() {
    let mut coordinator = KeyframeRequestCoordinator::new(250_000);
    assert!(coordinator.request(1_000_000));
    assert!(!coordinator.request(1_050_000));
    assert!(!coordinator.request(1_249_999));
    assert_eq!(coordinator.granted_requests(), 1);
    assert_eq!(coordinator.suppressed_requests(), 2);
}

#[test]
fn boundary_and_later_requests_are_granted() {
    let mut coordinator = KeyframeRequestCoordinator::new(250_000);
    assert!(coordinator.request(10));
    assert!(coordinator.request(250_010));
    assert!(coordinator.request(700_000));
    assert_eq!(coordinator.granted_requests(), 3);
    assert_eq!(coordinator.suppressed_requests(), 0);
}

#[test]
fn backwards_clock_input_does_not_bypass_throttle() {
    let mut coordinator = KeyframeRequestCoordinator::new(100);
    assert!(coordinator.request(1_000));
    assert!(!coordinator.request(900));
    assert_eq!(coordinator.suppressed_requests(), 1);
}

#[test]
fn network_metrics_reject_invalid_loss() {
    let metrics = NetworkMetrics {
        rtt_ms: measure(10.0),
        packet_loss: measure(1.2),
        jitter_ms: measure(1.0),
        decode_fps: measure(30.0),
        queue_delay_ms: measure(0.0),
        estimated_mbps: measure(100.0),
        multicast_viable: true,
        wireless: false,
    };
    assert!(!metrics.is_valid());
}

#[test]
fn network_metrics_reject_what_is_no_measurement() {
    let good = healthy(false, false);
    assert!(good.is_valid());
    for bad in [f32::NAN, f32::NEG_INFINITY, -1.0] {
        let mut metrics = good;
        metrics.rtt_ms = measure(bad);
        assert!(!metrics.is_valid());
        let mut metrics = good;
        metrics.estimated_mbps = measure(bad);
        assert!(!metrics.is_valid());
    }
    let mut metrics = good;
    metrics.packet_loss = measure(-0.0);
    assert!(metrics.is_valid());
    metrics.packet_loss = measure(1.0);
    assert!(metrics.is_valid());
}

#[test]
fn measurements_compare_as_numbers() {
    let values = [
        f32::NEG_INFINITY,
        -2.5,
        -1.0,
        -0.0,
        0.0,
        f32::MIN_POSITIVE,
        1.0,
        2.5,
        f32::INFINITY,
        f32::NAN,
    ];
    for a in values {
        assert_eq!(measure(a).is_nan(), a.is_nan());
        assert_eq!(measure(a).is_finite(), a.is_finite());
        for b in values {
            assert_eq!(measure(a).at_least(measure(b)), a >= b);
            assert_eq!(measure(a).exceeds(measure(b)), a > b);
        }
    }
}

#[test]
fn rolling_latency_is_bounded_and_rejects_invalid_values() {
    let mut latency = RollingLatency::new(3);
    assert!(!latency.record(measure(f32::NAN)));
    assert!(!latency.record(measure(-1.0)));
    for value in [1.0, 2.0, 3.0, 100.0] {
        assert!(latency.record(measure(value)));
    }
    let summary = latency.summary().expect("window has samples");
    assert_eq!(summary.samples, 3);
    assert_eq!(summary.max_ms, measure(100.0));
    assert_eq!(summary.p50_ms, measure(3.0));
}

#[test]
fn counters_saturate_instead_of_wrapping() {
    let mut counters = MediaCounters {
        captured_frames: u64::MAX,
        ..MediaCounters::default()
    };
    counters.saturating_add_assign(MediaCounters {
        captured_frames: 1,
        ..MediaCounters::default()
    });
    assert_eq!(counters.captured_frames, u64::MAX);
}

#[test]
fn pipeline_windows_are_kept_apart() {
    let mut metrics = PipelineMetrics::new(4);
    assert!(metrics.record_capture_ms(measure(2.0)));
    assert!(metrics.record_encode_ms(measure(4.0)));
    assert!(!metrics.record_queue_ms(measure(f32::INFINITY)));
    metrics.add_counters(MediaCounters {
        captured_frames: 3,
        ..MediaCounters::default()
    });
    let snapshot = metrics.snapshot();
    assert_eq!(snapshot.counters.captured_frames, 3);
    assert_eq!(
        snapshot.capture.expect("one sample").p50_ms,
        measure(2.0)
    );
    assert_eq!(snapshot.encode.expect("one sample").max_ms, measure(4.0));
    assert!(snapshot.queue.is_none());
    assert!(snapshot.decode.is_none());
    assert!(snapshot.render.is_none());
}

#[test]
fn failed_media_does_not_make_authenticated_device_offline() {
    let mut tracker = PresenceTracker::new(HeartbeatPolicy::default());
    tracker.set_service_ready(true);
    tracker.heartbeat(1_000_000);
    tracker.set_media_state(MediaState::Recovering);
    let health = tracker.health(2_000_000);
    assert_eq!(health.presence, PresenceState::Online);
    assert_eq!(health.media, MediaState::Recovering);
}

#[test]
fn stale_control_heartbeat_eventually_marks_device_offline() {
    let mut tracker = PresenceTracker::new(HeartbeatPolicy {
        suspect_after_us: 5,
        offline_after_us: 10,
    });
    tracker.heartbeat(100);
    assert_eq!(tracker.health(104).presence, PresenceState::Online);
    assert_eq!(tracker.health(106).presence, PresenceState::ControlRecovering);
    assert_eq!(tracker.health(110).presence, PresenceState::Offline);
}

#[test]
fn worker_can_be_down_while_service_and_device_remain_online() {
    let mut tracker = PresenceTracker::new(HeartbeatPolicy::default());
    tracker.set_service_ready(true);
    tracker.set_worker_ready(false);
    tracker.heartbeat(0);
    let health = tracker.health(1);
    assert_eq!(health.presence, PresenceState::Online);
    assert!(health.service_ready);
    assert!(!health.worker_ready);
}

#[test]
fn a_device_that_was_never_heard_of_is_offline() {
    let mut tracker = PresenceTracker::new(HeartbeatPolicy::default());
    assert_eq!(tracker.health(0).presence, PresenceState::Offline);
    tracker.set_control_state(ControlState::Authenticated);
    assert_eq!(tracker.health(0).presence, PresenceState::Connecting);
}

#[test]
fn full_queue_evicts_oldest_frame() {
    let mut queue = LatestQueue::new(2);
    assert_eq!(queue.push(10), None);
    assert_eq!(queue.push(11), None);
    assert_eq!(queue.push(12), Some(10));
    assert_eq!(queue.pop(), Some(11));
    assert_eq!(queue.pop(), Some(12));
    assert_eq!(queue.dropped(), 1);
}

#[test]
fn retain_latest_catches_up_after_stall() {
    let mut queue = LatestQueue::new(4);
    for value in 1..=4 {
        let _ = queue.push(value);
    }
    assert_eq!(queue.retain_latest(), 3);
    assert_eq!(queue.pop(), Some(4));
    assert_eq!(queue.dropped(), 3);
}

#[test]
fn recovery_uses_bounded_exponential_backoff() {
    let policy = RecoveryPolicy {
        max_attempts: 4,
        base_backoff_ms: 100,
        max_backoff_ms: 250,
    };
    assert_eq!(policy.backoff_ms(1), 100);
    assert_eq!(policy.backoff_ms(2), 200);
    assert_eq!(policy.backoff_ms(3), 250);
    assert_eq!(policy.backoff_ms(9), 250);
}

#[test]
fn controller_eventually_enters_failed_state() {
    let mut controller = RecoveryController::new(RecoveryPolicy {
        max_attempts: 2,
        base_backoff_ms: 1,
        max_backoff_ms: 2,
    });
    assert_eq!(controller.begin(RecoveryReason::AccessLost), 1);
    assert_eq!(controller.retry_failed(), Some(2));
    assert_eq!(controller.retry_failed(), None);
    assert_eq!(
        controller.state(),
        RecoveryState::Failed {
            reason: RecoveryReason::AccessLost
        }
    );
}

#[test]
fn successful_recovery_resets_state() {
    let mut controller = RecoveryController::new(RecoveryPolicy::default());
    let _ = controller.begin(RecoveryReason::DisplayChanged);
    controller.mark_healthy();
    assert_eq!(controller.state(), RecoveryState::Healthy);
}

#[test]
fn backoff_reaches_its_ceiling_without_an_overflow() {
    let policy = RecoveryPolicy {
        max_attempts: u8::MAX,
        base_backoff_ms: u64::MAX / 2,
        max_backoff_ms: u64::MAX,
    };
    assert_eq!(policy.backoff_ms(u8::MAX), u64::MAX);
}

#[test]
fn every_stage_of_the_pipeline_is_summarized_apart() {
    let mut metrics = PipelineMetrics::new(4);
    assert!(metrics.record_queue_ms(measure(1.0)));
    assert!(metrics.record_decode_ms(measure(6.0)));
    assert!(metrics.record_render_ms(measure(9.0)));
    assert!(!metrics.record_render_ms(measure(-1.0)));
    let snapshot = metrics.snapshot();
    assert!(snapshot.capture.is_none());
    assert!(snapshot.encode.is_none());
    assert_eq!(snapshot.queue.expect("one sample").p95_ms, measure(1.0));
    assert_eq!(snapshot.decode.expect("one sample").p50_ms, measure(6.0));
    assert_eq!(snapshot.render.expect("one sample").max_ms, measure(9.0));
}

#[test]
fn recovery_can_be_suspended_and_started_again() {
    let mut controller = RecoveryController::new(RecoveryPolicy::default());
    controller.mark_starting();
    assert_eq!(controller.state(), RecoveryState::Starting);
    controller.suspend();
    assert_eq!(controller.state(), RecoveryState::Suspended);
    assert_eq!(controller.retry_failed(), None);
    assert_eq!(controller.state(), RecoveryState::Suspended);
}

#[test]
fn different_samples_that_lead_to_one_tier_count_together() {
    let mut controller = AdaptiveController::new(
        StreamKind::Interactive,
        AdaptationPolicy::default(),
        HysteresisConfig {
            degrade_samples: 3,
            recover_samples: 1,
            transport_samples: 1,
        },
    );
    let good = healthy(false, false);
    assert_eq!(controller.observe(good).tier, QualityTier::High);
    let mut samples = [good; 3];
    for (sample, loss) in samples.iter_mut().zip([0.12, 0.2, 0.3]) {
        sample.packet_loss = measure(loss);
    }
    assert_eq!(controller.observe(samples[0]).tier, QualityTier::High);
    assert_eq!(controller.observe(samples[1]).tier, QualityTier::High);
    assert_eq!(controller.observe(good).tier, QualityTier::High);
    assert_eq!(controller.observe(samples[2]).tier, QualityTier::High);
    assert_eq!(controller.observe(samples[1]).tier, QualityTier::High);
    assert_eq!(controller.observe(samples[0]).tier, QualityTier::Emergency);
}

#[test]
fn cohort_counts_share_out_the_receivers() {
    let mut router = CohortRouter::default();
    for (receiver, transport, tier) in [
        (4, MediaTransport::UdpMulticast, QualityTier::High),
        (1, MediaTransport::UdpUnicast, QualityTier::Low),
        (3, MediaTransport::QuicDatagram, QualityTier::Low),
        (2, MediaTransport::UdpMulticast, QualityTier::High),
        (5, MediaTransport::WebRtc, QualityTier::Medium),
        (1, MediaTransport::UdpMulticast, QualityTier::High),
    ] {
        router.update(ReceiverId(receiver), decision(transport, tier));
    }
    let counts = router.cohort_counts();
    let mut total = 0;
    for index in 0..counts.len() {
        let members = router.members(counts.key_at(index));
        assert!(members.windows(2).all(|pair| pair[0] < pair[1]));
        assert_eq!(members.len(), *counts.value_at(index));
        total += members.len();
    }
    assert_eq!(counts.len(), 3);
    assert_eq!(total, router.len());
}
