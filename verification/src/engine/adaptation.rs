//! Which quality and which transport a stream gets, and how slowly that changes.

use super::{MediaTransport, NetworkMetrics, StreamKind};
use crate::measure::Measure;
use vstd::prelude::*;

verus! {

#[derive(Debug, Clone, Copy, PartialEq, Eq, Structural)]
pub struct StreamProfile {
    pub width: u16,
    pub height: u16,
    pub fps: u8,
    pub bitrate_kbps: u32,
}

#[derive(Debug, Clone, Copy, PartialEq, Eq, Structural)]
pub enum StreamProfileError {
    InvalidGeometry,
}

impl StreamProfile {
    /// A profile by its parts.
    pub open spec fn of(width: u16, height: u16, fps: u8, bitrate_kbps: u32) -> Self {
        StreamProfile { width, height, fps, bitrate_kbps }
    }

    /// The picture has a size, and its sides are even, as chroma subsampling needs.
    pub open spec fn has_valid_geometry(self) -> bool {
        self.width != 0 && self.height != 0 && self.width % 2 == 0 && self.height % 2 == 0
    }

    #[must_use]
    pub fn new(width: u16, height: u16, fps: u8, bitrate_kbps: u32) -> (profile: Self)
        ensures
            profile == Self::of(width, height, fps, bitrate_kbps),
    {
        StreamProfile { width, height, fps, bitrate_kbps }
    }

    /// Hands the profile back where it can be encoded.
    pub fn validate(self) -> (result: Result<Self, StreamProfileError>)
        ensures
            match result {
                Ok(profile) => self.has_valid_geometry() && profile == self,
                Err(error) => !self.has_valid_geometry() && error
                    == StreamProfileError::InvalidGeometry,
            },
    {
        if self.width == 0 || self.height == 0 || self.width % 2 != 0 || self.height % 2 != 0 {
            return Err(StreamProfileError::InvalidGeometry);
        }
        Ok(self)
    }
}

#[derive(Debug, Clone, Copy, PartialEq, Eq, PartialOrd, Ord, Hash, Structural)]
pub enum QualityTier {
    Emergency,
    Low,
    Medium,
    High,
}

impl QualityTier {
    /// The tier's place, from the worst to the best.
    pub open spec fn spec_rank(self) -> int {
        match self {
            QualityTier::Emergency => 0,
            QualityTier::Low => 1,
            QualityTier::Medium => 2,
            QualityTier::High => 3,
        }
    }

    /// The tier's place, from the worst to the best.
    #[must_use]
    pub fn rank(self) -> (rank: u8)
        ensures
            rank == self.spec_rank(),
    {
        match self {
            QualityTier::Emergency => 0,
            QualityTier::Low => 1,
            QualityTier::Medium => 2,
            QualityTier::High => 3,
        }
    }
}

#[derive(Debug, Clone, Copy, PartialEq, Eq, Structural)]
pub struct StreamDecision {
    pub transport: MediaTransport,
    pub profile: StreamProfile,
    pub tier: QualityTier,
}

/// The limits by which a tier is chosen.
#[derive(Debug, Clone, Copy, PartialEq, Eq, Structural)]
pub struct AdaptationPolicy {
    /// Loss below this level is considered healthy enough for the high tier.
    pub healthy_loss: Measure,
    /// Loss at or above this level forces emergency quality.
    pub severe_loss: Measure,
    pub healthy_rtt_ms: Measure,
    pub severe_rtt_ms: Measure,
    pub max_queue_delay_ms: Measure,
}

/// The bit pattern of 0.01.
pub const HEALTHY_LOSS: u32 = 0x3C23_D70A;

/// The bit pattern of 0.08.
pub const SEVERE_LOSS: u32 = 0x3DA3_D70A;

/// The bit pattern of 40.0.
pub const HEALTHY_RTT_MS: u32 = 0x4220_0000;

/// The bit pattern of 180.0.
pub const SEVERE_RTT_MS: u32 = 0x4334_0000;

/// The bit pattern of 120.0.
pub const MAX_QUEUE_DELAY_MS: u32 = 0x42F0_0000;

/// The bit pattern of 30.0: the longest queue delay for the high tier.
pub const HIGH_QUEUE_DELAY_MS: u32 = 0x41F0_0000;

/// The bit pattern of 0.04: the loss at which the medium tier ends.
pub const MEDIUM_LOSS: u32 = 0x3D23_D70A;

/// The bit pattern of 100.0: the round-trip time at which the medium tier ends.
pub const MEDIUM_RTT_MS: u32 = 0x42C8_0000;

impl Default for AdaptationPolicy {
    fn default() -> (policy: Self)
        ensures
            policy == (AdaptationPolicy {
                healthy_loss: Measure::of(HEALTHY_LOSS),
                severe_loss: Measure::of(SEVERE_LOSS),
                healthy_rtt_ms: Measure::of(HEALTHY_RTT_MS),
                severe_rtt_ms: Measure::of(SEVERE_RTT_MS),
                max_queue_delay_ms: Measure::of(MAX_QUEUE_DELAY_MS),
            }),
    {
        AdaptationPolicy {
            healthy_loss: Measure::from_bits(HEALTHY_LOSS),
            severe_loss: Measure::from_bits(SEVERE_LOSS),
            healthy_rtt_ms: Measure::from_bits(HEALTHY_RTT_MS),
            severe_rtt_ms: Measure::from_bits(SEVERE_RTT_MS),
            max_queue_delay_ms: Measure::from_bits(MAX_QUEUE_DELAY_MS),
        }
    }
}

/// The transport that a stream of a tier gets.
pub open spec fn spec_transport(
    kind: StreamKind,
    metrics: NetworkMetrics,
    tier: QualityTier,
) -> MediaTransport {
    if tier == QualityTier::Emergency {
        MediaTransport::ReliableFallback
    } else if kind == StreamKind::TeacherPresentation && !metrics.wireless
        && metrics.multicast_viable {
        MediaTransport::UdpMulticast
    } else if metrics.wireless {
        MediaTransport::QuicDatagram
    } else {
        MediaTransport::UdpUnicast
    }
}

/// The decision for a tier.
pub open spec fn spec_decision(
    kind: StreamKind,
    metrics: NetworkMetrics,
    tier: QualityTier,
) -> StreamDecision {
    StreamDecision {
        transport: spec_transport(kind, metrics, tier),
        profile: spec_profile_for(kind, tier),
        tier,
    }
}

impl AdaptationPolicy {
    /// The tier that the measurements call for.
    pub open spec fn spec_tier(self, metrics: NetworkMetrics) -> QualityTier {
        if !metrics.spec_is_valid() || metrics.packet_loss.spec_at_least(self.severe_loss)
            || metrics.rtt_ms.spec_at_least(self.severe_rtt_ms)
            || metrics.queue_delay_ms.spec_at_least(self.max_queue_delay_ms) {
            QualityTier::Emergency
        } else if self.healthy_loss.spec_at_least(metrics.packet_loss)
            && self.healthy_rtt_ms.spec_at_least(metrics.rtt_ms) && Measure::of(
            HIGH_QUEUE_DELAY_MS,
        ).spec_at_least(metrics.queue_delay_ms) {
            QualityTier::High
        } else if Measure::of(MEDIUM_LOSS).spec_exceeds(metrics.packet_loss) && Measure::of(
            MEDIUM_RTT_MS,
        ).spec_exceeds(metrics.rtt_ms) {
            QualityTier::Medium
        } else {
            QualityTier::Low
        }
    }

    /// The decision that the measurements call for.
    pub open spec fn spec_decide(self, kind: StreamKind, metrics: NetworkMetrics) -> StreamDecision {
        spec_decision(kind, metrics, self.spec_tier(metrics))
    }

    #[must_use]
    pub fn decide(self, kind: StreamKind, metrics: NetworkMetrics) -> (decision: StreamDecision)
        ensures
            decision == self.spec_decide(kind, metrics),
    {
        let tier = self.quality_tier(metrics);
        self.decision_for_tier(kind, metrics, tier)
    }

    #[must_use]
    pub fn decision_for_tier(
        self,
        kind: StreamKind,
        metrics: NetworkMetrics,
        tier: QualityTier,
    ) -> (decision: StreamDecision)
        ensures
            decision == spec_decision(kind, metrics, tier),
    {
        let transport = Self::transport(kind, metrics, tier);
        StreamDecision { transport, profile: profile_for(kind, tier), tier }
    }

    fn quality_tier(self, metrics: NetworkMetrics) -> (tier: QualityTier)
        ensures
            tier == self.spec_tier(metrics),
    {
        if !metrics.is_valid() || metrics.packet_loss.at_least(self.severe_loss)
            || metrics.rtt_ms.at_least(self.severe_rtt_ms) || metrics.queue_delay_ms.at_least(
            self.max_queue_delay_ms,
        ) {
            return QualityTier::Emergency;
        }
        if self.healthy_loss.at_least(metrics.packet_loss) && self.healthy_rtt_ms.at_least(
            metrics.rtt_ms,
        ) && Measure::from_bits(HIGH_QUEUE_DELAY_MS).at_least(metrics.queue_delay_ms) {
            return QualityTier::High;
        }
        if Measure::from_bits(MEDIUM_LOSS).exceeds(metrics.packet_loss) && Measure::from_bits(
            MEDIUM_RTT_MS,
        ).exceeds(metrics.rtt_ms) {
            QualityTier::Medium
        } else {
            QualityTier::Low
        }
    }

    fn transport(kind: StreamKind, metrics: NetworkMetrics, tier: QualityTier) -> (transport:
        MediaTransport)
        ensures
            transport == spec_transport(kind, metrics, tier),
    {
        if tier == QualityTier::Emergency {
            return MediaTransport::ReliableFallback;
        }
        if kind == StreamKind::TeacherPresentation && !metrics.wireless
            && metrics.multicast_viable {
            return MediaTransport::UdpMulticast;
        }
        if metrics.wireless {
            return MediaTransport::QuicDatagram;
        }
        MediaTransport::UdpUnicast
    }
}

#[derive(Debug, Clone, Copy, PartialEq, Eq, Structural)]
pub struct HysteresisConfig {
    /// Degrade quickly because queue growth/loss hurts real-time latency.
    pub degrade_samples: u8,
    /// Recover more slowly to avoid oscillating quality after a short good burst.
    pub recover_samples: u8,
    /// Require repeated topology observations before moving between multicast/unicast paths.
    pub transport_samples: u8,
}

impl Default for HysteresisConfig {
    fn default() -> (config: Self)
        ensures
            config == (HysteresisConfig {
                degrade_samples: 2,
                recover_samples: 5,
                transport_samples: 3,
            }),
    {
        HysteresisConfig { degrade_samples: 2, recover_samples: 5, transport_samples: 3 }
    }
}

/// Stateful adaptation controller that prevents bitrate/profile/transport flapping.
#[derive(Debug)]
pub struct AdaptiveController {
    kind: StreamKind,
    policy: AdaptationPolicy,
    hysteresis: HysteresisConfig,
    current: Option<StreamDecision>,
    pending_tier: Option<QualityTier>,
    pending_tier_samples: u8,
    pending_transport: Option<MediaTransport>,
    pending_transport_samples: u8,
}

/// A candidate that was seen in the latest samples, and in how many of them.
pub struct Pending<T> {
    pub candidate: Option<T>,
    pub samples: u8,
}

impl<T> Pending<T> {
    /// Nothing is pending.
    pub open spec fn nothing() -> Self {
        Pending { candidate: None, samples: 0 }
    }

    /// The candidate was seen once more.
    pub open spec fn spec_seen(self, candidate: T) -> Self {
        if self.candidate == Some(candidate) {
            Pending {
                samples: if self.samples == u8::MAX {
                    u8::MAX
                } else {
                    (self.samples + 1) as u8
                },
                ..self
            }
        } else {
            Pending { candidate: Some(candidate), samples: 1 }
        }
    }
}

/// What becomes of `current` when `candidate` is seen: it gives way once the candidate was
/// seen in `required` samples in a row, and one at least.
pub open spec fn spec_settle<T>(
    current: T,
    candidate: T,
    pending: Pending<T>,
    required: u8,
) -> (T, Pending<T>) {
    let seen = pending.spec_seen(candidate);
    if candidate == current {
        (current, Pending::nothing())
    } else if seen.samples >= required {
        (candidate, Pending::nothing())
    } else {
        (current, seen)
    }
}

/// A controller: what it is for, its limits, the active decision and what is pending.
pub struct ControllerView {
    pub kind: StreamKind,
    pub policy: AdaptationPolicy,
    pub hysteresis: HysteresisConfig,
    pub current: Option<StreamDecision>,
    pub tier: Pending<QualityTier>,
    pub transport: Pending<MediaTransport>,
}

impl View for AdaptiveController {
    type V = ControllerView;

    closed spec fn view(&self) -> ControllerView {
        ControllerView {
            kind: self.kind,
            policy: self.policy,
            hysteresis: self.hysteresis,
            current: self.current,
            tier: Pending { candidate: self.pending_tier, samples: self.pending_tier_samples },
            transport: Pending {
                candidate: self.pending_transport,
                samples: self.pending_transport_samples,
            },
        }
    }
}

impl ControllerView {
    /// How many samples in a row a change from one tier to another needs: fewer for the worse
    /// than for the better.
    pub open spec fn spec_tier_samples(self, from: QualityTier, to: QualityTier) -> u8 {
        if to.spec_rank() < from.spec_rank() {
            self.hysteresis.degrade_samples
        } else {
            self.hysteresis.recover_samples
        }
    }

    /// The tier after a sample, and what is pending then.
    pub open spec fn spec_settle_tier(self, current: QualityTier, candidate: QualityTier) -> (
        QualityTier,
        Pending<QualityTier>,
    ) {
        spec_settle(current, candidate, self.tier, self.spec_tier_samples(current, candidate))
    }

    /// The transport after a sample, and what is pending then. The fallback is taken at once:
    /// waiting extra topology samples would only prolong an overloaded real-time path.
    pub open spec fn spec_settle_transport(
        self,
        current: MediaTransport,
        candidate: MediaTransport,
    ) -> (MediaTransport, Pending<MediaTransport>) {
        if candidate == MediaTransport::ReliableFallback {
            (candidate, Pending::nothing())
        } else {
            spec_settle(current, candidate, self.transport, self.hysteresis.transport_samples)
        }
    }

    /// The controller after a sample.
    pub open spec fn spec_observed(self, metrics: NetworkMetrics) -> Self {
        let candidate = self.policy.spec_decide(self.kind, metrics);
        match self.current {
            None => ControllerView { current: Some(candidate), ..self },
            Some(current) => {
                let (tier, pending_tier) = self.spec_settle_tier(current.tier, candidate.tier);
                let (transport, pending_transport) = self.spec_settle_transport(
                    current.transport,
                    spec_transport(self.kind, metrics, tier),
                );
                ControllerView {
                    current: Some(
                        StreamDecision {
                            transport,
                            profile: spec_profile_for(self.kind, tier),
                            tier,
                        },
                    ),
                    tier: pending_tier,
                    transport: pending_transport,
                    ..self
                }
            },
        }
    }
}

impl AdaptiveController {
    #[must_use]
    pub fn new(kind: StreamKind, policy: AdaptationPolicy, hysteresis: HysteresisConfig) -> (
        controller: Self)
        ensures
            controller@ == (ControllerView {
                kind,
                policy,
                hysteresis,
                current: None,
                tier: Pending::nothing(),
                transport: Pending::nothing(),
            }),
    {
        AdaptiveController {
            kind,
            policy,
            hysteresis,
            current: None,
            pending_tier: None,
            pending_tier_samples: 0,
            pending_transport: None,
            pending_transport_samples: 0,
        }
    }

    #[must_use]
    pub fn current(&self) -> (current: Option<StreamDecision>)
        ensures
            current == self@.current,
    {
        self.current
    }

    /// Observes one metrics sample and returns the active decision after hysteresis is applied.
    pub fn observe(&mut self, metrics: NetworkMetrics) -> (decision: StreamDecision)
        ensures
            final(self)@ == old(self)@.spec_observed(metrics),
            final(self)@.current == Some(decision),
    {
        let candidate = self.policy.decide(self.kind, metrics);
        let current = match self.current {
            Some(current) => current,
            None => {
                self.current = Some(candidate);
                return candidate;
            },
        };
        let tier = self.apply_tier_hysteresis(current.tier, candidate.tier);
        let base = self.policy.decision_for_tier(self.kind, metrics, tier);
        let transport = self.apply_transport_hysteresis(current.transport, base.transport);
        let next = StreamDecision { tier, profile: profile_for(self.kind, tier), transport };
        self.current = Some(next);
        next
    }

    fn apply_tier_hysteresis(&mut self, current: QualityTier, candidate: QualityTier) -> (tier:
        QualityTier)
        ensures
            final(self)@ == (ControllerView {
                tier: old(self)@.spec_settle_tier(current, candidate).1,
                ..old(self)@
            }),
            tier == old(self)@.spec_settle_tier(current, candidate).0,
    {
        if candidate == current {
            self.pending_tier = None;
            self.pending_tier_samples = 0;
            return current;
        }
        if self.pending_tier == Some(candidate) {
            self.pending_tier_samples = self.pending_tier_samples.saturating_add(1);
        } else {
            self.pending_tier = Some(candidate);
            self.pending_tier_samples = 1;
        }
        let required: u8 = if candidate.rank() < current.rank() {
            self.hysteresis.degrade_samples
        } else {
            self.hysteresis.recover_samples
        };
        if self.pending_tier_samples >= required {
            self.pending_tier = None;
            self.pending_tier_samples = 0;
            candidate
        } else {
            current
        }
    }

    fn apply_transport_hysteresis(
        &mut self,
        current: MediaTransport,
        candidate: MediaTransport,
    ) -> (transport: MediaTransport)
        ensures
            final(self)@ == (ControllerView {
                transport: old(self)@.spec_settle_transport(current, candidate).1,
                ..old(self)@
            }),
            transport == old(self)@.spec_settle_transport(current, candidate).0,
    {
        if candidate == current {
            self.pending_transport = None;
            self.pending_transport_samples = 0;
            return current;
        }
        if candidate == MediaTransport::ReliableFallback {
            self.pending_transport = None;
            self.pending_transport_samples = 0;
            return candidate;
        }
        if self.pending_transport == Some(candidate) {
            self.pending_transport_samples = self.pending_transport_samples.saturating_add(1);
        } else {
            self.pending_transport = Some(candidate);
            self.pending_transport_samples = 1;
        }
        if self.pending_transport_samples >= self.hysteresis.transport_samples {
            self.pending_transport = None;
            self.pending_transport_samples = 0;
            candidate
        } else {
            current
        }
    }
}

/// The profile of a workload in a tier.
pub open spec fn spec_profile_for(kind: StreamKind, tier: QualityTier) -> StreamProfile {
    match (kind, tier) {
        (StreamKind::Monitoring, QualityTier::High) => StreamProfile::of(640, 360, 5, 700),
        (StreamKind::Monitoring, QualityTier::Medium) => StreamProfile::of(480, 270, 4, 450),
        (StreamKind::Monitoring, QualityTier::Low) => StreamProfile::of(320, 180, 3, 250),
        (StreamKind::Monitoring, QualityTier::Emergency) => StreamProfile::of(320, 180, 1, 120),
        (StreamKind::Interactive, QualityTier::High) => StreamProfile::of(1920, 1080, 30, 5_000),
        (StreamKind::Interactive, QualityTier::Medium) => StreamProfile::of(1280, 720, 30, 2_500),
        (StreamKind::Interactive, QualityTier::Low) => StreamProfile::of(960, 540, 30, 1_500),
        (StreamKind::Interactive, QualityTier::Emergency) => StreamProfile::of(640, 360, 20, 700),
        (StreamKind::TeacherPresentation, QualityTier::High) => StreamProfile::of(
            1920,
            1080,
            30,
            5_000,
        ),
        (StreamKind::TeacherPresentation, QualityTier::Medium) => StreamProfile::of(
            1280,
            720,
            30,
            2_500,
        ),
        (StreamKind::TeacherPresentation, QualityTier::Low) => StreamProfile::of(
            1280,
            720,
            20,
            1_500,
        ),
        (StreamKind::TeacherPresentation, QualityTier::Emergency) => StreamProfile::of(
            854,
            480,
            10,
            700,
        ),
    }
}

#[must_use]
pub fn profile_for(kind: StreamKind, tier: QualityTier) -> (profile: StreamProfile)
    ensures
        profile == spec_profile_for(kind, tier),
{
    match (kind, tier) {
        (StreamKind::Monitoring, QualityTier::High) => StreamProfile::new(640, 360, 5, 700),
        (StreamKind::Monitoring, QualityTier::Medium) => StreamProfile::new(480, 270, 4, 450),
        (StreamKind::Monitoring, QualityTier::Low) => StreamProfile::new(320, 180, 3, 250),
        (StreamKind::Monitoring, QualityTier::Emergency) => StreamProfile::new(320, 180, 1, 120),
        (StreamKind::Interactive, QualityTier::High) => StreamProfile::new(1920, 1080, 30, 5_000),
        (StreamKind::Interactive, QualityTier::Medium) => StreamProfile::new(1280, 720, 30, 2_500),
        (StreamKind::Interactive, QualityTier::Low) => StreamProfile::new(960, 540, 30, 1_500),
        (StreamKind::Interactive, QualityTier::Emergency) => StreamProfile::new(640, 360, 20, 700),
        (StreamKind::TeacherPresentation, QualityTier::High) => StreamProfile::new(
            1920,
            1080,
            30,
            5_000,
        ),
        (StreamKind::TeacherPresentation, QualityTier::Medium) => StreamProfile::new(
            1280,
            720,
            30,
            2_500,
        ),
        (StreamKind::TeacherPresentation, QualityTier::Low) => StreamProfile::new(
            1280,
            720,
            20,
            1_500,
        ),
        (StreamKind::TeacherPresentation, QualityTier::Emergency) => StreamProfile::new(
            854,
            480,
            10,
            700,
        ),
    }
}

/// Whatever is measured, multicast is chosen only for a presentation over a wire on which it
/// was seen to work, and an emergency always takes the fallback.
pub proof fn law_multicast_is_for_wired_presentations(
    policy: AdaptationPolicy,
    kind: StreamKind,
    metrics: NetworkMetrics,
)
    ensures
        ({
            let decision = policy.spec_decide(kind, metrics);
            &&& decision.transport == MediaTransport::UdpMulticast ==> kind
                == StreamKind::TeacherPresentation && !metrics.wireless && metrics.multicast_viable
            &&& decision.tier == QualityTier::Emergency <==> decision.transport
                == MediaTransport::ReliableFallback
            &&& !metrics.spec_is_valid() ==> decision.tier == QualityTier::Emergency
        }),
{
}

/// A better tier never has a smaller picture, fewer frames or a lower bit rate, and every
/// profile can be encoded.
pub proof fn law_better_tiers_have_better_profiles(
    kind: StreamKind,
    worse: QualityTier,
    better: QualityTier,
)
    requires
        worse.spec_rank() <= better.spec_rank(),
    ensures
        ({
            let low = spec_profile_for(kind, worse);
            let high = spec_profile_for(kind, better);
            &&& low.width <= high.width
            &&& low.height <= high.height
            &&& low.fps <= high.fps
            &&& low.bitrate_kbps <= high.bitrate_kbps
            &&& low.has_valid_geometry()
        }),
{
}

/// The controller after some samples.
pub open spec fn after_samples(
    controller: ControllerView,
    samples: Seq<NetworkMetrics>,
) -> ControllerView
    decreases samples.len(),
{
    if samples.len() == 0 {
        controller
    } else {
        after_samples(controller, samples.drop_last()).spec_observed(samples.last())
    }
}

/// A tier changes only after as many samples in a row as the hysteresis asks for, but at least
/// one, and then it does change and stays. The samples need not be the same: it is enough that
/// each leads to the tier by itself.
pub proof fn law_tier_changes_after_enough_samples(
    controller: ControllerView,
    samples: Seq<NetworkMetrics>,
    target: QualityTier,
)
    requires
        controller.current is Some,
        target != controller.current->Some_0.tier,
        controller.tier.candidate != Some(target),
        forall|i: int|
            0 <= i < samples.len() ==> controller.policy.spec_tier(#[trigger] samples[i])
                == target,
    ensures
        ({
            let asked = controller.spec_tier_samples(controller.current->Some_0.tier, target);
            let required = if asked == 0 {
                1
            } else {
                asked as int
            };
            let after = after_samples(controller, samples);
            &&& after.current is Some
            &&& after.policy == controller.policy && after.hysteresis == controller.hysteresis
                && after.kind == controller.kind
            &&& after.current->Some_0.tier == if samples.len() < required {
                controller.current->Some_0.tier
            } else {
                target
            }
            &&& samples.len() == 0 ==> after == controller
            &&& 0 < samples.len() < required ==> after.tier.candidate == Some(target)
                && after.tier.samples == samples.len()
            &&& samples.len() >= required ==> after.tier.candidate is None
        }),
    decreases samples.len(),
{
    if samples.len() > 0 {
        let front = samples.drop_last();
        assert forall|i: int| 0 <= i < front.len() implies controller.policy.spec_tier(
            #[trigger] front[i],
        ) == target by {
            assert(front[i] == samples[i]);
        }
        assert(controller.policy.spec_tier(samples[samples.len() - 1]) == target);
        law_tier_changes_after_enough_samples(controller, front, target);
    }
}

/// A sample that leads elsewhere breaks a row: none of those before it counts any more.
pub proof fn law_other_sample_breaks_the_row(
    controller: ControllerView,
    metrics: NetworkMetrics,
    target: QualityTier,
)
    requires
        controller.current is Some,
        controller.policy.spec_tier(metrics) != target,
    ensures
        controller.spec_observed(metrics).tier.candidate != Some(target),
{
}

/// Each measured limit binds by itself. A round-trip time, a queue delay or a loss that reaches
/// its severe limit makes an emergency, however good the rest is. The high tier stands for a loss,
/// a round-trip time and a queue delay that are all healthy, and the medium tier for a loss below
/// 4% and a round-trip time below 100 ms.
pub proof fn law_each_limit_binds(policy: AdaptationPolicy, metrics: NetworkMetrics)
    ensures
        ({
            let tier = policy.spec_tier(metrics);
            &&& metrics.rtt_ms.spec_at_least(policy.severe_rtt_ms) ==> tier
                == QualityTier::Emergency
            &&& metrics.queue_delay_ms.spec_at_least(policy.max_queue_delay_ms) ==> tier
                == QualityTier::Emergency
            &&& metrics.packet_loss.spec_at_least(policy.severe_loss) ==> tier
                == QualityTier::Emergency
            &&& tier == QualityTier::High ==> {
                &&& policy.healthy_loss.spec_at_least(metrics.packet_loss)
                &&& policy.healthy_rtt_ms.spec_at_least(metrics.rtt_ms)
                &&& Measure::of(0x41F0_0000).spec_at_least(metrics.queue_delay_ms)
            }
            &&& tier == QualityTier::Medium ==> {
                &&& Measure::of(0x3D23_D70A).spec_exceeds(metrics.packet_loss)
                &&& Measure::of(0x42C8_0000).spec_exceeds(metrics.rtt_ms)
            }
        }),
{
}

/// A path is not called worse than it is: an emergency has a severe limit that was reached or
/// measurements that are invalid, and below the emergency a path that is healthy in all three
/// respects is high, and one that is within the medium limits is medium at least.
pub proof fn law_no_tier_without_a_reason(policy: AdaptationPolicy, metrics: NetworkMetrics)
    ensures
        ({
            let tier = policy.spec_tier(metrics);
            &&& tier == QualityTier::Emergency ==> !metrics.spec_is_valid()
                || metrics.rtt_ms.spec_at_least(policy.severe_rtt_ms)
                || metrics.queue_delay_ms.spec_at_least(policy.max_queue_delay_ms)
                || metrics.packet_loss.spec_at_least(policy.severe_loss)
            &&& tier != QualityTier::Emergency && policy.healthy_loss.spec_at_least(
                metrics.packet_loss,
            ) && policy.healthy_rtt_ms.spec_at_least(metrics.rtt_ms) && Measure::of(
                0x41F0_0000,
            ).spec_at_least(metrics.queue_delay_ms) ==> tier == QualityTier::High
            &&& tier == QualityTier::Low ==> !Measure::of(0x3D23_D70A).spec_exceeds(
                metrics.packet_loss,
            ) || !Measure::of(0x42C8_0000).spec_exceeds(metrics.rtt_ms)
        }),
{
}

/// A path that is worse in loss, round-trip time and queue delay never gets a better tier.
pub proof fn law_worse_paths_get_no_better_tier(
    policy: AdaptationPolicy,
    better: NetworkMetrics,
    worse: NetworkMetrics,
)
    requires
        better.spec_is_valid(),
        worse.packet_loss.spec_at_least(better.packet_loss),
        worse.rtt_ms.spec_at_least(better.rtt_ms),
        worse.queue_delay_ms.spec_at_least(better.queue_delay_ms),
    ensures
        policy.spec_tier(worse).spec_rank() <= policy.spec_tier(better).spec_rank(),
{
}

/// Outside an emergency a wireless path takes QUIC datagrams, a wired one plain datagrams, and a
/// wired presentation on which multicast works takes multicast.
pub proof fn law_transport_follows_the_path(
    kind: StreamKind,
    metrics: NetworkMetrics,
    tier: QualityTier,
)
    ensures
        ({
            let transport = spec_decision(kind, metrics, tier).transport;
            &&& tier == QualityTier::Emergency ==> transport == MediaTransport::ReliableFallback
            &&& tier != QualityTier::Emergency && metrics.wireless ==> transport
                == MediaTransport::QuicDatagram
            &&& tier != QualityTier::Emergency && !metrics.wireless && (!metrics.multicast_viable
                || kind != StreamKind::TeacherPresentation) ==> transport
                == MediaTransport::UdpUnicast
            &&& tier != QualityTier::Emergency && !metrics.wireless && metrics.multicast_viable
                && kind == StreamKind::TeacherPresentation ==> transport
                == MediaTransport::UdpMulticast
            &&& spec_decision(kind, metrics, tier).tier == tier
            &&& spec_decision(kind, metrics, tier).profile == spec_profile_for(kind, tier)
        }),
{
}

/// Getting worse takes the samples that are asked for degrading, and getting better those that
/// are asked for recovering.
pub proof fn law_degrading_and_recovering_differ(
    controller: ControllerView,
    worse: QualityTier,
    better: QualityTier,
)
    requires
        worse.spec_rank() < better.spec_rank(),
    ensures
        controller.spec_tier_samples(better, worse) == controller.hysteresis.degrade_samples,
        controller.spec_tier_samples(worse, better) == controller.hysteresis.recover_samples,
        QualityTier::Emergency.spec_rank() < QualityTier::Low.spec_rank()
            < QualityTier::Medium.spec_rank() < QualityTier::High.spec_rank(),
{
}

/// The first sample decides at once. From then on the profile is always that of the tier, and the
/// fallback is taken as soon as the tier is an emergency.
pub proof fn law_decision_is_consistent(controller: ControllerView, metrics: NetworkMetrics)
    ensures
        ({
            let after = controller.spec_observed(metrics);
            &&& after.current is Some
            &&& controller.current is None ==> after.current == Some(
                controller.policy.spec_decide(controller.kind, metrics),
            )
            &&& after.current->Some_0.profile == spec_profile_for(
                controller.kind,
                after.current->Some_0.tier,
            )
            &&& after.current->Some_0.tier == QualityTier::Emergency
                ==> after.current->Some_0.transport == MediaTransport::ReliableFallback
            &&& after.policy == controller.policy && after.kind == controller.kind
                && after.hysteresis == controller.hysteresis
        }),
{
}

/// Within one tier the transport changes only after as many samples in a row as the hysteresis
/// asks for, but at least one, and then it does change and stays. The fallback is not waited for.
pub proof fn law_transport_changes_after_enough_samples(
    controller: ControllerView,
    samples: Seq<NetworkMetrics>,
    target: MediaTransport,
)
    requires
        controller.current is Some,
        target != controller.current->Some_0.transport,
        controller.transport.candidate != Some(target),
        forall|i: int|
            0 <= i < samples.len() ==> controller.policy.spec_tier(#[trigger] samples[i])
                == controller.current->Some_0.tier && spec_transport(
                controller.kind,
                samples[i],
                controller.current->Some_0.tier,
            ) == target,
    ensures
        ({
            let asked = controller.hysteresis.transport_samples;
            let required = if asked == 0 || target == MediaTransport::ReliableFallback {
                1
            } else {
                asked as int
            };
            let after = after_samples(controller, samples);
            &&& after.current is Some
            &&& after.policy == controller.policy && after.hysteresis == controller.hysteresis
                && after.kind == controller.kind
            &&& after.current->Some_0.tier == controller.current->Some_0.tier
            &&& after.current->Some_0.transport == if samples.len() < required {
                controller.current->Some_0.transport
            } else {
                target
            }
            &&& samples.len() == 0 ==> after == controller
            &&& 0 < samples.len() < required ==> after.transport.candidate == Some(target)
                && after.transport.samples == samples.len()
            &&& samples.len() >= required ==> after.transport.candidate is None
        }),
    decreases samples.len(),
{
    if samples.len() > 0 {
        let front = samples.drop_last();
        assert forall|i: int| 0 <= i < front.len() implies controller.policy.spec_tier(
            #[trigger] front[i],
        ) == controller.current->Some_0.tier && spec_transport(
            controller.kind,
            front[i],
            controller.current->Some_0.tier,
        ) == target by {
            assert(front[i] == samples[i]);
        }
        assert(controller.policy.spec_tier(samples[samples.len() - 1])
            == controller.current->Some_0.tier);
        law_transport_changes_after_enough_samples(controller, front, target);
    }
}

/// The workloads keep what they are for: watching many screens costs little, an interactive
/// stream keeps its motion down to the emergency, and a presentation keeps its size before its
/// motion. All pictures have a wide shape, and the best tier of the two large workloads is the same.
pub proof fn law_profiles_fit_their_workload(tier: QualityTier, kind: StreamKind)
    ensures
        ({
            let monitoring = spec_profile_for(StreamKind::Monitoring, tier);
            let interactive = spec_profile_for(StreamKind::Interactive, tier);
            let presentation = spec_profile_for(StreamKind::TeacherPresentation, tier);
            let picture = spec_profile_for(kind, tier);
            &&& monitoring.width <= 640 && monitoring.fps <= 5 && monitoring.bitrate_kbps <= 700
            &&& monitoring.width < interactive.width && monitoring.bitrate_kbps
                < interactive.bitrate_kbps
            &&& interactive.fps >= 20
            &&& tier != QualityTier::Emergency ==> interactive.fps == 30
            &&& presentation.width >= interactive.width && presentation.fps <= interactive.fps
            &&& presentation.bitrate_kbps == interactive.bitrate_kbps
            &&& tier == QualityTier::High || tier == QualityTier::Medium ==> presentation
                == interactive
            &&& 16 * picture.height - 9 * picture.width <= 9
            &&& 9 * picture.width - 16 * picture.height <= 9
            &&& picture.fps >= 1 && picture.bitrate_kbps >= 120
        }),
{
}

/// The ladders of the workloads, from the emergency to the best tier.
pub proof fn law_profile_ladders()
    ensures
        ladder(StreamKind::Monitoring) == seq![
            (320u16, 180u16, 1u8, 120u32),
            (320u16, 180u16, 3u8, 250u32),
            (480u16, 270u16, 4u8, 450u32),
            (640u16, 360u16, 5u8, 700u32),
        ],
        ladder(StreamKind::Interactive) == seq![
            (640u16, 360u16, 20u8, 700u32),
            (960u16, 540u16, 30u8, 1_500u32),
            (1280u16, 720u16, 30u8, 2_500u32),
            (1920u16, 1080u16, 30u8, 5_000u32),
        ],
        ladder(StreamKind::TeacherPresentation) == seq![
            (854u16, 480u16, 10u8, 700u32),
            (1280u16, 720u16, 20u8, 1_500u32),
            (1280u16, 720u16, 30u8, 2_500u32),
            (1920u16, 1080u16, 30u8, 5_000u32),
        ],
{
}

/// The sizes, frame rates and bit rates of a workload, from the worst tier to the best.
pub open spec fn ladder(kind: StreamKind) -> Seq<(u16, u16, u8, u32)> {
    seq![
        QualityTier::Emergency,
        QualityTier::Low,
        QualityTier::Medium,
        QualityTier::High,
    ].map_values(
        |tier: QualityTier|
            {
                let profile = spec_profile_for(kind, tier);
                (profile.width, profile.height, profile.fps, profile.bitrate_kbps)
            },
    )
}

/// What is active stays while it is confirmed, and then nothing is pending. Another candidate
/// counts from one, a repeated one counts on, and it takes over with the sample that makes its
/// number full.
pub proof fn law_candidates_count_up<T>(current: T, candidate: T, pending: Pending<T>, required: u8)
    ensures
        ({
            let settled = spec_settle(current, candidate, pending, required);
            let count: int = if pending.candidate == Some(candidate) {
                if pending.samples < u8::MAX {
                    pending.samples + 1
                } else {
                    255
                }
            } else {
                1
            };
            &&& candidate == current ==> settled.0 == current && settled.1.candidate is None
                && settled.1.samples == 0
            &&& candidate != current && count < required ==> settled.0 == current
                && settled.1.candidate == Some(candidate) && settled.1.samples == count
            &&& candidate != current && count >= required ==> settled.0 == candidate
                && settled.1.candidate is None && settled.1.samples == 0
        }),
{
}

/// The transport that is taken up belongs to the tier that is active after the sample, not to the
/// one that the sample alone would call for; where no waiting is asked for it is that one at once.
pub proof fn law_transport_belongs_to_the_active_tier(
    controller: ControllerView,
    metrics: NetworkMetrics,
)
    requires
        controller.current is Some,
    ensures
        ({
            let before = controller.current->Some_0;
            let after = controller.spec_observed(metrics).current->Some_0;
            let fitting = spec_decision(controller.kind, metrics, after.tier).transport;
            &&& after.transport == fitting || after.transport == before.transport
            &&& controller.hysteresis.transport_samples <= 1 ==> after.transport == fitting
            &&& after.tier == before.tier || after.tier == controller.policy.spec_tier(metrics)
            &&& controller.policy.spec_tier(metrics) == before.tier ==> after.tier == before.tier
            &&& controller.policy.spec_tier(metrics).spec_rank() < before.tier.spec_rank()
                && controller.hysteresis.degrade_samples <= 1 ==> after.tier
                == controller.policy.spec_tier(metrics)
            &&& controller.policy.spec_tier(metrics).spec_rank() > before.tier.spec_rank()
                && controller.hysteresis.recover_samples <= 1 ==> after.tier
                == controller.policy.spec_tier(metrics)
        }),
{
}

} // verus!
