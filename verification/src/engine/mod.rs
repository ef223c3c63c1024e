//! What a stream is, how healthy it is, and what is decided from that.

use crate::measure::Measure;
use vstd::prelude::*;

pub mod adaptation;
pub mod cohort;
pub mod keyframe;
pub mod metrics;
pub mod presence;
pub mod queue;
pub mod recovery;

verus! {

/// High-level media workloads supported by ClassMesh.
#[derive(Debug, Clone, Copy, PartialEq, Eq, Structural)]
pub enum StreamKind {
    Monitoring,
    Interactive,
    TeacherPresentation,
}

/// Control connectivity is intentionally independent from media health.
#[derive(Debug, Clone, Copy, PartialEq, Eq, Structural)]
pub enum ControlState {
    Disconnected,
    Connecting,
    Authenticated,
    Recovering,
}

/// Media failures must be recoverable without automatically dropping control.
#[derive(Debug, Clone, Copy, PartialEq, Eq, Structural)]
pub enum MediaState {
    Idle,
    Starting,
    Streaming,
    Degraded,
    Recovering,
    Stopped,
}

/// Transport selected for a specific receiver or presentation cohort.
#[derive(Debug, Clone, Copy, PartialEq, Eq, Structural)]
pub enum MediaTransport {
    UdpMulticast,
    UdpUnicast,
    QuicDatagram,
    WebRtc,
    ReliableFallback,
}

/// What was measured on the way to a receiver.
#[derive(Debug, Clone, Copy, PartialEq, Eq, Structural)]
pub struct NetworkMetrics {
    pub rtt_ms: Measure,
    pub packet_loss: Measure,
    pub jitter_ms: Measure,
    pub decode_fps: Measure,
    pub queue_delay_ms: Measure,
    pub estimated_mbps: Measure,
    pub multicast_viable: bool,
    pub wireless: bool,
}

/// The bit pattern of 0.0.
pub const ZERO: u32 = 0;

/// The bit pattern of 1.0.
pub const ONE: u32 = 0x3F80_0000;

impl NetworkMetrics {
    /// No measurement is negative or no number, and the loss is a fraction.
    pub open spec fn spec_is_valid(self) -> bool {
        let zero = Measure::of(ZERO);
        &&& self.rtt_ms.spec_at_least(zero)
        &&& self.packet_loss.spec_at_least(zero)
        &&& Measure::of(ONE).spec_at_least(self.packet_loss)
        &&& self.jitter_ms.spec_at_least(zero)
        &&& self.decode_fps.spec_at_least(zero)
        &&& self.queue_delay_ms.spec_at_least(zero)
        &&& self.estimated_mbps.spec_at_least(zero)
    }

    #[must_use]
    pub fn is_valid(self) -> (valid: bool)
        ensures
            valid == self.spec_is_valid(),
    {
        let zero = Measure::from_bits(ZERO);
        self.rtt_ms.at_least(zero) && self.packet_loss.at_least(zero) && Measure::from_bits(
            ONE,
        ).at_least(self.packet_loss) && self.jitter_ms.at_least(zero) && self.decode_fps.at_least(
            zero,
        ) && self.queue_delay_ms.at_least(zero) && self.estimated_mbps.at_least(zero)
    }
}

/// One measurement that is negative or no number is enough to make all of them invalid, as is a
/// loss of more than everything; and without any such they are valid.
pub proof fn law_every_measurement_counts(metrics: NetworkMetrics, i: int)
    requires
        0 <= i < 6,
    ensures
        ({
            let all = seq![
                metrics.rtt_ms,
                metrics.packet_loss,
                metrics.jitter_ms,
                metrics.decode_fps,
                metrics.queue_delay_ms,
                metrics.estimated_mbps,
            ];
            let sound = |m: Measure| m.bits <= 0x7F80_0000 || m.bits == 0x8000_0000;
            &&& !sound(all[i]) ==> !metrics.spec_is_valid()
            &&& 0x3F80_0000 < metrics.packet_loss.bits < 0x8000_0000 ==> !metrics.spec_is_valid()
            &&& (forall|j: int| 0 <= j < 6 ==> sound(#[trigger] all[j])) && (
            metrics.packet_loss.bits <= 0x3F80_0000 || metrics.packet_loss.bits == 0x8000_0000)
                ==> metrics.spec_is_valid()
        }),
{
    let all = seq![
        metrics.rtt_ms,
        metrics.packet_loss,
        metrics.jitter_ms,
        metrics.decode_fps,
        metrics.queue_delay_ms,
        metrics.estimated_mbps,
    ];
    assert(all[0] == metrics.rtt_ms);
    assert(all[1] == metrics.packet_loss);
    assert(all[2] == metrics.jitter_ms);
    assert(all[3] == metrics.decode_fps);
    assert(all[4] == metrics.queue_delay_ms);
    assert(all[5] == metrics.estimated_mbps);
}

} // verus!
