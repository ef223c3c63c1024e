//! Encoded video: what encoders can do, keyframe requests, pacing and distribution.

use crate::measure::Measure;
use vstd::prelude::*;

pub mod distributor;
pub mod rendition;

verus! {

#[derive(Debug, Clone, Copy, PartialEq, Eq, Structural)]
pub enum PixelFormat {
    Bgra8,
    Nv12,
    P010,
}

#[derive(Debug, Clone, Copy, PartialEq, Eq, Structural)]
pub enum Codec {
    H264,
    Hevc,
    Av1,
}

#[derive(Debug, Clone, Copy, PartialEq, Eq, Structural)]
pub struct VideoFormat {
    pub width: u16,
    pub height: u16,
    pub fps: u8,
    pub pixel_format: PixelFormat,
}

/// What was measured of an encoder.
#[derive(Debug, Clone, PartialEq)]
pub struct EncoderProbeResult {
    pub backend: String,
    pub codec: Codec,
    pub advertised_hardware: bool,
    pub gpu_native_input: bool,
    pub low_latency_accepted: bool,
    pub sustained_fps: Measure,
    pub p50_encode_ms: Measure,
    pub p95_encode_ms: Measure,
    pub reset_ok: bool,
    pub dynamic_bitrate_ok: bool,
    pub keyframe_request_ok: bool,
}

#[derive(Debug, Clone, Copy, PartialEq, Eq, PartialOrd, Ord, Structural)]
pub enum EncoderClass {
    Unsupported,
    Compatibility,
    Presentation1080p30,
    Presentation1080p60,
}

/// 0.0 as a bit pattern.
pub const MEASURE_ZERO: u32 = 0x0000_0000;

/// 12.0 as a bit pattern.
pub const MEASURE_12: u32 = 0x4140_0000;

/// 15.0 as a bit pattern.
pub const MEASURE_15: u32 = 0x4170_0000;

/// 25.0 as a bit pattern.
pub const MEASURE_25: u32 = 0x41C8_0000;

/// 29.0 as a bit pattern.
pub const MEASURE_29: u32 = 0x41E8_0000;

/// 58.0 as a bit pattern.
pub const MEASURE_58: u32 = 0x4268_0000;

/// 60.0 as a bit pattern.
pub const MEASURE_60: u32 = 0x4270_0000;

impl EncoderProbeResult {
    /// The encoder was measured to keep up with `fps` frames, each within `ms` at the
    /// 95th percentile.
    pub open spec fn spec_keeps_up(self, fps: u32, ms: u32) -> bool {
        &&& self.sustained_fps.spec_at_least(Measure::of(fps))
        &&& Measure::of(ms).spec_at_least(self.p95_encode_ms)
    }

    /// What the encoder can be used for: only what it was measured to do.
    pub open spec fn spec_classify(self) -> EncoderClass {
        let hardware = self.gpu_native_input && self.advertised_hardware;
        let unmeasured = Measure::of(MEASURE_ZERO).spec_at_least(self.p95_encode_ms);
        if self.codec != Codec::H264 || !self.reset_ok || !self.keyframe_request_ok || unmeasured {
            EncoderClass::Unsupported
        } else if self.spec_keeps_up(MEASURE_58, MEASURE_12) && hardware {
            EncoderClass::Presentation1080p60
        } else if self.spec_keeps_up(MEASURE_29, MEASURE_25) && hardware {
            EncoderClass::Presentation1080p30
        } else if self.spec_keeps_up(MEASURE_15, MEASURE_60) {
            EncoderClass::Compatibility
        } else {
            EncoderClass::Unsupported
        }
    }

    fn keeps_up(&self, fps: u32, ms: u32) -> (kept: bool)
        ensures
            kept == self.spec_keeps_up(fps, ms),
    {
        self.sustained_fps.at_least(Measure::from_bits(fps)) && Measure::from_bits(ms).at_least(
            self.p95_encode_ms,
        )
    }

    #[must_use]
    pub fn classify(&self) -> (class: EncoderClass)
        ensures
            class == self.spec_classify(),
    {
        if self.codec != Codec::H264 || !self.reset_ok || !self.keyframe_request_ok
            || Measure::from_bits(MEASURE_ZERO).at_least(self.p95_encode_ms) {
            return EncoderClass::Unsupported;
        }
        let hardware = self.gpu_native_input && self.advertised_hardware;
        if self.keeps_up(MEASURE_58, MEASURE_12) && hardware {
            return EncoderClass::Presentation1080p60;
        }
        if self.keeps_up(MEASURE_29, MEASURE_25) && hardware {
            return EncoderClass::Presentation1080p30;
        }
        if self.keeps_up(MEASURE_15, MEASURE_60) {
            EncoderClass::Compatibility
        } else {
            EncoderClass::Unsupported
        }
    }
}

#[derive(Debug, Clone, Copy, PartialEq, Eq, Structural)]
pub struct EncodedFrameMeta {
    pub frame_id: u64,
    pub timestamp_us: u64,
    pub keyframe: bool,
}

/// Coalesces many receiver keyframe requests into a single encoder request.
#[derive(Debug)]
pub struct KeyframeCoordinator {
    min_interval_us: u64,
    last_issued_us: Option<u64>,
    pending_requests: u32,
}

/// What a coordinator knows.
pub struct CoordinatorView {
    pub min_interval_us: u64,
    pub last_issued_us: Option<u64>,
    pub pending_requests: u32,
}

impl View for KeyframeCoordinator {
    type V = CoordinatorView;

    closed spec fn view(&self) -> CoordinatorView {
        CoordinatorView {
            min_interval_us: self.min_interval_us,
            last_issued_us: self.last_issued_us,
            pending_requests: self.pending_requests,
        }
    }
}

impl CoordinatorView {
    /// A keyframe is due: one was asked for, and the last is long enough ago.
    pub open spec fn spec_is_due(self, now_us: u64) -> bool {
        self.pending_requests > 0 && (self.last_issued_us matches Some(last)
            ==> crate::counting::elapsed(now_us, last) >= self.min_interval_us)
    }
}

impl KeyframeCoordinator {
    #[must_use]
    pub fn new(min_interval_us: u64) -> (coordinator: Self)
        ensures
            coordinator@ == (CoordinatorView {
                min_interval_us,
                last_issued_us: None,
                pending_requests: 0,
            }),
    {
        KeyframeCoordinator { min_interval_us, last_issued_us: None, pending_requests: 0 }
    }

    /// Takes note of one receiver's request.
    pub fn request(&mut self)
        ensures
            final(self)@ == (CoordinatorView {
                pending_requests: if old(self)@.pending_requests < u32::MAX {
                    (old(self)@.pending_requests + 1) as u32
                } else {
                    u32::MAX
                },
                ..old(self)@
            }),
    {
        self.pending_requests = self.pending_requests.saturating_add(1);
    }

    #[must_use]
    pub fn pending_requests(&self) -> (pending: u32)
        ensures
            pending == self@.pending_requests,
    {
        self.pending_requests
    }

    /// Returns true when the encoder should produce one new keyframe now. That one
    /// satisfies every request so far.
    pub fn poll(&mut self, now_us: u64) -> (due: bool)
        ensures
            due == old(self)@.spec_is_due(now_us),
            final(self)@ == if due {
                CoordinatorView {
                    last_issued_us: Some(now_us),
                    pending_requests: 0,
                    ..old(self)@
                }
            } else {
                old(self)@
            },
    {
        if self.pending_requests == 0 {
            return false;
        }
        let allowed = match self.last_issued_us {
            Some(last) => now_us.saturating_sub(last) >= self.min_interval_us,
            None => true,
        };
        if !allowed {
            return false;
        }
        self.last_issued_us = Some(now_us);
        self.pending_requests = 0;
        true
    }
}

/// After a keyframe was issued, none is due before the interval has passed, however many are
/// asked for.
pub proof fn law_keyframes_keep_their_distance(
    coordinator: CoordinatorView,
    issued_us: u64,
    now_us: u64,
)
    requires
        coordinator.last_issued_us == Some(issued_us),
        crate::counting::elapsed(now_us, issued_us) < coordinator.min_interval_us,
    ensures
        !coordinator.spec_is_due(now_us),
{
}

/// Lets frames through at most at a given rate.
#[derive(Debug, Clone, Copy, PartialEq, Eq, Structural)]
pub struct FramePacer {
    frame_interval_us: u64,
    next_due_us: Option<u64>,
}

/// What a pacer knows.
pub struct PacerView {
    pub frame_interval_us: u64,
    pub next_due_us: Option<u64>,
}

impl View for FramePacer {
    type V = PacerView;

    closed spec fn view(&self) -> PacerView {
        PacerView { frame_interval_us: self.frame_interval_us, next_due_us: self.next_due_us }
    }
}

impl PacerView {
    /// A frame may pass.
    pub open spec fn spec_may_emit(self, now_us: u64) -> bool {
        self.next_due_us matches Some(due) ==> now_us >= due
    }

    /// The pacer after a frame passed: the next one waits for a full interval from now on,
    /// so that missed frames are not made up for in a burst.
    pub open spec fn spec_emitted(self, now_us: u64) -> Self {
        PacerView {
            next_due_us: Some(
                crate::counting::saturating_sum(now_us, self.frame_interval_us as int),
            ),
            ..self
        }
    }
}

impl FramePacer {
    #[must_use]
    pub fn new(fps: u32) -> (pacer: Self)
        requires
            fps > 0,
        ensures
            pacer@ == (PacerView {
                frame_interval_us: (1_000_000int / fps as int) as u64,
                next_due_us: None,
            }),
    {
        FramePacer { frame_interval_us: 1_000_000 / fps as u64, next_due_us: None }
    }

    /// Returns whether a frame should be emitted at `now_us` and advances the pacing clock.
    pub fn should_emit(&mut self, now_us: u64) -> (emit: bool)
        ensures
            emit == old(self)@.spec_may_emit(now_us),
            final(self)@ == if emit {
                old(self)@.spec_emitted(now_us)
            } else {
                old(self)@
            },
    {
        match self.next_due_us {
            Some(next_due) => {
                if now_us < next_due {
                    return false;
                }
            },
            None => {},
        }
        self.next_due_us = Some(now_us.saturating_add(self.frame_interval_us));
        true
    }
}

/// No two frames pass within one interval, as far as the clock counts.
pub proof fn law_pacer_never_bursts(pacer: PacerView, first_us: u64, second_us: u64)
    requires
        second_us < crate::counting::saturating_sum(first_us, pacer.frame_interval_us as int),
    ensures
        !pacer.spec_emitted(first_us).spec_may_emit(second_us),
{
}

/// Each requirement binds by itself: without H.264, a reset, key frames on request or a measured
/// time an encoder is unsupported, and without hardware and input on the graphics device it
/// presents nothing at full size.
pub proof fn law_each_encoder_requirement_binds(probe: EncoderProbeResult)
    ensures
        ({
            let class = probe.spec_classify();
            let full = class == EncoderClass::Presentation1080p30 || class
                == EncoderClass::Presentation1080p60;
            &&& probe.codec != Codec::H264 ==> class == EncoderClass::Unsupported
            &&& !probe.reset_ok ==> class == EncoderClass::Unsupported
            &&& !probe.keyframe_request_ok ==> class == EncoderClass::Unsupported
            &&& probe.p95_encode_ms.bits == 0 ==> class == EncoderClass::Unsupported
            &&& probe.p95_encode_ms.bits >= 0x8000_0000 ==> class == EncoderClass::Unsupported
            &&& !probe.gpu_native_input ==> !full
            &&& !probe.advertised_hardware ==> !full
            &&& class == EncoderClass::Presentation1080p60 ==> probe.sustained_fps.spec_at_least(
                Measure::of(0x4268_0000),
            ) && Measure::of(0x4140_0000).spec_at_least(probe.p95_encode_ms)
            &&& full ==> probe.sustained_fps.spec_at_least(Measure::of(0x41E8_0000))
                && Measure::of(0x41C8_0000).spec_at_least(probe.p95_encode_ms)
            &&& class != EncoderClass::Unsupported ==> probe.sustained_fps.spec_at_least(
                Measure::of(0x4170_0000),
            ) && Measure::of(0x4270_0000).spec_at_least(probe.p95_encode_ms)
        }),
{
}

/// An encoder is not rated lower than it measures: 58 frames in 12 ms with hardware make it fit
/// for 60 a second, 29 in 25 ms for 30, and 15 in 60 ms do without hardware.
pub proof fn law_fit_encoders_are_used(probe: EncoderProbeResult)
    requires
        probe.codec == Codec::H264,
        probe.reset_ok,
        probe.keyframe_request_ok,
        0 < probe.p95_encode_ms.bits <= 0x7F80_0000,
        probe.sustained_fps.bits <= 0x7F80_0000,
    ensures
        ({
            let class = probe.spec_classify();
            let hardware = probe.gpu_native_input && probe.advertised_hardware;
            let fps = probe.sustained_fps.bits;
            let ms = probe.p95_encode_ms.bits;
            &&& hardware && fps >= 0x4268_0000 && ms <= 0x4140_0000 ==> class
                == EncoderClass::Presentation1080p60
            &&& hardware && fps >= 0x41E8_0000 && ms <= 0x41C8_0000 ==> class
                == EncoderClass::Presentation1080p60 || class == EncoderClass::Presentation1080p30
            &&& fps >= 0x4170_0000 && ms <= 0x4270_0000 ==> class != EncoderClass::Unsupported
        }),
{
}

/// A key frame that was asked for is due at once where none was made before, and again once the
/// interval is over; without a request none is.
pub proof fn law_requested_keyframes_come(coordinator: CoordinatorView, now_us: u64)
    ensures
        coordinator.pending_requests == 0 ==> !coordinator.spec_is_due(now_us),
        coordinator.pending_requests > 0 && coordinator.last_issued_us is None
            ==> coordinator.spec_is_due(now_us),
        coordinator.pending_requests > 0 && coordinator.last_issued_us is Some && now_us
            >= coordinator.last_issued_us->Some_0 + coordinator.min_interval_us
            ==> coordinator.spec_is_due(now_us),
{
}

/// The first frame goes out at once, and the next as soon as the interval is over.
pub proof fn law_pacer_lets_frames_go(pacer: PacerView, first_us: u64, second_us: u64)
    ensures
        pacer.next_due_us is None ==> pacer.spec_may_emit(first_us),
        second_us >= first_us + pacer.frame_interval_us ==> pacer.spec_emitted(
            first_us,
        ).spec_may_emit(second_us),
        pacer.spec_emitted(first_us).frame_interval_us == pacer.frame_interval_us,
{
}

} // verus!
