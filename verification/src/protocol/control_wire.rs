//! The messages of the control plane.

use vstd::prelude::*;

verus! {

#[derive(Debug, Clone, Copy, PartialEq, Eq, Structural)]
pub struct ProtocolVersion {
    pub major: u32,
    pub minor: u32,
}

/// What carries every message: the session it belongs to, its number in that session, and
/// the request that it makes or answers.
#[derive(Debug, Clone, PartialEq, Eq)]
pub struct ControlEnvelope {
    pub control_session_id: u64,
    pub sequence: u64,
    pub protocol_version: Option<ProtocolVersion>,
    pub request_id: u64,
    pub payload: Option<Payload>,
}

#[derive(Debug, Clone, PartialEq, Eq)]
pub enum Payload {
    Hello(Hello),
    HelloAck(HelloAck),
    Heartbeat(Heartbeat),
    HeartbeatAck(HeartbeatAck),
    InputEvent(InputEvent),
    ClipboardReadRequest(ClipboardReadRequest),
    ClipboardWrite(ClipboardWrite),
    EnrollmentRequest(EnrollmentRequest),
    EnrollmentResult(EnrollmentResult),
    StreamOffer(StreamOffer),
    StreamReconfigure(StreamReconfigure),
    PresentationStart(PresentationStart),
    PresentationStop(PresentationStop),
    PresentationStatus(PresentationStatus),
    PresentationKeyGrant(PresentationKeyGrant),
    PresentationKeyAck(PresentationKeyAck),
}

#[derive(Debug, Clone, PartialEq, Eq)]
pub struct Hello {
    pub version: Option<ProtocolVersion>,
    pub device_id: Vec<u8>,
    pub hostname: String,
    pub capabilities: Vec<i32>,
    pub app_version: String,
    pub role: i32,
    pub credential_fingerprint_sha256: Vec<u8>,
}

#[derive(Debug, Clone, PartialEq, Eq)]
pub struct HelloAck {
    pub accepted: bool,
    pub negotiated_version: Option<ProtocolVersion>,
    pub control_session_id: u64,
    pub negotiated_capabilities: Vec<i32>,
    pub reject_reason: i32,
    pub diagnostic: String,
}

#[derive(Debug, Clone, Copy, PartialEq, Eq, Structural)]
pub struct Heartbeat {
    pub monotonic_time_us: u64,
    pub control_session_id: u64,
    pub media: i32,
}

#[derive(Debug, Clone, Copy, PartialEq, Eq, Structural)]
pub struct HeartbeatAck {
    pub heartbeat_sequence: u64,
    pub monotonic_time_us: u64,
}

#[derive(Debug, Clone, Copy, PartialEq, Eq, Structural)]
pub struct InputEvent {
    pub sequence: u64,
    pub timestamp_us: u64,
    pub event: Option<InputAction>,
}

/// What an input event does.
#[derive(Debug, Clone, Copy, PartialEq, Eq, Structural)]
pub enum InputAction {
    ReleaseAll(ReleaseAllInput),
}

#[derive(Debug, Clone, Copy, PartialEq, Eq, Structural)]
pub struct ReleaseAllInput {}

#[derive(Debug, Clone, Copy, PartialEq, Eq, Structural)]
pub struct ClipboardReadRequest {}

#[derive(Debug, Clone, PartialEq, Eq)]
pub struct ClipboardWrite {
    pub text_utf8: String,
}

#[derive(Debug, Clone, PartialEq, Eq)]
pub struct EnrollmentRequest {
    pub principal_id: Vec<u8>,
    pub role: i32,
    pub pkcs10_csr_der: Vec<u8>,
    pub client_nonce: Vec<u8>,
    pub display_name: String,
}

#[derive(Debug, Clone, PartialEq, Eq)]
pub struct EnrollmentResult {
    pub enrollment_id: Vec<u8>,
    pub status: i32,
    pub certificate_chain_der: Vec<Vec<u8>>,
    pub credential_fingerprint_sha256: Vec<u8>,
    pub not_after_unix_ms: u64,
    pub diagnostic: String,
    pub principal_id: Vec<u8>,
    pub csr_sha256: Vec<u8>,
}

#[derive(Debug, Clone, Copy, PartialEq, Eq, Structural)]
pub struct VideoProfile {
    pub width: u32,
    pub height: u32,
    pub fps: u32,
    pub bitrate_kbps: u32,
    pub codec: i32,
}

#[derive(Debug, Clone, PartialEq, Eq)]
pub struct StreamOffer {
    pub stream_id: u64,
    pub kind: i32,
    pub transport: i32,
    pub profile: Option<VideoProfile>,
    pub transport_parameters: Vec<u8>,
}

#[derive(Debug, Clone, PartialEq, Eq)]
pub struct StreamReconfigure {
    pub stream_id: u64,
    pub profile: Option<VideoProfile>,
    pub transport: i32,
    pub transport_parameters: Vec<u8>,
}

#[derive(Debug, Clone, Copy, PartialEq, Eq, Structural)]
pub struct PresentationStart {
    pub presentation_id: u64,
    pub stream_id: u64,
}

#[derive(Debug, Clone, Copy, PartialEq, Eq, Structural)]
pub struct PresentationStop {
    pub presentation_id: u64,
}

#[derive(Debug, Clone, PartialEq, Eq)]
pub struct PresentationStatus {
    pub presentation_id: u64,
    pub stream_id: u64,
    pub state: i32,
    pub diagnostic: String,
}

#[derive(Debug, Clone, PartialEq, Eq)]
pub struct PresentationKeyGrant {
    pub presentation_id: u64,
    pub stream_id: u64,
    pub epoch: u32,
    pub key_material: Vec<u8>,
}

#[derive(Debug, Clone, Copy, PartialEq, Eq, Structural)]
pub struct PresentationKeyAck {
    pub presentation_id: u64,
    pub stream_id: u64,
    pub epoch: u32,
}

#[derive(Debug, Clone, Copy, PartialEq, Eq, Structural)]
pub enum PresentationState {
    Unspecified,
    Active,
    Rejected,
}

impl PresentationState {
    /// The number on the wire.
    pub open spec fn spec_number(self) -> i32 {
        match self {
            PresentationState::Unspecified => 0,
            PresentationState::Active => 1,
            PresentationState::Rejected => 2,
        }
    }

    /// The number on the wire.
    #[must_use]
    pub fn number(self) -> (number: i32)
        ensures
            number == self.spec_number(),
    {
        match self {
            PresentationState::Unspecified => 0,
            PresentationState::Active => 1,
            PresentationState::Rejected => 2,
        }
    }

    /// What has a number on the wire.
    #[must_use]
    pub fn from_number(number: i32) -> (found: Option<Self>)
        ensures
            match found {
                Some(value) => value.spec_number() == number,
                None => forall|value: Self| #[trigger] value.spec_number() != number,
            },
    {
        match number {
            0 => Some(PresentationState::Unspecified),
            1 => Some(PresentationState::Active),
            2 => Some(PresentationState::Rejected),
            _ => None,
        }
    }
}

#[derive(Debug, Clone, Copy, PartialEq, Eq, Structural)]
pub enum StreamKind {
    Unspecified,
    Monitoring,
    Interactive,
    Presentation,
}

impl StreamKind {
    /// The number on the wire.
    pub open spec fn spec_number(self) -> i32 {
        match self {
            StreamKind::Unspecified => 0,
            StreamKind::Monitoring => 1,
            StreamKind::Interactive => 2,
            StreamKind::Presentation => 3,
        }
    }

    /// The number on the wire.
    #[must_use]
    pub fn number(self) -> (number: i32)
        ensures
            number == self.spec_number(),
    {
        match self {
            StreamKind::Unspecified => 0,
            StreamKind::Monitoring => 1,
            StreamKind::Interactive => 2,
            StreamKind::Presentation => 3,
        }
    }
}

#[derive(Debug, Clone, Copy, PartialEq, Eq, Structural)]
pub enum MediaTransport {
    Unspecified,
    UdpMulticast,
    UdpUnicast,
    QuicDatagram,
    Webrtc,
    ReliableFallback,
}

impl MediaTransport {
    /// The number on the wire.
    pub open spec fn spec_number(self) -> i32 {
        match self {
            MediaTransport::Unspecified => 0,
            MediaTransport::UdpMulticast => 1,
            MediaTransport::UdpUnicast => 2,
            MediaTransport::QuicDatagram => 3,
            MediaTransport::Webrtc => 4,
            MediaTransport::ReliableFallback => 5,
        }
    }

    /// The number on the wire.
    #[must_use]
    pub fn number(self) -> (number: i32)
        ensures
            number == self.spec_number(),
    {
        match self {
            MediaTransport::Unspecified => 0,
            MediaTransport::UdpMulticast => 1,
            MediaTransport::UdpUnicast => 2,
            MediaTransport::QuicDatagram => 3,
            MediaTransport::Webrtc => 4,
            MediaTransport::ReliableFallback => 5,
        }
    }

    /// What has a number on the wire.
    #[must_use]
    pub fn from_number(number: i32) -> (found: Option<Self>)
        ensures
            match found {
                Some(value) => value.spec_number() == number,
                None => forall|value: Self| #[trigger] value.spec_number() != number,
            },
    {
        match number {
            0 => Some(MediaTransport::Unspecified),
            1 => Some(MediaTransport::UdpMulticast),
            2 => Some(MediaTransport::UdpUnicast),
            3 => Some(MediaTransport::QuicDatagram),
            4 => Some(MediaTransport::Webrtc),
            5 => Some(MediaTransport::ReliableFallback),
            _ => None,
        }
    }
}

#[derive(Debug, Clone, Copy, PartialEq, Eq, Structural)]
pub enum VideoCodec {
    Unspecified,
    H264,
    Hevc,
}

impl VideoCodec {
    /// The number on the wire.
    pub open spec fn spec_number(self) -> i32 {
        match self {
            VideoCodec::Unspecified => 0,
            VideoCodec::H264 => 1,
            VideoCodec::Hevc => 2,
        }
    }

    /// The number on the wire.
    #[must_use]
    pub fn number(self) -> (number: i32)
        ensures
            number == self.spec_number(),
    {
        match self {
            VideoCodec::Unspecified => 0,
            VideoCodec::H264 => 1,
            VideoCodec::Hevc => 2,
        }
    }
}

#[derive(Debug, Clone, Copy, PartialEq, Eq, Structural)]
pub enum MediaHealth {
    Unspecified,
    Idle,
    Starting,
    Streaming,
    Degraded,
    Recovering,
    Suspended,
    Failed,
}

impl MediaHealth {
    /// The number on the wire.
    pub open spec fn spec_number(self) -> i32 {
        match self {
            MediaHealth::Unspecified => 0,
            MediaHealth::Idle => 1,
            MediaHealth::Starting => 2,
            MediaHealth::Streaming => 3,
            MediaHealth::Degraded => 4,
            MediaHealth::Recovering => 5,
            MediaHealth::Suspended => 6,
            MediaHealth::Failed => 7,
        }
    }

    /// The number on the wire.
    #[must_use]
    pub fn number(self) -> (number: i32)
        ensures
            number == self.spec_number(),
    {
        match self {
            MediaHealth::Unspecified => 0,
            MediaHealth::Idle => 1,
            MediaHealth::Starting => 2,
            MediaHealth::Streaming => 3,
            MediaHealth::Degraded => 4,
            MediaHealth::Recovering => 5,
            MediaHealth::Suspended => 6,
            MediaHealth::Failed => 7,
        }
    }
}

/// No two values of a kind share a number on the wire, and only what is unspecified has zero.
pub proof fn law_wire_numbers_are_told_apart(
    states: (PresentationState, PresentationState),
    kinds: (StreamKind, StreamKind),
    transports: (MediaTransport, MediaTransport),
    codecs: (VideoCodec, VideoCodec),
    healths: (MediaHealth, MediaHealth),
)
    ensures
        states.0.spec_number() == states.1.spec_number() <==> states.0 == states.1,
        kinds.0.spec_number() == kinds.1.spec_number() <==> kinds.0 == kinds.1,
        transports.0.spec_number() == transports.1.spec_number() <==> transports.0 == transports.1,
        codecs.0.spec_number() == codecs.1.spec_number() <==> codecs.0 == codecs.1,
        healths.0.spec_number() == healths.1.spec_number() <==> healths.0 == healths.1,
        states.0.spec_number() == 0 <==> states.0 is Unspecified,
        kinds.0.spec_number() == 0 <==> kinds.0 is Unspecified,
        transports.0.spec_number() == 0 <==> transports.0 is Unspecified,
        codecs.0.spec_number() == 0 <==> codecs.0 is Unspecified,
        healths.0.spec_number() == 0 <==> healths.0 is Unspecified,
        0 <= states.0.spec_number() <= 2,
        0 <= kinds.0.spec_number() <= 3,
        0 <= transports.0.spec_number() <= 5,
        0 <= codecs.0.spec_number() <= 2,
        0 <= healths.0.spec_number() <= 7,
{
}

} // verus!
