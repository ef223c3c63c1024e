//! Wire formats and the version they are spoken in.

use crate::ordered::OrderedKey;
use vstd::prelude::*;
use vstd::string::StringExecFns;

pub mod clipboard;
pub mod control_wire;
pub mod feedback;
pub mod group_media_control;
pub mod media;
pub mod presentation;

verus! {

/// The major part of the protocol version that this library speaks.
pub const PROTOCOL_MAJOR: u16 = 0;

/// The minor part of the protocol version that this library speaks.
pub const PROTOCOL_MINOR: u16 = 1;

/// A protocol version. Minor versions are additive within a major version.
#[derive(Debug, Clone, Copy, PartialEq, Eq, PartialOrd, Ord, Structural)]
pub struct ProtocolVersion {
    pub major: u16,
    pub minor: u16,
}

impl ProtocolVersion {
    /// The protocol version that this library speaks.
    #[must_use]
    pub fn current() -> (version: Self)
        ensures
            version.major == PROTOCOL_MAJOR,
            version.minor == PROTOCOL_MINOR,
    {
        ProtocolVersion { major: PROTOCOL_MAJOR, minor: PROTOCOL_MINOR }
    }

    /// Two versions are compatible where their major versions are the same.
    #[must_use]
    pub fn is_compatible_with(self, other: Self) -> (compatible: bool)
        ensures
            compatible == (self.major == other.major),
    {
        self.major == other.major
    }

    /// The newest version that both sides speak: none where the major versions differ,
    /// and otherwise that major version with the lower of the two minor versions.
    pub open spec fn spec_negotiate(self, other: Self) -> Option<Self> {
        if self.major != other.major {
            None
        } else if self.minor < other.minor {
            Some(self)
        } else {
            Some(other)
        }
    }

    /// Negotiates the newest mutually compatible protocol version.
    ///
    /// A major-version mismatch is explicit incompatibility rather than an implicit fallback.
    #[must_use]
    pub fn negotiate(self, other: Self) -> (version: Option<Self>)
        ensures
            version == self.spec_negotiate(other),
    {
        if self.major != other.major {
            return None;
        }
        Some(
            ProtocolVersion {
                major: self.major,
                minor: if self.minor < other.minor {
                    self.minor
                } else {
                    other.minor
                },
            },
        )
    }
}

impl ProtocolVersion {
    /// The version as it is written for developers.
    pub open spec fn spec_debug(self) -> Seq<char> {
        "ProtocolVersion { major: "@ + crate::text::decimal(self.major as nat) + ", minor: "@
            + crate::text::decimal(self.minor as nat) + " }"@
    }

    /// Appends the version as it is written for developers.
    pub fn push_debug(&self, text: &mut String)
        ensures
            final(text)@ == old(text)@ + self.spec_debug(),
    {
        text.append("ProtocolVersion { major: ");
        crate::text::push_decimal(text, self.major as u64);
        text.append(", minor: ");
        crate::text::push_decimal(text, self.minor as u64);
        text.append(" }");
        proof {
            assert(text@ =~= old(text)@ + self.spec_debug());
        }
    }
}

/// What a peer is able to do.
#[derive(Debug, Clone, Copy, PartialEq, Eq, PartialOrd, Ord, Hash, Structural)]
pub enum Capability {
    ServiceSessionWorker,
    DxgiCapture,
    WindowsGraphicsCapture,
    H264HardwareEncode,
    H264HardwareDecode,
    UdpMulticast,
    UdpUnicast,
    QuicDatagram,
    WebRtc,
    LocalSfu,
    ClipboardText,
    TeacherPresentation,
    SframeGroupMedia,
}

impl Capability {
    /// The number on the wire. A capability without one is not announced in a hello.
    pub open spec fn spec_number(self) -> Option<i32> {
        match self {
            Capability::ServiceSessionWorker => Some(1),
            Capability::DxgiCapture => Some(2),
            Capability::WindowsGraphicsCapture => Some(3),
            Capability::H264HardwareEncode => Some(4),
            Capability::H264HardwareDecode => Some(5),
            Capability::UdpMulticast => Some(6),
            Capability::UdpUnicast => Some(7),
            Capability::QuicDatagram => Some(8),
            Capability::WebRtc => Some(9),
            Capability::LocalSfu => Some(10),
            Capability::ClipboardText => Some(11),
            Capability::TeacherPresentation => None,
            Capability::SframeGroupMedia => None,
        }
    }

    /// The number on the wire, for what has one.
    #[must_use]
    pub fn number(self) -> (number: Option<i32>)
        ensures
            number == self.spec_number(),
    {
        match self {
            Capability::ServiceSessionWorker => Some(1),
            Capability::DxgiCapture => Some(2),
            Capability::WindowsGraphicsCapture => Some(3),
            Capability::H264HardwareEncode => Some(4),
            Capability::H264HardwareDecode => Some(5),
            Capability::UdpMulticast => Some(6),
            Capability::UdpUnicast => Some(7),
            Capability::QuicDatagram => Some(8),
            Capability::WebRtc => Some(9),
            Capability::LocalSfu => Some(10),
            Capability::ClipboardText => Some(11),
            Capability::TeacherPresentation => None,
            Capability::SframeGroupMedia => None,
        }
    }

    /// What has a number on the wire.
    #[must_use]
    pub fn from_number(number: i32) -> (found: Option<Self>)
        ensures
            match found {
                Some(value) => value.spec_number() == Some(number),
                None => forall|value: Self| #[trigger] value.spec_number() != Some(number),
            },
    {
        match number {
            1 => Some(Capability::ServiceSessionWorker),
            2 => Some(Capability::DxgiCapture),
            3 => Some(Capability::WindowsGraphicsCapture),
            4 => Some(Capability::H264HardwareEncode),
            5 => Some(Capability::H264HardwareDecode),
            6 => Some(Capability::UdpMulticast),
            7 => Some(Capability::UdpUnicast),
            8 => Some(Capability::QuicDatagram),
            9 => Some(Capability::WebRtc),
            10 => Some(Capability::LocalSfu),
            11 => Some(Capability::ClipboardText),
            _ => None,
        }
    }

    /// The place among the capabilities.
    pub open spec fn spec_place(self) -> int {
        match self {
            Capability::ServiceSessionWorker => 1,
            Capability::DxgiCapture => 2,
            Capability::WindowsGraphicsCapture => 3,
            Capability::H264HardwareEncode => 4,
            Capability::H264HardwareDecode => 5,
            Capability::UdpMulticast => 6,
            Capability::UdpUnicast => 7,
            Capability::QuicDatagram => 8,
            Capability::WebRtc => 9,
            Capability::LocalSfu => 10,
            Capability::ClipboardText => 11,
            Capability::TeacherPresentation => 12,
            Capability::SframeGroupMedia => 13,
        }
    }

    fn place(self) -> (place: u8)
        ensures
            place == self.spec_place(),
    {
        match self {
            Capability::ServiceSessionWorker => 1,
            Capability::DxgiCapture => 2,
            Capability::WindowsGraphicsCapture => 3,
            Capability::H264HardwareEncode => 4,
            Capability::H264HardwareDecode => 5,
            Capability::UdpMulticast => 6,
            Capability::UdpUnicast => 7,
            Capability::QuicDatagram => 8,
            Capability::WebRtc => 9,
            Capability::LocalSfu => 10,
            Capability::ClipboardText => 11,
            Capability::TeacherPresentation => 12,
            Capability::SframeGroupMedia => 13,
        }
    }
}

impl OrderedKey for Capability {
    open spec fn rank(self) -> int {
        self.spec_place()
    }

    proof fn lemma_rank_injective(a: Self, b: Self) {
    }

    fn precedes(&self, other: &Self) -> (before: bool) {
        self.place() < other.place()
    }
}

/// What a peer is.
#[derive(Debug, Clone, Copy, PartialEq, Eq, Structural)]
pub enum ControlRole {
    Teacher,
    StudentDevice,
    Administrator,
}

impl ControlRole {
    /// The number on the wire.
    pub open spec fn spec_number(self) -> i32 {
        match self {
            ControlRole::Teacher => 1,
            ControlRole::StudentDevice => 2,
            ControlRole::Administrator => 3,
        }
    }

    /// The number on the wire.
    #[must_use]
    pub fn number(self) -> (number: i32)
        ensures
            number == self.spec_number(),
    {
        match self {
            ControlRole::Teacher => 1,
            ControlRole::StudentDevice => 2,
            ControlRole::Administrator => 3,
        }
    }

    /// What has a number on the wire.
    #[must_use]
    pub fn from_number(number: i32) -> (found: Option<Self>)
        ensures
            match found {
                Some(value) => value.spec_number() == number,
                None => forall|value: Self| #[trigger] value.spec_number() != number,
            },
    {
        match number {
            1 => Some(ControlRole::Teacher),
            2 => Some(ControlRole::StudentDevice),
            3 => Some(ControlRole::Administrator),
            _ => None,
        }
    }
}

/// How a peer's media are.
#[derive(Debug, Clone, Copy, PartialEq, Eq, Structural)]
pub enum MediaHealth {
    Idle,
    Starting,
    Streaming,
    Degraded,
    Recovering,
    Suspended,
    Failed,
}

/// Both sides negotiate the same version, and a version agrees with itself.
pub proof fn law_negotiation_is_symmetric(a: ProtocolVersion, b: ProtocolVersion)
    ensures
        a.spec_negotiate(b) == b.spec_negotiate(a),
        a.spec_negotiate(a) == Some(a),
{
}

/// Two versions agree if and only if their major numbers do, and then on the smaller minor one.
pub proof fn law_negotiation_takes_the_smaller_minor(a: ProtocolVersion, b: ProtocolVersion)
    ensures
        a.major != b.major ==> a.spec_negotiate(b) is None,
        a.major == b.major ==> {
            &&& a.spec_negotiate(b) matches Some(agreed)
            &&& agreed.major == a.major
            &&& agreed.minor <= a.minor && agreed.minor <= b.minor
            &&& agreed.minor == a.minor || agreed.minor == b.minor
        },
{
}

/// No two capabilities share a number or a place, those with a number stand in its place, and
/// exactly the first eleven have one.
pub proof fn law_capabilities_are_told_apart(a: Capability, b: Capability)
    ensures
        a.spec_place() == b.spec_place() <==> a == b,
        a.spec_number() matches Some(number) ==> number == a.spec_place(),
        1 <= a.spec_place() <= 13,
        a.spec_number() is Some <==> a.spec_place() <= 11,
        a.spec_number() is None <==> a is TeacherPresentation || a is SframeGroupMedia,
{
}

/// No two roles share a number, and zero is nobody's.
pub proof fn law_roles_are_told_apart(a: ControlRole, b: ControlRole)
    ensures
        a.spec_number() == b.spec_number() <==> a == b,
        1 <= a.spec_number() <= 3,
{
}

} // verus!
