//! How a control session is established: what each side sends and what it accepts.

use super::peer_identity::{AuthenticatedPeerIdentity, PeerIdentityError};
use super::quic::ControlTransportError;
use super::{negotiate_hello, ControlHello, NegotiatedHello, NegotiatedView, NegotiationError};
use crate::bytes::{array32, copy_all};
use crate::ordered::OrderedSet;
use crate::protocol::control_wire::{
    ControlEnvelope, Hello, HelloAck, Payload, ProtocolVersion as WireProtocolVersion,
};
use crate::protocol::{Capability, ControlRole, ProtocolVersion};
use crate::security::PrincipalId;
use vstd::prelude::*;
use vstd::string::StringExecFns;

verus! {

pub const HELLO_REQUEST_ID: u64 = 1;

pub const FIRST_SEQUENCE: u64 = 1;

pub const REJECT_INCOMPATIBLE_PROTOCOL: i32 = 1;

pub const REJECT_INVALID_IDENTITY: i32 = 4;

#[derive(Debug)]
pub enum HandshakeError {
    Transport(ControlTransportError),
    MissingProtocolVersion,
    VersionOutOfRange,
    InvalidPrincipalIdLength { length: usize },
    UnsupportedRole { value: i32 },
    UnexpectedPayload,
    InvalidHelloEnvelope { control_session_id: u64, sequence: u64, request_id: u64 },
    HelloVersionMismatch { envelope: ProtocolVersion, hello: ProtocolVersion },
    Rejected { reason: i32, diagnostic: String },
    InvalidSessionId,
    InvalidHelloAckEnvelope { control_session_id: u64, sequence: u64, request_id: u64 },
    HelloAckVersionMismatch,
    IdentityMismatch { authenticated: PrincipalId, claimed: PrincipalId },
    PeerIdentity(PeerIdentityError),
    Negotiation(NegotiationError),
}

impl HandshakeError {
    /// What the error says.
    pub open spec fn spec_message(self) -> Seq<char> {
        match self {
            HandshakeError::Transport(error) => error.spec_message(),
            HandshakeError::MissingProtocolVersion => "hello is missing protocol version"@,
            HandshakeError::VersionOutOfRange => "protocol version exceeds ClassMesh range"@,
            HandshakeError::InvalidPrincipalIdLength { length } => {
                "principal id must be 32 bytes; received "@ + crate::text::decimal(length as nat)
            },
            HandshakeError::UnsupportedRole { value } => "unsupported control role "@
                + crate::text::signed_decimal(value as int),
            HandshakeError::UnexpectedPayload => "unexpected control handshake payload"@,
            HandshakeError::InvalidHelloEnvelope { control_session_id, sequence, request_id } => {
                "invalid Hello envelope: session="@
                    + crate::text::decimal(control_session_id as nat) + ", sequence="@
                    + crate::text::decimal(sequence as nat) + ", request_id="@
                    + crate::text::decimal(request_id as nat)
            },
            HandshakeError::HelloVersionMismatch { envelope, hello } => {
                "Hello envelope protocol version "@ + envelope.spec_debug()
                    + " does not match Hello payload version "@ + hello.spec_debug()
            },
            HandshakeError::Rejected { reason, diagnostic } => "control hello rejected ("@
                + crate::text::signed_decimal(reason as int) + "): "@ + diagnostic@,
            HandshakeError::InvalidSessionId => "server returned invalid control session id"@,
            HandshakeError::InvalidHelloAckEnvelope { control_session_id, sequence, request_id } => {
                "invalid HelloAck envelope: session="@
                    + crate::text::decimal(control_session_id as nat) + ", sequence="@
                    + crate::text::decimal(sequence as nat) + ", request_id="@
                    + crate::text::decimal(request_id as nat)
            },
            HandshakeError::HelloAckVersionMismatch => {
                "HelloAck envelope protocol version does not match negotiated version"@
            },
            HandshakeError::IdentityMismatch { authenticated, claimed } => {
                "authenticated principal "@ + authenticated.spec_debug()
                    + " does not match Hello principal "@ + claimed.spec_debug()
            },
            HandshakeError::PeerIdentity(error) => "authenticated peer identity failed: "@
                + error.spec_debug(),
            HandshakeError::Negotiation(error) => "control negotiation failed: "@
                + error.spec_debug(),
        }
    }

    /// The text for people.
    #[must_use]
    pub fn message(&self) -> (text: String)
        ensures
            text@ == self.spec_message(),
    {
        match self {
            HandshakeError::Transport(error) => error.message(),
            HandshakeError::MissingProtocolVersion => {
                "hello is missing protocol version".to_owned()
            },
            HandshakeError::VersionOutOfRange => {
                "protocol version exceeds ClassMesh range".to_owned()
            },
            HandshakeError::InvalidPrincipalIdLength { length } => {
                let mut text: String = "principal id must be 32 bytes; received ".to_owned();
                crate::text::push_decimal(&mut text, *length as u64);
                text
            },
            HandshakeError::UnsupportedRole { value } => {
                let mut text: String = "unsupported control role ".to_owned();
                crate::text::push_signed(&mut text, *value);
                text
            },
            HandshakeError::UnexpectedPayload => "unexpected control handshake payload".to_owned(),
            HandshakeError::InvalidHelloEnvelope { control_session_id, sequence, request_id } => {
                let mut text: String = "invalid Hello envelope: session=".to_owned();
                crate::text::push_decimal(&mut text, *control_session_id);
                text.append(", sequence=");
                crate::text::push_decimal(&mut text, *sequence);
                text.append(", request_id=");
                crate::text::push_decimal(&mut text, *request_id);
                text
            },
            HandshakeError::HelloVersionMismatch { envelope, hello } => {
                let mut text: String = "Hello envelope protocol version ".to_owned();
                envelope.push_debug(&mut text);
                text.append(" does not match Hello payload version ");
                hello.push_debug(&mut text);
                text
            },
            HandshakeError::Rejected { reason, diagnostic } => {
                let mut text: String = "control hello rejected (".to_owned();
                crate::text::push_signed(&mut text, *reason);
                text.append("): ");
                text.append(diagnostic.as_str());
                text
            },
            HandshakeError::InvalidSessionId => {
                "server returned invalid control session id".to_owned()
            },
            HandshakeError::InvalidHelloAckEnvelope { control_session_id, sequence, request_id } => {
                let mut text: String = "invalid HelloAck envelope: session=".to_owned();
                crate::text::push_decimal(&mut text, *control_session_id);
                text.append(", sequence=");
                crate::text::push_decimal(&mut text, *sequence);
                text.append(", request_id=");
                crate::text::push_decimal(&mut text, *request_id);
                text
            },
            HandshakeError::HelloAckVersionMismatch => {
                "HelloAck envelope protocol version does not match negotiated version".to_owned()
            },
            HandshakeError::IdentityMismatch { authenticated, claimed } => {
                let mut text: String = "authenticated principal ".to_owned();
                authenticated.push_debug(&mut text);
                text.append(" does not match Hello principal ");
                claimed.push_debug(&mut text);
                text
            },
            HandshakeError::PeerIdentity(error) => {
                let mut text: String = "authenticated peer identity failed: ".to_owned();
                error.push_debug(&mut text);
                text
            },
            HandshakeError::Negotiation(error) => {
                let mut text: String = "control negotiation failed: ".to_owned();
                error.push_debug(&mut text);
                text
            },
        }
    }
}

impl From<ControlTransportError> for HandshakeError {
    fn from(error: ControlTransportError) -> (mapped: Self) {
        HandshakeError::Transport(error)
    }
}

impl vstd::std_specs::convert::FromSpecImpl<ControlTransportError> for HandshakeError {
    open spec fn obeys_from_spec() -> bool {
        true
    }

    open spec fn from_spec(error: ControlTransportError) -> Self {
        HandshakeError::Transport(error)
    }
}

impl From<NegotiationError> for HandshakeError {
    fn from(error: NegotiationError) -> (mapped: Self) {
        HandshakeError::Negotiation(error)
    }
}

impl vstd::std_specs::convert::FromSpecImpl<NegotiationError> for HandshakeError {
    open spec fn obeys_from_spec() -> bool {
        true
    }

    open spec fn from_spec(error: NegotiationError) -> Self {
        HandshakeError::Negotiation(error)
    }
}

#[derive(Debug, Clone)]
pub struct ServerHelloConfig {
    pub local_version: ProtocolVersion,
    pub local_capabilities: OrderedSet<Capability>,
    pub control_session_id: u64,
}

#[derive(Debug, Clone, PartialEq, Eq)]
pub struct EstablishedControlSession {
    pub control_session_id: u64,
    pub negotiated: NegotiatedHello,
}

/// A session and what was negotiated for it.
#[verifier::ext_equal]
pub struct EstablishedView {
    pub control_session_id: u64,
    pub negotiated: NegotiatedView,
}

impl View for EstablishedControlSession {
    type V = EstablishedView;

    open spec fn view(&self) -> EstablishedView {
        EstablishedView {
            control_session_id: self.control_session_id,
            negotiated: self.negotiated@,
        }
    }
}

#[derive(Debug, Clone, Copy, PartialEq, Eq)]
pub struct EstablishedAuthenticatedPeer {
    pub identity: AuthenticatedPeerIdentity,
    pub control_session_id: u64,
}

/// What a hello says, with its capabilities as a set.
#[verifier::ext_equal]
pub struct HelloView {
    pub principal_id: PrincipalId,
    pub role: ControlRole,
    pub version: ProtocolVersion,
    pub capabilities: Set<Capability>,
    pub hostname: Seq<char>,
    pub app_version: Seq<char>,
}

impl View for ControlHello {
    type V = HelloView;

    open spec fn view(&self) -> HelloView {
        HelloView {
            principal_id: self.principal_id,
            role: self.role,
            version: self.version,
            capabilities: self.capabilities@,
            hostname: self.hostname@,
            app_version: self.app_version@,
        }
    }
}

/// A version on the wire.
pub open spec fn spec_version_to_wire(version: ProtocolVersion) -> WireProtocolVersion {
    WireProtocolVersion { major: version.major as u32, minor: version.minor as u32 }
}

#[must_use]
pub fn version_to_wire(version: ProtocolVersion) -> (wire: WireProtocolVersion)
    ensures
        wire == spec_version_to_wire(version),
{
    WireProtocolVersion { major: version.major as u32, minor: version.minor as u32 }
}

/// The version that a version on the wire stands for.
pub open spec fn spec_version_from_wire(wire: WireProtocolVersion) -> Result<
    ProtocolVersion,
    HandshakeError,
> {
    if wire.major > u16::MAX || wire.minor > u16::MAX {
        Err(HandshakeError::VersionOutOfRange)
    } else {
        Ok(ProtocolVersion { major: wire.major as u16, minor: wire.minor as u16 })
    }
}

pub fn version_from_wire(wire: WireProtocolVersion) -> (result: Result<
    ProtocolVersion,
    HandshakeError,
>)
    ensures
        result == spec_version_from_wire(wire),
{
    if wire.major > u16::MAX as u32 || wire.minor > u16::MAX as u32 {
        return Err(HandshakeError::VersionOutOfRange);
    }
    Ok(ProtocolVersion { major: wire.major as u16, minor: wire.minor as u16 })
}

/// The version in a message, which must have one.
pub open spec fn spec_required_version(wire: Option<WireProtocolVersion>) -> Result<
    ProtocolVersion,
    HandshakeError,
> {
    match wire {
        None => Err(HandshakeError::MissingProtocolVersion),
        Some(wire) => spec_version_from_wire(wire),
    }
}

fn required_version(wire: Option<WireProtocolVersion>) -> (result: Result<
    ProtocolVersion,
    HandshakeError,
>)
    ensures
        result == spec_required_version(wire),
{
    match wire {
        None => Err(HandshakeError::MissingProtocolVersion),
        Some(wire) => version_from_wire(wire),
    }
}

#[must_use]
pub fn role_to_wire(role: ControlRole) -> (wire: i32)
    ensures
        wire == role.spec_number(),
{
    role.number()
}

pub fn role_from_wire(value: i32) -> (result: Result<ControlRole, HandshakeError>)
    ensures
        result == spec_role_from_wire(value),
{
    match value {
        1 => Ok(ControlRole::Teacher),
        2 => Ok(ControlRole::StudentDevice),
        3 => Ok(ControlRole::Administrator),
        _ => Err(HandshakeError::UnsupportedRole { value }),
    }
}

/// The role with a number on the wire.
pub open spec fn spec_role_from_wire(value: i32) -> Result<ControlRole, HandshakeError> {
    if value == ControlRole::Teacher.spec_number() {
        Ok(ControlRole::Teacher)
    } else if value == ControlRole::StudentDevice.spec_number() {
        Ok(ControlRole::StudentDevice)
    } else if value == ControlRole::Administrator.spec_number() {
        Ok(ControlRole::Administrator)
    } else {
        Err(HandshakeError::UnsupportedRole { value })
    }
}

/// The number of a capability on the wire.
#[must_use]
pub fn capability_to_wire(capability: Capability) -> (wire: i32)
    requires
        capability.spec_number() is Some,
    ensures
        Some(wire) == capability.spec_number(),
{
    capability.number().unwrap()
}

/// The capability with a number on the wire. Unknown ones are skipped, so that newer peers
/// can have more.
#[must_use]
pub fn capability_from_wire(value: i32) -> (capability: Option<Capability>)
    ensures
        match capability {
            Some(capability) => capability.spec_number() == Some(value),
            None => forall|capability: Capability| #[trigger]
                capability.spec_number() != Some(value),
        },
{
    Capability::from_number(value)
}

/// The numbers of those capabilities that have one, in order.
pub open spec fn numbers_of(capabilities: Seq<Capability>) -> Seq<i32>
    decreases capabilities.len(),
{
    if capabilities.len() == 0 {
        Seq::empty()
    } else {
        let front = numbers_of(capabilities.drop_last());
        match capabilities.last().spec_number() {
            Some(number) => front.push(number),
            None => front,
        }
    }
}

/// The numbers of some capabilities on the wire, in ascending order.
pub open spec fn spec_capabilities_to_wire(capabilities: OrderedSet<Capability>) -> Seq<i32> {
    numbers_of(capabilities.spec_members())
}

/// The capabilities with some numbers on the wire.
pub open spec fn spec_capabilities_from_wire(wire: Seq<i32>) -> Set<Capability> {
    Set::new(|c: Capability| c.spec_number() matches Some(number) && wire.contains(number))
}

/// Those of some capabilities that have a number on the wire.
pub open spec fn announced(capabilities: Set<Capability>) -> Set<Capability> {
    Set::new(|c: Capability| capabilities.contains(c) && c.spec_number() is Some)
}

/// The numbers of some capabilities are those of its members.
proof fn lemma_numbers_of(capabilities: Seq<Capability>, c: Capability)
    requires
        c.spec_number() is Some,
    ensures
        numbers_of(capabilities).contains(c.spec_number()->Some_0) <==> capabilities.contains(c),
    decreases capabilities.len(),
{
    if capabilities.len() > 0 {
        let front = capabilities.drop_last();
        let last = capabilities.last();
        let number = c.spec_number()->Some_0;
        lemma_numbers_of(front, c);
        assert(capabilities =~= front.push(last));
        assert(capabilities.contains(c) <==> front.contains(c) || c == last) by {
            if front.contains(c) {
                let i = choose|i: int| 0 <= i < front.len() && front[i] == c;
                assert(capabilities[i] == c);
            }
            if c == last {
                assert(capabilities[capabilities.len() - 1] == c);
            }
            if capabilities.contains(c) && c != last {
                let i = choose|i: int| 0 <= i < capabilities.len() && capabilities[i] == c;
                assert(front[i] == c);
            }
        }
        match last.spec_number() {
            Some(n) => {
                let before = numbers_of(front);
                let after = before.push(n);
                if before.contains(number) {
                    let i = choose|i: int| 0 <= i < before.len() && before[i] == number;
                    assert(after[i] == number);
                }
                if number == n {
                    assert(after[before.len() as int] == number);
                }
                if after.contains(number) && number != n {
                    let i = choose|i: int| 0 <= i < after.len() && after[i] == number;
                    assert(before[i] == number);
                }
            },
            None => {},
        }
    }
}

fn capabilities_to_wire(capabilities: &OrderedSet<Capability>) -> (wire: Vec<i32>)
    requires
        capabilities.wf(),
    ensures
        wire@ == spec_capabilities_to_wire(*capabilities),
{
    let ghost members = capabilities.spec_members();
    let mut wire: Vec<i32> = Vec::new();
    let mut i: usize = 0;
    proof {
        assert(members.take(0) =~= Seq::<Capability>::empty());
    }
    while i < capabilities.len()
        invariant
            capabilities.wf(),
            members == capabilities.spec_members(),
            i <= members.len(),
            wire@ == numbers_of(members.take(i as int)),
        decreases members.len() - i,
    {
        proof {
            assert(members.take(i + 1).drop_last() =~= members.take(i as int));
        }
        let capability = capabilities.at(i);
        if capability.number().is_some() {
            wire.push(capability_to_wire(capability));
        }
        i += 1;
    }
    proof {
        assert(members.take(i as int) =~= members);
    }
    wire
}

fn capabilities_from_wire(wire: &Vec<i32>) -> (capabilities: OrderedSet<Capability>)
    ensures
        capabilities.wf(),
        capabilities@ == spec_capabilities_from_wire(wire@),
{
    let mut capabilities: OrderedSet<Capability> = OrderedSet::new();
    let mut i: usize = 0;
    while i < wire.len()
        invariant
            i <= wire@.len(),
            capabilities.wf(),
            forall|c: Capability| #[trigger]
                capabilities@.contains(c) <==> exists|j: int|
                    0 <= j < i && Some(#[trigger] wire@[j]) == c.spec_number(),
        decreases wire@.len() - i,
    {
        let ghost before = capabilities@;
        let found = capability_from_wire(wire[i]);
        match found {
            Some(capability) => {
                capabilities.insert(capability);
            },
            None => {},
        }
        proof {
            assert forall|c: Capability| #[trigger] capabilities@.contains(c) <==> exists|j: int|
                0 <= j < i + 1 && Some(#[trigger] wire@[j]) == c.spec_number() by {
                if before.contains(c) {
                    let j = choose|j: int|
                        0 <= j < i && Some(#[trigger] wire@[j]) == c.spec_number();
                    assert(0 <= j < i + 1 && Some(wire@[j]) == c.spec_number());
                }
                if Some(wire@[i as int]) == c.spec_number() {
                    assert(found == Some(c));
                }
                if found == Some(c) {
                    assert(Some(wire@[i as int]) == c.spec_number());
                }
            }
        }
        i += 1;
    }
    proof {
        assert forall|c: Capability| #[trigger]
            capabilities@.contains(c) <==> spec_capabilities_from_wire(wire@).contains(c) by {
            if let Some(number) = c.spec_number() {
                if wire@.contains(number) {
                    let j = choose|j: int| 0 <= j < wire@.len() && wire@[j] == number;
                    assert(Some(wire@[j]) == c.spec_number());
                }
            }
        }
        assert(capabilities@ =~= spec_capabilities_from_wire(wire@));
    }
    capabilities
}

/// `wire` is what a hello is on the wire.
pub open spec fn is_hello_of(wire: Hello, hello: ControlHello) -> bool {
    &&& wire.version == Some(spec_version_to_wire(hello.version))
    &&& wire.device_id@ == hello.principal_id.0@
    &&& wire.hostname@ == hello.hostname@
    &&& wire.capabilities@ == spec_capabilities_to_wire(hello.capabilities)
    &&& wire.app_version@ == hello.app_version@
    &&& wire.role == hello.role.spec_number()
    &&& wire.credential_fingerprint_sha256@.len() == 0
}

#[must_use]
pub fn hello_to_wire(hello: &ControlHello) -> (wire: Hello)
    requires
        hello.capabilities.wf(),
    ensures
        is_hello_of(wire, *hello),
{
    Hello {
        version: Some(version_to_wire(hello.version)),
        device_id: copy_all(hello.principal_id.0.as_slice()),
        hostname: hello.hostname.clone(),
        capabilities: capabilities_to_wire(&hello.capabilities),
        app_version: hello.app_version.clone(),
        role: role_to_wire(hello.role),
        credential_fingerprint_sha256: Vec::new(),
    }
}

/// Why a hello on the wire is refused, if it is.
pub open spec fn spec_hello_refusal(wire: Hello) -> Option<HandshakeError> {
    match spec_required_version(wire.version) {
        Err(error) => Some(error),
        Ok(_) => if wire.device_id@.len() != 32 {
            Some(
                HandshakeError::InvalidPrincipalIdLength { length: wire.device_id@.len() as usize },
            )
        } else {
            match spec_role_from_wire(wire.role) {
                Err(error) => Some(error),
                Ok(_) => None,
            }
        },
    }
}

/// What is read from a hello on the wire is `hello`.
pub open spec fn is_read_from(hello: HelloView, wire: Hello) -> bool {
    &&& spec_required_version(wire.version) == Ok::<ProtocolVersion, HandshakeError>(hello.version)
    &&& hello.principal_id.0@ == wire.device_id@
    &&& spec_role_from_wire(wire.role) == Ok::<ControlRole, HandshakeError>(hello.role)
    &&& hello.capabilities == spec_capabilities_from_wire(wire.capabilities@)
    &&& hello.hostname == wire.hostname@
    &&& hello.app_version == wire.app_version@
}

pub fn hello_from_wire(hello: &Hello) -> (result: Result<ControlHello, HandshakeError>)
    ensures
        match result {
            Ok(read) => spec_hello_refusal(*hello) is None && read.capabilities.wf()
                && is_read_from(read@, *hello),
            Err(error) => spec_hello_refusal(*hello) == Some(error),
        },
{
    let version = match required_version(hello.version) {
        Ok(version) => version,
        Err(error) => return Err(error),
    };
    let principal_id = match principal_id_from_bytes(hello.device_id.as_slice()) {
        Ok(principal_id) => principal_id,
        Err(error) => return Err(error),
    };
    let role = match role_from_wire(hello.role) {
        Ok(role) => role,
        Err(error) => return Err(error),
    };
    Ok(
        ControlHello {
            principal_id,
            role,
            version,
            capabilities: capabilities_from_wire(&hello.capabilities),
            hostname: hello.hostname.clone(),
            app_version: hello.app_version.clone(),
        },
    )
}

pub fn principal_id_from_bytes(bytes: &[u8]) -> (result: Result<PrincipalId, HandshakeError>)
    ensures
        match result {
            Ok(principal) => bytes@.len() == 32 && principal.0@ == bytes@,
            Err(error) => bytes@.len() != 32 && error == (
            HandshakeError::InvalidPrincipalIdLength { length: bytes@.len() as usize }),
        },
{
    if bytes.len() != 32 {
        return Err(HandshakeError::InvalidPrincipalIdLength { length: bytes.len() });
    }
    Ok(PrincipalId(array32(bytes)))
}

/// `envelope` is the client's first message.
pub open spec fn is_hello_request(envelope: ControlEnvelope, hello: ControlHello) -> bool {
    &&& envelope.control_session_id == 0
    &&& envelope.sequence == FIRST_SEQUENCE
    &&& envelope.protocol_version == Some(spec_version_to_wire(hello.version))
    &&& envelope.request_id == HELLO_REQUEST_ID
    &&& envelope.payload matches Some(Payload::Hello(wire)) && is_hello_of(wire, hello)
}

/// The client's first message.
#[must_use]
pub fn client_hello(hello: &ControlHello) -> (envelope: ControlEnvelope)
    requires
        hello.capabilities.wf(),
    ensures
        is_hello_request(envelope, *hello),
{
    ControlEnvelope {
        control_session_id: 0,
        sequence: FIRST_SEQUENCE,
        protocol_version: Some(version_to_wire(hello.version)),
        request_id: HELLO_REQUEST_ID,
        payload: Some(Payload::Hello(hello_to_wire(hello))),
    }
}

/// What validating the envelope of a hello leads to.
pub open spec fn spec_validate_hello_envelope(envelope: ControlEnvelope) -> Result<
    (),
    HandshakeError,
> {
    if envelope.control_session_id != 0 || envelope.sequence != FIRST_SEQUENCE
        || envelope.request_id != HELLO_REQUEST_ID {
        Err(
            HandshakeError::InvalidHelloEnvelope {
                control_session_id: envelope.control_session_id,
                sequence: envelope.sequence,
                request_id: envelope.request_id,
            },
        )
    } else {
        Ok(())
    }
}

pub fn validate_hello_envelope(envelope: &ControlEnvelope) -> (result: Result<(), HandshakeError>)
    ensures
        result == spec_validate_hello_envelope(*envelope),
{
    if envelope.control_session_id != 0 || envelope.sequence != FIRST_SEQUENCE
        || envelope.request_id != HELLO_REQUEST_ID {
        return Err(
            HandshakeError::InvalidHelloEnvelope {
                control_session_id: envelope.control_session_id,
                sequence: envelope.sequence,
                request_id: envelope.request_id,
            },
        );
    }
    Ok(())
}

/// What comparing the versions of an envelope and of the hello in it leads to.
pub open spec fn spec_validate_hello_version(
    envelope: ControlEnvelope,
    hello_version: ProtocolVersion,
) -> Result<(), HandshakeError> {
    match spec_required_version(envelope.protocol_version) {
        Err(error) => Err(error),
        Ok(version) => if version != hello_version {
            Err(HandshakeError::HelloVersionMismatch { envelope: version, hello: hello_version })
        } else {
            Ok(())
        },
    }
}

pub fn validate_hello_protocol_version(envelope: &ControlEnvelope, hello: &ControlHello) -> (result:
    Result<(), HandshakeError>)
    ensures
        result == spec_validate_hello_version(*envelope, hello.version),
{
    let version = match required_version(envelope.protocol_version) {
        Ok(version) => version,
        Err(error) => return Err(error),
    };
    if version != hello.version {
        return Err(
            HandshakeError::HelloVersionMismatch { envelope: version, hello: hello.version },
        );
    }
    Ok(())
}

/// What comparing the claimed with the authenticated principal leads to.
pub open spec fn spec_validate_identity(
    authenticated: PrincipalId,
    claimed: PrincipalId,
) -> Result<(), HandshakeError> {
    if authenticated != claimed {
        Err(HandshakeError::IdentityMismatch { authenticated, claimed })
    } else {
        Ok(())
    }
}

pub fn validate_authenticated_hello(
    authenticated_peer: AuthenticatedPeerIdentity,
    hello: &ControlHello,
) -> (result: Result<(), HandshakeError>)
    ensures
        result == spec_validate_identity(authenticated_peer.principal_id, hello.principal_id),
{
    if authenticated_peer.principal_id() != hello.principal_id {
        return Err(
            HandshakeError::IdentityMismatch {
                authenticated: authenticated_peer.principal_id(),
                claimed: hello.principal_id,
            },
        );
    }
    Ok(())
}

/// `envelope` is a server's refusal.
pub open spec fn is_rejection(
    envelope: ControlEnvelope,
    local_version: ProtocolVersion,
    request_id: u64,
    reason: i32,
    diagnostic: Seq<char>,
) -> bool {
    &&& envelope.control_session_id == 0
    &&& envelope.sequence == FIRST_SEQUENCE
    &&& envelope.protocol_version == Some(spec_version_to_wire(local_version))
    &&& envelope.request_id == request_id
    &&& envelope.payload matches Some(Payload::HelloAck(ack))
    &&& !ack.accepted
    &&& ack.negotiated_version is None
    &&& ack.control_session_id == 0
    &&& ack.negotiated_capabilities@.len() == 0
    &&& ack.reject_reason == reason
    &&& ack.diagnostic@ == diagnostic
}

fn rejected_hello(
    local_version: ProtocolVersion,
    request_id: u64,
    reason: i32,
    diagnostic: &str,
) -> (envelope: ControlEnvelope)
    ensures
        is_rejection(envelope, local_version, request_id, reason, diagnostic@),
{
    ControlEnvelope {
        control_session_id: 0,
        sequence: FIRST_SEQUENCE,
        protocol_version: Some(version_to_wire(local_version)),
        request_id,
        payload: Some(
            Payload::HelloAck(
                HelloAck {
                    accepted: false,
                    negotiated_version: None,
                    control_session_id: 0,
                    negotiated_capabilities: Vec::new(),
                    reject_reason: reason,
                    diagnostic: diagnostic.to_owned(),
                },
            ),
        ),
    }
}

/// `envelope` is a server's acceptance of a session, with what was negotiated for it.
pub open spec fn is_acceptance(
    envelope: ControlEnvelope,
    request_id: u64,
    session: EstablishedControlSession,
) -> bool {
    let version = spec_version_to_wire(session.negotiated.version);
    &&& envelope.control_session_id == session.control_session_id
    &&& envelope.sequence == FIRST_SEQUENCE
    &&& envelope.protocol_version == Some(version)
    &&& envelope.request_id == request_id
    &&& envelope.payload matches Some(Payload::HelloAck(ack))
    &&& ack.accepted
    &&& ack.negotiated_version == Some(version)
    &&& ack.control_session_id == session.control_session_id
    &&& ack.negotiated_capabilities@ == spec_capabilities_to_wire(session.negotiated.capabilities)
    &&& ack.reject_reason == 0
    &&& ack.diagnostic@.len() == 0
}

/// What a server does about a hello: the message that it sends, if any, and the session.
pub struct ServerHelloOutcome {
    pub reply: Option<ControlEnvelope>,
    pub result: Result<EstablishedControlSession, HandshakeError>,
}

/// What a server does about a hello that it could read: it accepts where the protocols are
/// compatible, and tells why not otherwise.
pub open spec fn is_completed(
    outcome: ServerHelloOutcome,
    config: ServerHelloConfig,
    request_id: u64,
    hello: HelloView,
) -> bool {
    match config.local_version.spec_negotiate(hello.version) {
        Some(version) => {
            let negotiated = NegotiatedView {
                principal_id: hello.principal_id,
                role: hello.role,
                version,
                capabilities: config.local_capabilities@.intersect(hello.capabilities),
            };
            &&& outcome.result matches Ok(session)
            &&& session.negotiated.capabilities.wf()
            &&& session@ == (EstablishedView {
                control_session_id: config.control_session_id,
                negotiated,
            })
            &&& outcome.reply matches Some(reply)
            &&& is_acceptance(reply, request_id, session)
        },
        None => {
            &&& outcome.result matches Err(error)
            &&& error == HandshakeError::Negotiation(
                NegotiationError::IncompatibleProtocol {
                    local: config.local_version,
                    peer: hello.version,
                },
            )
            &&& outcome.reply matches Some(reply)
            &&& is_rejection(
                reply,
                config.local_version,
                request_id,
                REJECT_INCOMPATIBLE_PROTOCOL,
                "protocol major versions are incompatible"@,
            )
        },
    }
}

/// Numbers on the wire stand for the capabilities that they were made of.
pub proof fn lemma_capabilities_round_trip(capabilities: OrderedSet<Capability>)
    requires
        capabilities.wf(),
    ensures
        spec_capabilities_from_wire(spec_capabilities_to_wire(capabilities)) == announced(
            capabilities@,
        ),
{
    capabilities.lemma_view();
    let wire = spec_capabilities_to_wire(capabilities);
    assert forall|c: Capability| #[trigger]
        spec_capabilities_from_wire(wire).contains(c) <==> announced(capabilities@).contains(c) by {
        if c.spec_number() is Some {
            lemma_numbers_of(capabilities.spec_members(), c);
            assert(capabilities@.contains(c) <==> capabilities.spec_members().contains(c));
        }
    }
    assert(spec_capabilities_from_wire(wire) =~= announced(capabilities@));
}

fn complete_server_hello(config: &ServerHelloConfig, request_id: u64, hello: &ControlHello) -> (
    outcome: ServerHelloOutcome)
    requires
        config.local_capabilities.wf(),
        hello.capabilities.wf(),
    ensures
        is_completed(outcome, *config, request_id, hello@),
{
    let negotiated = match negotiate_hello(
        config.local_version,
        &config.local_capabilities,
        hello,
    ) {
        Ok(negotiated) => negotiated,
        Err(error) => {
            let reply = rejected_hello(
                config.local_version,
                request_id,
                REJECT_INCOMPATIBLE_PROTOCOL,
                "protocol major versions are incompatible",
            );
            return ServerHelloOutcome {
                reply: Some(reply),
                result: Err(HandshakeError::from(error)),
            };
        },
    };
    let ack = ControlEnvelope {
        control_session_id: config.control_session_id,
        sequence: FIRST_SEQUENCE,
        protocol_version: Some(version_to_wire(negotiated.version)),
        request_id,
        payload: Some(
            Payload::HelloAck(
                HelloAck {
                    accepted: true,
                    negotiated_version: Some(version_to_wire(negotiated.version)),
                    control_session_id: config.control_session_id,
                    negotiated_capabilities: capabilities_to_wire(&negotiated.capabilities),
                    reject_reason: 0,
                    diagnostic: String::new(),
                },
            ),
        ),
    };
    ServerHelloOutcome {
        reply: Some(ack),
        result: Ok(
            EstablishedControlSession {
                control_session_id: config.control_session_id,
                negotiated,
            },
        ),
    }
}

/// Why a request is not even answered, if it is not: no session was prepared, or the request
/// is no well-formed hello.
pub open spec fn spec_request_refusal(
    config: ServerHelloConfig,
    request: ControlEnvelope,
) -> Option<HandshakeError> {
    if config.control_session_id == 0 {
        Some(HandshakeError::InvalidSessionId)
    } else {
        match spec_validate_hello_envelope(request) {
            Err(error) => Some(error),
            Ok(()) => match request.payload {
                Some(Payload::Hello(wire)) => match spec_hello_refusal(wire) {
                    Some(error) => Some(error),
                    None => match spec_validate_hello_version(
                        request,
                        spec_required_version(wire.version)->Ok_0,
                    ) {
                        Err(error) => Some(error),
                        Ok(()) => None,
                    },
                },
                _ => Some(HandshakeError::UnexpectedPayload),
            },
        }
    }
}

/// `hello` is what a request says.
pub open spec fn is_hello_in(hello: HelloView, request: ControlEnvelope) -> bool {
    request.payload matches Some(Payload::Hello(wire)) && is_read_from(hello, wire)
}

/// Reads the hello out of a request.
fn hello_in_request(config: &ServerHelloConfig, request: &ControlEnvelope) -> (result: Result<
    ControlHello,
    HandshakeError,
>)
    ensures
        match result {
            Ok(hello) => spec_request_refusal(*config, *request) is None && hello.capabilities.wf()
                && is_hello_in(hello@, *request),
            Err(error) => spec_request_refusal(*config, *request) == Some(error),
        },
{
    if config.control_session_id == 0 {
        return Err(HandshakeError::InvalidSessionId);
    }
    match validate_hello_envelope(request) {
        Ok(()) => {},
        Err(error) => return Err(error),
    }
    let hello = match &request.payload {
        Some(Payload::Hello(wire)) => match hello_from_wire(wire) {
            Ok(hello) => hello,
            Err(error) => return Err(error),
        },
        _ => return Err(HandshakeError::UnexpectedPayload),
    };
    match validate_hello_protocol_version(request, &hello) {
        Ok(()) => Ok(hello),
        Err(error) => Err(error),
    }
}

/// What a server does about a request whose peer it does not know otherwise.
pub fn server_hello(config: &ServerHelloConfig, request: &ControlEnvelope) -> (outcome:
    ServerHelloOutcome)
    requires
        config.local_capabilities.wf(),
    ensures
        match spec_request_refusal(*config, *request) {
            Some(error) => outcome.reply is None && outcome.result == Err::<
                EstablishedControlSession,
                HandshakeError,
            >(error),
            None => exists|hello: HelloView| #[trigger]
                is_hello_in(hello, *request) && is_completed(
                    outcome,
                    *config,
                    request.request_id,
                    hello,
                ),
        },
{
    let hello = match hello_in_request(config, request) {
        Ok(hello) => hello,
        Err(error) => return ServerHelloOutcome { reply: None, result: Err(error) },
    };
    let outcome = complete_server_hello(config, request.request_id, &hello);
    proof {
        assert(is_hello_in(hello@, *request));
    }
    outcome
}

/// What a server does about a request of a peer that TLS has authenticated: the hello must
/// claim the same principal.
pub fn server_hello_authenticated(
    config: &ServerHelloConfig,
    authenticated_peer: AuthenticatedPeerIdentity,
    request: &ControlEnvelope,
) -> (outcome: ServerHelloOutcome)
    requires
        config.local_capabilities.wf(),
    ensures
        match spec_request_refusal(*config, *request) {
            Some(error) => outcome.reply is None && outcome.result == Err::<
                EstablishedControlSession,
                HandshakeError,
            >(error),
            None => exists|hello: HelloView| #[trigger]
                is_hello_in(hello, *request) && match spec_validate_identity(
                    authenticated_peer.principal_id,
                    hello.principal_id,
                ) {
                    Ok(()) => is_completed(outcome, *config, request.request_id, hello),
                    Err(error) => {
                        &&& outcome.result == Err::<EstablishedControlSession, HandshakeError>(
                            error,
                        )
                        &&& outcome.reply matches Some(reply)
                        &&& is_rejection(
                            reply,
                            config.local_version,
                            request.request_id,
                            REJECT_INVALID_IDENTITY,
                            "Hello principal does not match the authenticated TLS principal"@,
                        )
                    },
                },
        },
{
    let hello = match hello_in_request(config, request) {
        Ok(hello) => hello,
        Err(error) => return ServerHelloOutcome { reply: None, result: Err(error) },
    };
    proof {
        assert(is_hello_in(hello@, *request));
    }
    match validate_authenticated_hello(authenticated_peer, &hello) {
        Ok(()) => complete_server_hello(config, request.request_id, &hello),
        Err(error) => {
            let reply = rejected_hello(
                config.local_version,
                request.request_id,
                REJECT_INVALID_IDENTITY,
                "Hello principal does not match the authenticated TLS principal",
            );
            ServerHelloOutcome { reply: Some(reply), result: Err(error) }
        },
    }
}

/// The authenticated peer of a session that was established.
#[must_use]
pub fn established_peer(
    identity: AuthenticatedPeerIdentity,
    session: &EstablishedControlSession,
) -> (peer: EstablishedAuthenticatedPeer)
    ensures
        peer == (EstablishedAuthenticatedPeer {
            identity,
            control_session_id: session.control_session_id,
        }),
{
    EstablishedAuthenticatedPeer { identity, control_session_id: session.control_session_id }
}

/// What validating the envelope of a server's answer leads to.
pub open spec fn spec_validate_ack_envelope(envelope: ControlEnvelope, ack: HelloAck) -> Result<
    (),
    HandshakeError,
> {
    let expected_session = if ack.accepted {
        ack.control_session_id
    } else {
        0
    };
    if envelope.control_session_id != expected_session || envelope.sequence != FIRST_SEQUENCE
        || envelope.request_id != HELLO_REQUEST_ID {
        Err(
            HandshakeError::InvalidHelloAckEnvelope {
                control_session_id: envelope.control_session_id,
                sequence: envelope.sequence,
                request_id: envelope.request_id,
            },
        )
    } else {
        match spec_required_version(envelope.protocol_version) {
            Err(error) => Err(error),
            Ok(version) => if ack.accepted {
                match spec_required_version(ack.negotiated_version) {
                    Err(error) => Err(error),
                    Ok(negotiated) => if version != negotiated {
                        Err(HandshakeError::HelloAckVersionMismatch)
                    } else {
                        Ok(())
                    },
                }
            } else {
                Ok(())
            },
        }
    }
}

pub fn validate_hello_ack_envelope(envelope: &ControlEnvelope, ack: &HelloAck) -> (result: Result<
    (),
    HandshakeError,
>)
    ensures
        result == spec_validate_ack_envelope(*envelope, *ack),
{
    let expected_session: u64 = if ack.accepted {
        ack.control_session_id
    } else {
        0
    };
    if envelope.control_session_id != expected_session || envelope.sequence != FIRST_SEQUENCE
        || envelope.request_id != HELLO_REQUEST_ID {
        return Err(
            HandshakeError::InvalidHelloAckEnvelope {
                control_session_id: envelope.control_session_id,
                sequence: envelope.sequence,
                request_id: envelope.request_id,
            },
        );
    }
    let envelope_version = match required_version(envelope.protocol_version) {
        Ok(version) => version,
        Err(error) => return Err(error),
    };
    if ack.accepted {
        let negotiated = match required_version(ack.negotiated_version) {
            Ok(version) => version,
            Err(error) => return Err(error),
        };
        if envelope_version != negotiated {
            return Err(HandshakeError::HelloAckVersionMismatch);
        }
    }
    Ok(())
}

/// What a client makes of a server's answer: a session with the negotiated version, which
/// must be one that the client speaks, and with those capabilities that it has offered.
pub open spec fn spec_established(hello: HelloView, ack: HelloAck) -> Result<
    EstablishedView,
    HandshakeError,
> {
    if !ack.accepted {
        Err(HandshakeError::Rejected { reason: ack.reject_reason, diagnostic: ack.diagnostic })
    } else if ack.control_session_id == 0 {
        Err(HandshakeError::InvalidSessionId)
    } else {
        match spec_required_version(ack.negotiated_version) {
            Err(error) => Err(error),
            Ok(version) => if hello.version.major != version.major || version.minor
                > hello.version.minor {
                Err(
                    HandshakeError::Negotiation(
                        NegotiationError::IncompatibleProtocol {
                            local: hello.version,
                            peer: version,
                        },
                    ),
                )
            } else {
                Ok(
                    EstablishedView {
                        control_session_id: ack.control_session_id,
                        negotiated: NegotiatedView {
                            principal_id: hello.principal_id,
                            role: hello.role,
                            version,
                            capabilities: spec_capabilities_from_wire(
                                ack.negotiated_capabilities@,
                            ).intersect(hello.capabilities),
                        },
                    },
                )
            },
        }
    }
}

pub fn established_from_ack(hello: &ControlHello, ack: &HelloAck) -> (result: Result<
    EstablishedControlSession,
    HandshakeError,
>)
    requires
        hello.capabilities.wf(),
    ensures
        match result {
            Ok(session) => session.negotiated.capabilities.wf() && spec_established(hello@, *ack)
                == Ok::<EstablishedView, HandshakeError>(session@),
            Err(error) => spec_established(hello@, *ack) == Err::<EstablishedView, HandshakeError>(
                error,
            ),
        },
{
    if !ack.accepted {
        return Err(
            HandshakeError::Rejected {
                reason: ack.reject_reason,
                diagnostic: ack.diagnostic.clone(),
            },
        );
    }
    if ack.control_session_id == 0 {
        return Err(HandshakeError::InvalidSessionId);
    }
    let version = match required_version(ack.negotiated_version) {
        Ok(version) => version,
        Err(error) => return Err(error),
    };
    if !hello.version.is_compatible_with(version) || version.minor > hello.version.minor {
        return Err(
            HandshakeError::Negotiation(
                NegotiationError::IncompatibleProtocol { local: hello.version, peer: version },
            ),
        );
    }
    let capabilities = capabilities_from_wire(&ack.negotiated_capabilities).intersection(
        &hello.capabilities,
    );
    Ok(
        EstablishedControlSession {
            control_session_id: ack.control_session_id,
            negotiated: NegotiatedHello {
                principal_id: hello.principal_id,
                role: hello.role,
                version,
                capabilities,
            },
        },
    )
}

/// What a client makes of the message that answers its hello.
pub open spec fn spec_client_result(hello: HelloView, response: ControlEnvelope) -> Result<
    EstablishedView,
    HandshakeError,
> {
    match response.payload {
        Some(Payload::HelloAck(ack)) => match spec_validate_ack_envelope(response, ack) {
            Err(error) => Err(error),
            Ok(()) => spec_established(hello, ack),
        },
        _ => Err(HandshakeError::UnexpectedPayload),
    }
}

/// What a client makes of the message that answers its hello.
pub fn client_hello_answered(hello: &ControlHello, response: &ControlEnvelope) -> (result: Result<
    EstablishedControlSession,
    HandshakeError,
>)
    requires
        hello.capabilities.wf(),
    ensures
        match result {
            Ok(session) => session.negotiated.capabilities.wf() && spec_client_result(
                hello@,
                *response,
            ) == Ok::<EstablishedView, HandshakeError>(session@),
            Err(error) => spec_client_result(hello@, *response) == Err::<
                EstablishedView,
                HandshakeError,
            >(error),
        },
{
    match &response.payload {
        Some(Payload::HelloAck(ack)) => {
            match validate_hello_ack_envelope(response, ack) {
                Ok(()) => established_from_ack(hello, ack),
                Err(error) => Err(error),
            }
        },
        _ => Err(HandshakeError::UnexpectedPayload),
    }
}

impl HelloView {
    /// What of a hello is on the wire: all but the capabilities that have no number there.
    pub open spec fn on_wire(self) -> Self {
        HelloView { capabilities: announced(self.capabilities), ..self }
    }
}

/// A hello is read from the wire as it was sent, with those capabilities that have a number:
/// where each of them has one, nothing is lost.
pub proof fn law_hello_round_trip(hello: ControlHello, wire: Hello)
    requires
        hello.capabilities.wf(),
        is_hello_of(wire, hello),
    ensures
        spec_hello_refusal(wire) is None,
        is_read_from(hello@.on_wire(), wire),
        (forall|c: Capability| #[trigger]
            hello.capabilities@.contains(c) ==> c.spec_number() is Some) ==> hello@.on_wire()
            == hello@,
{
    lemma_capabilities_round_trip(hello.capabilities);
    if forall|c: Capability| #[trigger]
        hello.capabilities@.contains(c) ==> c.spec_number() is Some {
        assert(announced(hello.capabilities@) =~= hello.capabilities@);
    }
}

/// A hello leaves no doubt about what it says.
pub proof fn law_hello_is_read_in_one_way(a: HelloView, b: HelloView, wire: Hello)
    requires
        is_read_from(a, wire),
        is_read_from(b, wire),
    ensures
        a == b,
{
    assert(a.principal_id.0 =~= b.principal_id.0);
}

/// Where the protocols are compatible and a session was prepared, a server answers a client's
/// first message so that both sides hold the same session: the same number, principal, role,
/// version and capabilities.
pub proof fn law_both_sides_establish_the_same_session(
    hello: ControlHello,
    request: ControlEnvelope,
    config: ServerHelloConfig,
    outcome: ServerHelloOutcome,
)
    requires
        hello.capabilities.wf(),
        is_hello_request(request, hello),
        config.control_session_id != 0,
        config.local_version.major == hello.version.major,
        is_completed(outcome, config, request.request_id, hello@.on_wire()),
    ensures
        spec_request_refusal(config, request) is None,
        is_hello_in(hello@.on_wire(), request),
        outcome.result is Ok,
        outcome.reply is Some,
        spec_client_result(hello@, outcome.reply->Some_0) == Ok::<EstablishedView, HandshakeError>(
            outcome.result->Ok_0@,
        ),
{
    let wire = match request.payload {
        Some(Payload::Hello(wire)) => wire,
        _ => arbitrary(),
    };
    law_hello_round_trip(hello, wire);
    let negotiated = outcome.result->Ok_0.negotiated.capabilities;
    lemma_capabilities_round_trip(negotiated);
    assert(announced(negotiated@).intersect(hello.capabilities@) =~= negotiated@);
}

/// Where the major versions differ, the server's answer tells the client so, and neither side
/// holds a session.
pub proof fn law_incompatible_peers_part(
    hello: ControlHello,
    request: ControlEnvelope,
    config: ServerHelloConfig,
    outcome: ServerHelloOutcome,
)
    requires
        hello.capabilities.wf(),
        is_hello_request(request, hello),
        config.local_version.major != hello.version.major,
        is_completed(outcome, config, request.request_id, hello@.on_wire()),
    ensures
        outcome.result is Err,
        outcome.reply is Some,
        spec_client_result(hello@, outcome.reply->Some_0) matches Err(
            HandshakeError::Rejected { reason, diagnostic },
        ) && reason == REJECT_INCOMPATIBLE_PROTOCOL,
{
}

/// A version goes over the wire and back unchanged; one that does not fit is refused.
pub proof fn law_version_round_trip(version: ProtocolVersion, wire: WireProtocolVersion)
    ensures
        spec_version_from_wire(spec_version_to_wire(version)) == Ok::<_, HandshakeError>(version),
        wire.major > 65_535 || wire.minor > 65_535 ==> spec_version_from_wire(wire) == Err::<
            ProtocolVersion,
            _,
        >(HandshakeError::VersionOutOfRange),
        spec_version_from_wire(wire) matches Ok(read) ==> read.major == wire.major && read.minor
            == wire.minor,
        spec_required_version(None) == Err::<ProtocolVersion, _>(
            HandshakeError::MissingProtocolVersion,
        ),
        spec_required_version(Some(wire)) == spec_version_from_wire(wire),
{
}

/// A role goes over the wire and back unchanged, and no other number is one.
pub proof fn law_role_round_trip(role: ControlRole, value: i32)
    ensures
        spec_role_from_wire(role.spec_number()) == Ok::<_, HandshakeError>(role),
        value < 1 || value > 3 ==> spec_role_from_wire(value) == Err::<ControlRole, _>(
            HandshakeError::UnsupportedRole { value },
        ),
{
}

/// A hello is read if and only if it has a version that fits, a principal of 32 bytes and a role.
pub proof fn law_sound_hellos_are_read(wire: Hello)
    ensures
        spec_hello_refusal(wire) is None <==> {
            &&& wire.version is Some
            &&& wire.version->Some_0.major <= 65_535
            &&& wire.version->Some_0.minor <= 65_535
            &&& wire.device_id@.len() == 32
            &&& wire.role == 1 || wire.role == 2 || wire.role == 3
        },
{
}

/// A request for a session is the first message of all: without a session, with the first number,
/// and in the version that its hello names. A server without a session number takes none.
pub proof fn law_sound_requests_are_taken(config: ServerHelloConfig, request: ControlEnvelope)
    ensures
        ({
            let refusal = spec_request_refusal(config, request);
            let first = request.control_session_id == 0 && request.sequence == 1
                && request.request_id == 1;
            &&& config.control_session_id == 0 ==> refusal == Some(HandshakeError::InvalidSessionId)
            &&& !first ==> refusal is Some
            &&& !(request.payload is Some && request.payload->Some_0 is Hello) ==> refusal is Some
            &&& request.protocol_version is None ==> refusal is Some
            &&& request.payload matches Some(Payload::Hello(wire)) ==> {
                &&& spec_hello_refusal(wire) is Some ==> refusal is Some
                &&& wire.version != request.protocol_version ==> refusal is Some
                &&& config.control_session_id != 0 && first && spec_hello_refusal(wire) is None
                    && wire.version == request.protocol_version ==> refusal is None
            }
        }),
{
}

/// Who says hello must be who the certificate says.
pub proof fn law_claimed_identity_is_checked(authenticated: PrincipalId, claimed: PrincipalId)
    ensures
        authenticated == claimed ==> spec_validate_identity(authenticated, claimed) is Ok,
        authenticated != claimed ==> spec_validate_identity(authenticated, claimed) == Err::<(), _>(
            HandshakeError::IdentityMismatch { authenticated, claimed },
        ),
{
}

/// A client takes an answer if and only if it is the first message of a session that it names, in
/// the version that it agrees to, which is the client's or an earlier one of the same major
/// number. Each of these binds by itself; the session has the capabilities that both sides named,
/// and the client's own name and role.
pub proof fn law_sound_answers_are_taken(
    hello: HelloView,
    response: ControlEnvelope,
    ack: HelloAck,
    capability: Capability,
)
    requires
        response.payload == Some(Payload::HelloAck(ack)),
    ensures
        ({
            let result = spec_client_result(hello, response);
            let agreed = ack.negotiated_version->Some_0;
            let first = response.sequence == 1 && response.request_id == 1;
            let fits = ack.negotiated_version is Some && agreed.major == hello.version.major
                && agreed.minor <= hello.version.minor;
            &&& !ack.accepted ==> result is Err
            &&& ack.control_session_id == 0 ==> result is Err
            &&& response.control_session_id != ack.control_session_id && ack.accepted ==> result
                is Err
            &&& !first ==> result is Err
            &&& !fits ==> result is Err
            &&& response.protocol_version != ack.negotiated_version && ack.accepted ==> result is Err
            &&& ack.accepted && ack.control_session_id != 0 && response.control_session_id
                == ack.control_session_id && first && fits && response.protocol_version
                == ack.negotiated_version ==> {
                &&& result is Ok
                &&& result->Ok_0.control_session_id == ack.control_session_id
                &&& result->Ok_0.negotiated.principal_id == hello.principal_id
                &&& result->Ok_0.negotiated.role == hello.role
                &&& result->Ok_0.negotiated.version.major == agreed.major
                &&& result->Ok_0.negotiated.version.minor == agreed.minor
                &&& result->Ok_0.negotiated.capabilities.contains(capability) <==> {
                    &&& hello.capabilities.contains(capability)
                    &&& capability.spec_number() is Some
                    &&& ack.negotiated_capabilities@.contains(capability.spec_number()->Some_0)
                }
            }
            &&& !ack.accepted && response.control_session_id == 0 && first
                && response.protocol_version is Some && response.protocol_version->Some_0.major
                <= 65_535 && response.protocol_version->Some_0.minor <= 65_535 ==> result == Err::<
                EstablishedView,
                _,
            >(HandshakeError::Rejected { reason: ack.reject_reason, diagnostic: ack.diagnostic })
        }),
{
}

/// What is no answer to a hello is refused.
pub proof fn law_other_answers_are_refused(hello: HelloView, response: ControlEnvelope)
    requires
        !(response.payload is Some && response.payload->Some_0 is HelloAck),
    ensures
        spec_client_result(hello, response) == Err::<EstablishedView, _>(
            HandshakeError::UnexpectedPayload,
        ),
{
}

/// The first message names who says hello: its principal, role and version, its names, and the
/// number of each capability that has one, and of no other.
pub proof fn law_hello_names_the_peer(
    hello: ControlHello,
    envelope: ControlEnvelope,
    capability: Capability,
)
    requires
        hello.capabilities.wf(),
        is_hello_request(envelope, hello),
    ensures
        envelope.control_session_id == 0,
        envelope.sequence == 1,
        envelope.request_id == 1,
        envelope.payload is Some && envelope.payload->Some_0 is Hello,
        ({
            let wire = envelope.payload->Some_0->Hello_0;
            &&& wire.version == envelope.protocol_version
            &&& wire.version is Some && wire.version->Some_0.major == hello.version.major
                && wire.version->Some_0.minor == hello.version.minor
            &&& wire.device_id@ == hello.principal_id.0@
            &&& wire.hostname@ == hello.hostname@
            &&& wire.app_version@ == hello.app_version@
            &&& wire.role == hello.role.spec_number()
            &&& spec_capabilities_from_wire(wire.capabilities@).contains(capability) <==> {
                &&& hello.capabilities@.contains(capability)
                &&& capability.spec_number() is Some
            }
        }),
{
    law_hello_round_trip(hello, envelope.payload->Some_0->Hello_0);
}

/// A hello is read as it was written, name by name.
pub proof fn law_read_hello_names_the_peer(hello: HelloView, wire: Hello, capability: Capability)
    requires
        is_read_from(hello, wire),
    ensures
        hello.principal_id.0@ == wire.device_id@,
        hello.hostname == wire.hostname@,
        hello.app_version == wire.app_version@,
        hello.role.spec_number() == wire.role,
        wire.version is Some && wire.version->Some_0.major == hello.version.major
            && wire.version->Some_0.minor == hello.version.minor,
        hello.capabilities.contains(capability) <==> capability.spec_number() is Some
            && wire.capabilities@.contains(capability.spec_number()->Some_0),
{
}

/// A rejection opens no session and says why; an acceptance opens the session that it names and
/// gives no reason. Both answer the request and are the first message of their side.
pub proof fn law_answers_are_unambiguous(
    envelope: ControlEnvelope,
    version: ProtocolVersion,
    request_id: u64,
    reason: i32,
    diagnostic: Seq<char>,
    session: EstablishedControlSession,
)
    ensures
        is_rejection(envelope, version, request_id, reason, diagnostic) || is_acceptance(
            envelope,
            request_id,
            session,
        ) ==> envelope.sequence == 1 && envelope.request_id == request_id && envelope.payload is Some
            && envelope.payload->Some_0 is HelloAck,
        is_rejection(envelope, version, request_id, reason, diagnostic) ==> {
            let ack = envelope.payload->Some_0->HelloAck_0;
            &&& !ack.accepted
            &&& envelope.control_session_id == 0 && ack.control_session_id == 0
            &&& ack.reject_reason == reason && ack.diagnostic@ == diagnostic
            &&& ack.negotiated_version is None && ack.negotiated_capabilities@.len() == 0
            &&& envelope.protocol_version is Some && envelope.protocol_version->Some_0.major
                == version.major && envelope.protocol_version->Some_0.minor == version.minor
        },
        is_acceptance(envelope, request_id, session) ==> {
            let ack = envelope.payload->Some_0->HelloAck_0;
            &&& ack.accepted
            &&& envelope.control_session_id == session.control_session_id
            &&& ack.control_session_id == session.control_session_id
            &&& ack.reject_reason == 0 && ack.diagnostic@.len() == 0
            &&& ack.negotiated_version == envelope.protocol_version
            &&& ack.negotiated_version is Some && ack.negotiated_version->Some_0.major
                == session.negotiated.version.major && ack.negotiated_version->Some_0.minor
                == session.negotiated.version.minor
        },
{
}

} // verus!
