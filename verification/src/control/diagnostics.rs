//! Stable, non-sensitive diagnostic codes for logs/telemetry.
//!
//! These codes deliberately omit peer-provided values, session identifiers,
//! request identifiers and free-form diagnostics. Detailed error values may
//! still be retained in local debug contexts with an explicit policy.

use super::authorization::CommandAuthorizationError;
use super::dispatch::PrivilegedDispatchError;
use super::handshake::HandshakeError;
use super::quic::ControlTransportError;
use super::stream::StreamOfferError;
use super::HeartbeatError;
use vstd::prelude::*;

verus! {

/// The code of an error, whatever values it holds.
pub open spec fn spec_transport_diagnostic_code(error: ControlTransportError) -> Seq<char> {
    match error {
        ControlTransportError::Frame(_) => "control.transport.frame"@,
        ControlTransportError::Timeout { .. } => "control.transport.timeout"@,
        ControlTransportError::Configuration(_) => "control.transport.configuration"@,
        ControlTransportError::Transport(_) => "control.transport.failure"@,
        ControlTransportError::EndpointClosed => "control.transport.endpoint_closed"@,
    }
}

#[must_use]
pub fn transport_diagnostic_code(error: &ControlTransportError) -> (code: &'static str)
    ensures
        code@ == spec_transport_diagnostic_code(*error),
{
    match error {
        ControlTransportError::Frame(_) => "control.transport.frame",
        ControlTransportError::Timeout { .. } => "control.transport.timeout",
        ControlTransportError::Configuration(_) => "control.transport.configuration",
        ControlTransportError::Transport(_) => "control.transport.failure",
        ControlTransportError::EndpointClosed => "control.transport.endpoint_closed",
    }
}

/// The code of an error, whatever values it holds.
pub open spec fn spec_handshake_diagnostic_code(error: HandshakeError) -> Seq<char> {
    match error {
        HandshakeError::Transport(error) => spec_transport_diagnostic_code(error),
        HandshakeError::MissingProtocolVersion => "control.handshake.missing_version"@,
        HandshakeError::VersionOutOfRange => "control.handshake.version_out_of_range"@,
        HandshakeError::InvalidPrincipalIdLength { .. } => {
            "control.handshake.invalid_principal_id"@
        },
        HandshakeError::UnsupportedRole { .. } => "control.handshake.unsupported_role"@,
        HandshakeError::UnexpectedPayload => "control.handshake.unexpected_payload"@,
        HandshakeError::InvalidHelloEnvelope { .. } => "control.handshake.invalid_hello_envelope"@,
        HandshakeError::HelloVersionMismatch { .. } => "control.handshake.hello_version_mismatch"@,
        HandshakeError::Rejected { .. } => "control.handshake.rejected"@,
        HandshakeError::InvalidSessionId => "control.handshake.invalid_session"@,
        HandshakeError::InvalidHelloAckEnvelope { .. } => {
            "control.handshake.invalid_hello_ack_envelope"@
        },
        HandshakeError::HelloAckVersionMismatch => "control.handshake.hello_ack_version_mismatch"@,
        HandshakeError::IdentityMismatch { .. } => "control.handshake.identity_mismatch"@,
        HandshakeError::PeerIdentity(_) => "control.handshake.peer_identity"@,
        HandshakeError::Negotiation(_) => "control.handshake.negotiation"@,
    }
}

#[must_use]
pub fn handshake_diagnostic_code(error: &HandshakeError) -> (code: &'static str)
    ensures
        code@ == spec_handshake_diagnostic_code(*error),
{
    match error {
        HandshakeError::Transport(error) => transport_diagnostic_code(error),
        HandshakeError::MissingProtocolVersion => "control.handshake.missing_version",
        HandshakeError::VersionOutOfRange => "control.handshake.version_out_of_range",
        HandshakeError::InvalidPrincipalIdLength { .. } => "control.handshake.invalid_principal_id",
        HandshakeError::UnsupportedRole { .. } => "control.handshake.unsupported_role",
        HandshakeError::UnexpectedPayload => "control.handshake.unexpected_payload",
        HandshakeError::InvalidHelloEnvelope { .. } => "control.handshake.invalid_hello_envelope",
        HandshakeError::HelloVersionMismatch { .. } => "control.handshake.hello_version_mismatch",
        HandshakeError::Rejected { .. } => "control.handshake.rejected",
        HandshakeError::InvalidSessionId => "control.handshake.invalid_session",
        HandshakeError::InvalidHelloAckEnvelope { .. } => {
            "control.handshake.invalid_hello_ack_envelope"
        },
        HandshakeError::HelloAckVersionMismatch => "control.handshake.hello_ack_version_mismatch",
        HandshakeError::IdentityMismatch { .. } => "control.handshake.identity_mismatch",
        HandshakeError::PeerIdentity(_) => "control.handshake.peer_identity",
        HandshakeError::Negotiation(_) => "control.handshake.negotiation",
    }
}

/// The code of an error, whatever values it holds.
pub open spec fn spec_command_authorization_diagnostic_code(error: CommandAuthorizationError) -> Seq<char> {
    match error {
        CommandAuthorizationError::MissingPayload => "control.command.missing_payload"@,
        CommandAuthorizationError::HandshakePayloadAfterEstablishment => {
            "control.command.handshake_payload_after_establishment"@
        },
        CommandAuthorizationError::MissingProtocolVersion => "control.command.missing_version"@,
        CommandAuthorizationError::ProtocolVersionOutOfRange => {
            "control.command.version_out_of_range"@
        },
        CommandAuthorizationError::WrongProtocolVersion { .. } => "control.command.wrong_version"@,
        CommandAuthorizationError::WrongSession { .. } => "control.command.wrong_session"@,
        CommandAuthorizationError::NonIncreasingSequence { .. } => {
            "control.command.replayed_sequence"@
        },
        CommandAuthorizationError::Unauthorized { .. } => "control.command.unauthorized"@,
    }
}

#[must_use]
pub fn command_authorization_diagnostic_code(error: &CommandAuthorizationError) -> (code: &'static str)
    ensures
        code@ == spec_command_authorization_diagnostic_code(*error),
{
    match error {
        CommandAuthorizationError::MissingPayload => "control.command.missing_payload",
        CommandAuthorizationError::HandshakePayloadAfterEstablishment => {
            "control.command.handshake_payload_after_establishment"
        },
        CommandAuthorizationError::MissingProtocolVersion => "control.command.missing_version",
        CommandAuthorizationError::ProtocolVersionOutOfRange => {
            "control.command.version_out_of_range"
        },
        CommandAuthorizationError::WrongProtocolVersion { .. } => "control.command.wrong_version",
        CommandAuthorizationError::WrongSession { .. } => "control.command.wrong_session",
        CommandAuthorizationError::NonIncreasingSequence { .. } => {
            "control.command.replayed_sequence"
        },
        CommandAuthorizationError::Unauthorized { .. } => "control.command.unauthorized",
    }
}

/// The code of an error, whatever values it holds.
pub open spec fn spec_heartbeat_diagnostic_code(error: HeartbeatError) -> Seq<char> {
    match error {
        HeartbeatError::SessionMismatch { .. } => "control.heartbeat.wrong_session"@,
        HeartbeatError::NonIncreasingSequence { .. } => "control.heartbeat.replayed_sequence"@,
    }
}

#[must_use]
pub fn heartbeat_diagnostic_code(error: &HeartbeatError) -> (code: &'static str)
    ensures
        code@ == spec_heartbeat_diagnostic_code(*error),
{
    match error {
        HeartbeatError::SessionMismatch { .. } => "control.heartbeat.wrong_session",
        HeartbeatError::NonIncreasingSequence { .. } => "control.heartbeat.replayed_sequence",
    }
}

/// The code of an error, whatever values it holds.
pub open spec fn spec_stream_offer_diagnostic_code(error: StreamOfferError) -> Seq<char> {
    match error {
        StreamOfferError::InvalidStreamId => "control.stream.invalid_stream"@,
        StreamOfferError::UnsupportedKind => "control.stream.unsupported_kind"@,
        StreamOfferError::MissingProfile => "control.stream.missing_profile"@,
        StreamOfferError::UnsupportedCodec => "control.stream.unsupported_codec"@,
        StreamOfferError::ProfileValueOutOfRange => "control.stream.invalid_profile"@,
        StreamOfferError::InvalidProfile(_) => "control.stream.invalid_profile"@,
        StreamOfferError::UnsupportedTransport => "control.stream.unsupported_transport"@,
        StreamOfferError::TransportCapabilityNotNegotiated => {
            "control.stream.transport_not_negotiated"@
        },
        StreamOfferError::TransportParametersTooLarge => {
            "control.stream.transport_parameters_too_large"@
        },
        StreamOfferError::InvalidUdpUnicastParameters => {
            "control.stream.invalid_udp_unicast_parameters"@
        },
    }
}

#[must_use]
pub fn stream_offer_diagnostic_code(error: &StreamOfferError) -> (code: &'static str)
    ensures
        code@ == spec_stream_offer_diagnostic_code(*error),
{
    match error {
        StreamOfferError::InvalidStreamId => "control.stream.invalid_stream",
        StreamOfferError::UnsupportedKind => "control.stream.unsupported_kind",
        StreamOfferError::MissingProfile => "control.stream.missing_profile",
        StreamOfferError::UnsupportedCodec => "control.stream.unsupported_codec",
        StreamOfferError::ProfileValueOutOfRange => "control.stream.invalid_profile",
        StreamOfferError::InvalidProfile(_) => "control.stream.invalid_profile",
        StreamOfferError::UnsupportedTransport => "control.stream.unsupported_transport",
        StreamOfferError::TransportCapabilityNotNegotiated => {
            "control.stream.transport_not_negotiated"
        },
        StreamOfferError::TransportParametersTooLarge => {
            "control.stream.transport_parameters_too_large"
        },
        StreamOfferError::InvalidUdpUnicastParameters => {
            "control.stream.invalid_udp_unicast_parameters"
        },
    }
}

/// The code of an error, whatever values it holds.
pub open spec fn spec_privileged_dispatch_diagnostic_code(error: PrivilegedDispatchError) -> Seq<char> {
    match error {
        PrivilegedDispatchError::UnsupportedPayload => "control.command.unsupported_payload"@,
        PrivilegedDispatchError::MalformedInputEvent => "control.command.malformed_input"@,
        PrivilegedDispatchError::InputSequenceMismatch { .. } => {
            "control.command.input_sequence_mismatch"@
        },
        PrivilegedDispatchError::ClipboardReadRequestMissingId => {
            "control.command.clipboard_missing_request_id"@
        },
        PrivilegedDispatchError::InvalidClipboardText(_) => {
            "control.command.clipboard_text_too_large"@
        },
        PrivilegedDispatchError::Authorization(error) => {
            spec_command_authorization_diagnostic_code(error)
        },
    }
}

#[must_use]
pub fn privileged_dispatch_diagnostic_code(error: &PrivilegedDispatchError) -> (code: &'static str)
    ensures
        code@ == spec_privileged_dispatch_diagnostic_code(*error),
{
    match error {
        PrivilegedDispatchError::UnsupportedPayload => "control.command.unsupported_payload",
        PrivilegedDispatchError::MalformedInputEvent => "control.command.malformed_input",
        PrivilegedDispatchError::InputSequenceMismatch { .. } => {
            "control.command.input_sequence_mismatch"
        },
        PrivilegedDispatchError::ClipboardReadRequestMissingId => {
            "control.command.clipboard_missing_request_id"
        },
        PrivilegedDispatchError::InvalidClipboardText(_) => {
            "control.command.clipboard_text_too_large"
        },
        PrivilegedDispatchError::Authorization(error) => {
            command_authorization_diagnostic_code(error)
        },
    }
}

/// A code tells what kind of fault there was and nothing of the values in it, and the codes of the
/// outer faults are those of the faults that they carry.
pub proof fn law_codes_tell_nothing_of_the_peer(
    transports: (ControlTransportError, ControlTransportError),
    commands: (CommandAuthorizationError, CommandAuthorizationError),
    heartbeats: (HeartbeatError, HeartbeatError),
)
    ensures
        spec_handshake_diagnostic_code(HandshakeError::Transport(transports.0))
            == spec_transport_diagnostic_code(transports.0),
        spec_privileged_dispatch_diagnostic_code(
            PrivilegedDispatchError::Authorization(commands.0),
        ) == spec_command_authorization_diagnostic_code(commands.0),
        (transports.0 is Frame && transports.1 is Frame) || (transports.0 is Timeout
            && transports.1 is Timeout) || (transports.0 is Configuration
            && transports.1 is Configuration) || (transports.0 is Transport
            && transports.1 is Transport) ==> spec_transport_diagnostic_code(transports.0)
            == spec_transport_diagnostic_code(transports.1),
        (commands.0 is WrongSession && commands.1 is WrongSession) || (commands.0
            is NonIncreasingSequence && commands.1 is NonIncreasingSequence) || (commands.0
            is Unauthorized && commands.1 is Unauthorized) || (commands.0 is WrongProtocolVersion
            && commands.1 is WrongProtocolVersion) ==> spec_command_authorization_diagnostic_code(
            commands.0,
        ) == spec_command_authorization_diagnostic_code(commands.1),
        (heartbeats.0 is SessionMismatch && heartbeats.1 is SessionMismatch) || (heartbeats.0
            is NonIncreasingSequence && heartbeats.1 is NonIncreasingSequence)
            ==> spec_heartbeat_diagnostic_code(heartbeats.0) == spec_heartbeat_diagnostic_code(
            heartbeats.1,
        ),
{
}

} // verus!
