//! A stream's transport must be one that was negotiated.

use crate::ordered::OrderedSet;
use crate::protocol::control_wire::{StreamOffer, StreamReconfigure};
use crate::protocol::Capability;
use vstd::prelude::*;

verus! {

pub const MEDIA_TRANSPORT_UDP_MULTICAST: i32 = 1;

pub const MEDIA_TRANSPORT_UDP_UNICAST: i32 = 2;

pub const MEDIA_TRANSPORT_QUIC_DATAGRAM: i32 = 3;

pub const MEDIA_TRANSPORT_WEBRTC: i32 = 4;

#[derive(Debug, Clone, Copy, PartialEq, Eq, Structural)]
pub enum SessionPolicyError {
    UnsupportedOrUnspecifiedTransport { transport: i32 },
    MissingNegotiatedCapability { capability: Capability },
}

/// The capability that a transport's number on the wire asks for. An unspecified one, the
/// reliable fallback and unknown ones have none.
pub open spec fn spec_required_capability(transport: i32) -> Option<Capability> {
    if transport == 1 {
        Some(Capability::UdpMulticast)
    } else if transport == 2 {
        Some(Capability::UdpUnicast)
    } else if transport == 3 {
        Some(Capability::QuicDatagram)
    } else if transport == 4 {
        Some(Capability::WebRtc)
    } else {
        None
    }
}

#[must_use]
pub fn required_transport_capability(transport: i32) -> (capability: Option<Capability>)
    ensures
        capability == spec_required_capability(transport),
{
    match transport {
        MEDIA_TRANSPORT_UDP_MULTICAST => Some(Capability::UdpMulticast),
        MEDIA_TRANSPORT_UDP_UNICAST => Some(Capability::UdpUnicast),
        MEDIA_TRANSPORT_QUIC_DATAGRAM => Some(Capability::QuicDatagram),
        MEDIA_TRANSPORT_WEBRTC => Some(Capability::WebRtc),
        _ => None,
    }
}

/// What validating a transport leads to.
pub open spec fn spec_validate_transport(negotiated: Set<Capability>, transport: i32) -> Result<
    (),
    SessionPolicyError,
> {
    match spec_required_capability(transport) {
        None => Err(SessionPolicyError::UnsupportedOrUnspecifiedTransport { transport }),
        Some(capability) => if negotiated.contains(capability) {
            Ok(())
        } else {
            Err(SessionPolicyError::MissingNegotiatedCapability { capability })
        },
    }
}

pub fn validate_negotiated_transport(
    negotiated_capabilities: &OrderedSet<Capability>,
    transport: i32,
) -> (result: Result<(), SessionPolicyError>)
    requires
        negotiated_capabilities.wf(),
    ensures
        result == spec_validate_transport(negotiated_capabilities@, transport),
{
    let required = match required_transport_capability(transport) {
        Some(required) => required,
        None => return Err(SessionPolicyError::UnsupportedOrUnspecifiedTransport { transport }),
    };
    if !negotiated_capabilities.contains(&required) {
        return Err(SessionPolicyError::MissingNegotiatedCapability { capability: required });
    }
    Ok(())
}

pub fn validate_stream_offer(
    negotiated_capabilities: &OrderedSet<Capability>,
    offer: &StreamOffer,
) -> (result: Result<(), SessionPolicyError>)
    requires
        negotiated_capabilities.wf(),
    ensures
        result == spec_validate_transport(negotiated_capabilities@, offer.transport),
{
    validate_negotiated_transport(negotiated_capabilities, offer.transport)
}

pub fn validate_stream_reconfigure(
    negotiated_capabilities: &OrderedSet<Capability>,
    reconfigure: &StreamReconfigure,
) -> (result: Result<(), SessionPolicyError>)
    requires
        negotiated_capabilities.wf(),
    ensures
        result == spec_validate_transport(negotiated_capabilities@, reconfigure.transport),
{
    validate_negotiated_transport(negotiated_capabilities, reconfigure.transport)
}

/// Each of the four transports is accepted with its own capability and with no other; what is no
/// such transport is refused whatever was negotiated.
pub proof fn law_each_transport_needs_its_capability(negotiated: Set<Capability>, transport: i32)
    ensures
        ({
            let result = spec_validate_transport(negotiated, transport);
            &&& transport == 1 ==> (result is Ok <==> negotiated.contains(Capability::UdpMulticast))
            &&& transport == 2 ==> (result is Ok <==> negotiated.contains(Capability::UdpUnicast))
            &&& transport == 3 ==> (result is Ok <==> negotiated.contains(Capability::QuicDatagram))
            &&& transport == 4 ==> (result is Ok <==> negotiated.contains(Capability::WebRtc))
            &&& transport < 1 || transport > 4 ==> result == Err::<(), _>(
                SessionPolicyError::UnsupportedOrUnspecifiedTransport { transport },
            )
            &&& 1 <= transport <= 4 && result is Err ==> result->Err_0
                is MissingNegotiatedCapability && !negotiated.contains(
                result->Err_0->MissingNegotiatedCapability_capability,
            )
        }),
{
}

} // verus!
