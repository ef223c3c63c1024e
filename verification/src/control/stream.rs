//! Which stream offers are taken, and where their packets go.

use crate::bytes::copy_all;
use crate::engine::adaptation::{StreamProfile, StreamProfileError};
use crate::network::address::{IpAddress, SocketAddress};
use crate::ordered::OrderedSet;
use crate::protocol::control_wire::{
    MediaTransport as WireMediaTransport, StreamKind as WireStreamKind, StreamOffer, VideoCodec,
    VideoProfile,
};
use crate::protocol::Capability;
use vstd::prelude::*;

verus! {

pub const MAX_STREAM_TRANSPORT_PARAMETERS: usize = 4096;

pub const UDP_UNICAST_PARAMETERS_VERSION: u8 = 1;

pub const UDP_UNICAST_PARAMETERS_LEN: usize = 3;

#[derive(Debug, Clone, Copy, PartialEq, Eq, Structural)]
pub enum StreamOfferError {
    InvalidStreamId,
    UnsupportedKind,
    MissingProfile,
    UnsupportedCodec,
    ProfileValueOutOfRange,
    InvalidProfile(StreamProfileError),
    UnsupportedTransport,
    TransportCapabilityNotNegotiated,
    TransportParametersTooLarge,
    InvalidUdpUnicastParameters,
}

#[derive(Debug, Clone, PartialEq, Eq)]
pub struct ValidatedInteractiveStreamOffer {
    pub stream_id: u64,
    pub profile: StreamProfile,
    pub transport: WireMediaTransport,
    pub transport_parameters: Vec<u8>,
}

/// The port in a stream's parameters, where they are the version byte and a port other than
/// zero.
pub open spec fn spec_unicast_port(parameters: Seq<u8>) -> Result<u16, StreamOfferError> {
    if parameters.len() == UDP_UNICAST_PARAMETERS_LEN && parameters[0]
        == UDP_UNICAST_PARAMETERS_VERSION && (parameters[1] != 0 || parameters[2] != 0) {
        Ok((parameters[1] * 256 + parameters[2]) as u16)
    } else {
        Err(StreamOfferError::InvalidUdpUnicastParameters)
    }
}

pub fn udp_unicast_port(parameters: &[u8]) -> (result: Result<u16, StreamOfferError>)
    ensures
        result == spec_unicast_port(parameters@),
{
    if parameters.len() != UDP_UNICAST_PARAMETERS_LEN {
        return Err(StreamOfferError::InvalidUdpUnicastParameters);
    }
    if parameters[0] != UDP_UNICAST_PARAMETERS_VERSION {
        return Err(StreamOfferError::InvalidUdpUnicastParameters);
    }
    let port: u16 = parameters[1] as u16 * 256 + parameters[2] as u16;
    if port == 0 {
        return Err(StreamOfferError::InvalidUdpUnicastParameters);
    }
    Ok(port)
}

/// The address of the authenticated peer, with the port that it asks for: a peer cannot have
/// packets sent elsewhere.
pub fn peer_bound_udp_unicast_destination(peer_ip: IpAddress, parameters: &[u8]) -> (result: Result<
    SocketAddress,
    StreamOfferError,
>)
    ensures
        result == match spec_unicast_port(parameters@) {
            Ok(port) => Ok(SocketAddress::spec_new(peer_ip, port)),
            Err(error) => Err(error),
        },
{
    match udp_unicast_port(parameters) {
        Ok(port) => Ok(SocketAddress::new(peer_ip, port)),
        Err(error) => Err(error),
    }
}

/// What a profile on the wire leads to.
pub open spec fn spec_profile_from_wire(profile: VideoProfile) -> Result<
    StreamProfile,
    StreamOfferError,
> {
    if profile.codec != VideoCodec::H264.spec_number() {
        Err(StreamOfferError::UnsupportedCodec)
    } else if profile.width > u16::MAX || profile.height > u16::MAX || profile.fps > u8::MAX {
        Err(StreamOfferError::ProfileValueOutOfRange)
    } else {
        let read = StreamProfile::of(
            profile.width as u16,
            profile.height as u16,
            profile.fps as u8,
            profile.bitrate_kbps,
        );
        if read.has_valid_geometry() {
            Ok(read)
        } else {
            Err(StreamOfferError::InvalidProfile(StreamProfileError::InvalidGeometry))
        }
    }
}

pub fn stream_profile_from_wire(profile: &VideoProfile) -> (result: Result<
    StreamProfile,
    StreamOfferError,
>)
    ensures
        result == spec_profile_from_wire(*profile),
{
    if profile.codec != VideoCodec::H264.number() {
        return Err(StreamOfferError::UnsupportedCodec);
    }
    if profile.width > u16::MAX as u32 || profile.height > u16::MAX as u32 || profile.fps
        > u8::MAX as u32 {
        return Err(StreamOfferError::ProfileValueOutOfRange);
    }
    match StreamProfile::new(
        profile.width as u16,
        profile.height as u16,
        profile.fps as u8,
        profile.bitrate_kbps,
    ).validate() {
        Ok(profile) => Ok(profile),
        Err(error) => Err(StreamOfferError::InvalidProfile(error)),
    }
}

/// A profile on the wire.
pub open spec fn spec_profile_to_wire(profile: StreamProfile) -> VideoProfile {
    VideoProfile {
        width: profile.width as u32,
        height: profile.height as u32,
        fps: profile.fps as u32,
        bitrate_kbps: profile.bitrate_kbps,
        codec: VideoCodec::H264.spec_number(),
    }
}

#[must_use]
pub fn stream_profile_to_wire(profile: StreamProfile) -> (wire: VideoProfile)
    ensures
        wire == spec_profile_to_wire(profile),
{
    VideoProfile {
        width: profile.width as u32,
        height: profile.height as u32,
        fps: profile.fps as u32,
        bitrate_kbps: profile.bitrate_kbps,
        codec: VideoCodec::H264.number(),
    }
}

/// The transport with a number on the wire, where an interactive stream can use it with the
/// given parameters.
pub open spec fn spec_offered_transport(number: i32, parameters: Seq<u8>) -> Result<
    (WireMediaTransport, Capability),
    StreamOfferError,
> {
    if number == WireMediaTransport::UdpUnicast.spec_number() {
        match spec_unicast_port(parameters) {
            Ok(_) => Ok((WireMediaTransport::UdpUnicast, Capability::UdpUnicast)),
            Err(error) => Err(error),
        }
    } else if number == WireMediaTransport::QuicDatagram.spec_number() {
        Ok((WireMediaTransport::QuicDatagram, Capability::QuicDatagram))
    } else if number == WireMediaTransport::Webrtc.spec_number() {
        Ok((WireMediaTransport::Webrtc, Capability::WebRtc))
    } else {
        Err(StreamOfferError::UnsupportedTransport)
    }
}

/// What an offer leads to: the profile and the transport, or the first rule that it breaks.
pub open spec fn spec_validate_offer(offer: StreamOffer, negotiated: Set<Capability>) -> Result<
    (StreamProfile, WireMediaTransport),
    StreamOfferError,
> {
    if offer.stream_id == 0 {
        Err(StreamOfferError::InvalidStreamId)
    } else if offer.kind != WireStreamKind::Interactive.spec_number() {
        Err(StreamOfferError::UnsupportedKind)
    } else if offer.transport_parameters@.len() > MAX_STREAM_TRANSPORT_PARAMETERS {
        Err(StreamOfferError::TransportParametersTooLarge)
    } else {
        match offer.profile {
            None => Err(StreamOfferError::MissingProfile),
            Some(wire) => match spec_profile_from_wire(wire) {
                Err(error) => Err(error),
                Ok(profile) => match spec_offered_transport(
                    offer.transport,
                    offer.transport_parameters@,
                ) {
                    Err(error) => Err(error),
                    Ok((transport, capability)) => if negotiated.contains(capability) {
                        Ok((profile, transport))
                    } else {
                        Err(StreamOfferError::TransportCapabilityNotNegotiated)
                    },
                },
            },
        }
    }
}

pub fn validate_interactive_stream_offer(
    offer: &StreamOffer,
    negotiated_capabilities: &OrderedSet<Capability>,
) -> (result: Result<ValidatedInteractiveStreamOffer, StreamOfferError>)
    requires
        negotiated_capabilities.wf(),
    ensures
        match result {
            Ok(validated) => spec_validate_offer(*offer, negotiated_capabilities@) == Ok::<
                (StreamProfile, WireMediaTransport),
                StreamOfferError,
            >((validated.profile, validated.transport)) && validated.stream_id == offer.stream_id
                && validated.transport_parameters@ == offer.transport_parameters@,
            Err(error) => spec_validate_offer(*offer, negotiated_capabilities@) == Err::<
                (StreamProfile, WireMediaTransport),
                StreamOfferError,
            >(error),
        },
{
    if offer.stream_id == 0 {
        return Err(StreamOfferError::InvalidStreamId);
    }
    if offer.kind != WireStreamKind::Interactive.number() {
        return Err(StreamOfferError::UnsupportedKind);
    }
    if offer.transport_parameters.len() > MAX_STREAM_TRANSPORT_PARAMETERS {
        return Err(StreamOfferError::TransportParametersTooLarge);
    }
    let profile = match &offer.profile {
        None => return Err(StreamOfferError::MissingProfile),
        Some(wire) => match stream_profile_from_wire(wire) {
            Ok(profile) => profile,
            Err(error) => return Err(error),
        },
    };
    let transport = match WireMediaTransport::from_number(offer.transport) {
        Some(transport) => transport,
        None => {
            assert(WireMediaTransport::UdpUnicast.spec_number() != offer.transport);
            assert(WireMediaTransport::QuicDatagram.spec_number() != offer.transport);
            assert(WireMediaTransport::Webrtc.spec_number() != offer.transport);
            return Err(StreamOfferError::UnsupportedTransport);
        },
    };
    let required_capability = match transport {
        WireMediaTransport::UdpUnicast => {
            match udp_unicast_port(offer.transport_parameters.as_slice()) {
                Ok(_) => {},
                Err(error) => return Err(error),
            }
            Capability::UdpUnicast
        },
        WireMediaTransport::QuicDatagram => Capability::QuicDatagram,
        WireMediaTransport::Webrtc => Capability::WebRtc,
        _ => return Err(StreamOfferError::UnsupportedTransport),
    };
    if !negotiated_capabilities.contains(&required_capability) {
        return Err(StreamOfferError::TransportCapabilityNotNegotiated);
    }
    Ok(
        ValidatedInteractiveStreamOffer {
            stream_id: offer.stream_id,
            profile,
            transport,
            transport_parameters: copy_all(offer.transport_parameters.as_slice()),
        },
    )
}

/// A profile that can be encoded comes back from the wire as it went out.
pub proof fn law_profile_round_trip(profile: StreamProfile)
    requires
        profile.has_valid_geometry(),
    ensures
        spec_profile_from_wire(spec_profile_to_wire(profile)) == Ok::<
            StreamProfile,
            StreamOfferError,
        >(profile),
{
}

/// An offer is taken only with a transport that the session policy accepts too.
pub proof fn law_taken_offers_are_negotiated(offer: StreamOffer, negotiated: Set<Capability>)
    requires
        spec_validate_offer(offer, negotiated) is Ok,
    ensures
        super::session_policy::spec_validate_transport(negotiated, offer.transport) is Ok,
{
}

/// Completeness of acceptance: an offer of an interactive stream with an identifier, parameters
/// that are not too long and a picture that can be encoded is taken for each transport that such
/// a stream can use, whenever the matching capability was negotiated, and the result names that
/// same transport and that same picture.
pub proof fn law_sound_offers_are_taken(offer: StreamOffer, negotiated: Set<Capability>)
    requires
        offer.stream_id != 0,
        offer.kind == 2,
        offer.transport_parameters@.len() <= 4096,
        offer.profile matches Some(wire) && wire.codec == 1 && 0 < wire.width <= u16::MAX && 0
            < wire.height <= u16::MAX && wire.width % 2 == 0 && wire.height % 2 == 0 && wire.fps
            <= u8::MAX,
    ensures
        ({
            let parameters = offer.transport_parameters@;
            let well_formed_port = parameters.len() == 3 && parameters[0] == 1 && (parameters[1]
                != 0 || parameters[2] != 0);
            let result = spec_validate_offer(offer, negotiated);
            &&& offer.transport == 2 && well_formed_port && negotiated.contains(
                Capability::UdpUnicast,
            ) ==> result is Ok && result->Ok_0.1 == WireMediaTransport::UdpUnicast
            &&& offer.transport == 3 && negotiated.contains(Capability::QuicDatagram) ==> result
                is Ok && result->Ok_0.1 == WireMediaTransport::QuicDatagram
            &&& offer.transport == 4 && negotiated.contains(Capability::WebRtc) ==> result is Ok
                && result->Ok_0.1 == WireMediaTransport::Webrtc
            &&& result is Ok ==> {
                let profile = result->Ok_0.0;
                let wire = offer.profile->Some_0;
                &&& profile.width == wire.width && profile.height == wire.height
                &&& profile.fps == wire.fps && profile.bitrate_kbps == wire.bitrate_kbps
            }
        }),
{
}

/// Each rule binds by itself: an offer that breaks one of them is refused, however sound the rest
/// is, and with the rule that it breaks where it breaks no other.
pub proof fn law_every_rule_of_an_offer_binds(offer: StreamOffer, negotiated: Set<Capability>)
    ensures
        ({
            let result = spec_validate_offer(offer, negotiated);
            let parameters = offer.transport_parameters@;
            let named = offer.stream_id != 0;
            let interactive = offer.kind == 2;
            let short = parameters.len() <= 4096;
            &&& !named ==> result == Err::<(StreamProfile, WireMediaTransport), _>(
                StreamOfferError::InvalidStreamId,
            )
            &&& named && !interactive ==> result == Err::<(StreamProfile, WireMediaTransport), _>(
                StreamOfferError::UnsupportedKind,
            )
            &&& named && interactive && !short ==> result == Err::<
                (StreamProfile, WireMediaTransport),
                _,
            >(StreamOfferError::TransportParametersTooLarge)
            &&& named && interactive && short && offer.profile is None ==> result == Err::<
                (StreamProfile, WireMediaTransport),
                _,
            >(StreamOfferError::MissingProfile)
            &&& offer.profile matches Some(wire) ==> {
                &&& wire.codec != 1 ==> result is Err
                &&& wire.width == 0 || wire.width > u16::MAX || wire.width % 2 != 0 ==> result
                    is Err
                &&& wire.height == 0 || wire.height > u16::MAX || wire.height % 2 != 0 ==> result
                    is Err
                &&& wire.fps > u8::MAX ==> result is Err
            }
            &&& offer.transport < 2 || offer.transport > 4 ==> result is Err
            &&& offer.transport == 2 && !(parameters.len() == 3 && parameters[0] == 1 && (
            parameters[1] != 0 || parameters[2] != 0)) ==> result is Err
            &&& offer.transport == 2 && !negotiated.contains(Capability::UdpUnicast) ==> result
                is Err
            &&& offer.transport == 3 && !negotiated.contains(Capability::QuicDatagram) ==> result
                is Err
            &&& offer.transport == 4 && !negotiated.contains(Capability::WebRtc) ==> result is Err
        }),
{
}

/// A port travels with its high byte first, and comes out as it went in.
pub proof fn law_port_round_trip(port: u16, parameters: Seq<u8>)
    requires
        port != 0,
        parameters.len() == 3,
        parameters[0] == 1,
        parameters[1] == port / 256,
        parameters[2] == port % 256,
    ensures
        spec_unicast_port(parameters) == Ok::<_, StreamOfferError>(port),
{
}

/// A profile's fault is named: another codec, a number that is too large, or a picture that
/// cannot be encoded.
pub proof fn law_profile_faults_are_named(profile: VideoProfile)
    ensures
        ({
            let result = spec_profile_from_wire(profile);
            let large = profile.width > 65535 || profile.height > 65535 || profile.fps > 255;
            &&& profile.codec != 1 ==> result == Err::<StreamProfile, _>(
                StreamOfferError::UnsupportedCodec,
            )
            &&& profile.codec == 1 && large ==> result == Err::<StreamProfile, _>(
                StreamOfferError::ProfileValueOutOfRange,
            )
            &&& profile.codec == 1 && !large && (profile.width == 0 || profile.height == 0
                || profile.width % 2 == 1 || profile.height % 2 == 1) ==> result == Err::<
                StreamProfile,
                _,
            >(StreamOfferError::InvalidProfile(StreamProfileError::InvalidGeometry))
        }),
{
}

} // verus!
