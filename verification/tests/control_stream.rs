use classmesh::control::presentation_state::{PresentationOwnership, PresentationOwnershipError};
use classmesh::control::session_policy::{
    validate_stream_offer, validate_stream_reconfigure, SessionPolicyError,
    MEDIA_TRANSPORT_QUIC_DATAGRAM, MEDIA_TRANSPORT_UDP_UNICAST, MEDIA_TRANSPORT_WEBRTC,
};
use classmesh::control::stream::{
    peer_bound_udp_unicast_destination, stream_profile_from_wire, stream_profile_to_wire,
    udp_unicast_port, validate_interactive_stream_offer, StreamOfferError,
    MAX_STREAM_TRANSPORT_PARAMETERS,
};
use classmesh::engine::adaptation::{StreamProfile, StreamProfileError};
use classmesh::network::address::{IpAddress, Ipv4Address, SocketAddress};
use classmesh::ordered::OrderedSet;
use classmesh::protocol::control_wire::{
    MediaTransport as WireMediaTransport, StreamKind as WireStreamKind, StreamOffer,
    StreamReconfigure, VideoCodec, VideoProfile,
};
use classmesh::protocol::Capability;
use classmesh::security::PrincipalId;

fn monitoring_offer(transport: i32) -> StreamOffer {
    StreamOffer {
        stream_id: 7,
        kind: WireStreamKind::Monitoring as i32,
        transport,
        profile: Some(VideoProfile {
            width: 1920,
            height: 1080,
            fps: 30,
            bitrate_kbps: 4_000,
            codec: 1,
        }),
        transport_parameters: Vec::new(),
    }
}

#[test]
fn negotiated_transport_must_have_matching_capability() {
    let capabilities = OrderedSet::from_slice(&[Capability::UdpUnicast]);

    validate_stream_offer(&capabilities, &monitoring_offer(MEDIA_TRANSPORT_UDP_UNICAST))
        .expect("negotiated UDP unicast should be accepted");
    assert_eq!(
        validate_stream_offer(&capabilities, &monitoring_offer(MEDIA_TRANSPORT_QUIC_DATAGRAM)),
        Err(SessionPolicyError::MissingNegotiatedCapability {
            capability: Capability::QuicDatagram,
        })
    );
}

#[test]
fn unspecified_and_reliable_fallback_fail_closed_until_explicitly_negotiated() {
    let capabilities = OrderedSet::from_slice(&[Capability::UdpMulticast, Capability::UdpUnicast, Capability::QuicDatagram, Capability::WebRtc]);

    for transport in [0, 5, 99] {
        assert_eq!(
            validate_stream_offer(&capabilities, &monitoring_offer(transport)),
            Err(SessionPolicyError::UnsupportedOrUnspecifiedTransport { transport })
        );
    }
}

#[test]
fn reconfigure_uses_the_same_negotiated_transport_policy() {
    let capabilities = OrderedSet::from_slice(&[Capability::WebRtc]);
    let reconfigure = StreamReconfigure {
        stream_id: 7,
        profile: None,
        transport: MEDIA_TRANSPORT_WEBRTC,
        transport_parameters: Vec::new(),
    };

    validate_stream_reconfigure(&capabilities, &reconfigure)
        .expect("negotiated WebRTC should be accepted");
}

fn interactive_offer(transport: WireMediaTransport) -> StreamOffer {
    StreamOffer {
        stream_id: 7,
        kind: WireStreamKind::Interactive as i32,
        transport: transport as i32,
        profile: Some(VideoProfile {
            width: 1280,
            height: 720,
            fps: 30,
            bitrate_kbps: 2_500,
            codec: VideoCodec::H264 as i32,
        }),
        transport_parameters: vec![1, 2, 3],
    }
}

#[test]
fn explicit_unicast_offer_requires_negotiated_transport_capability() {
    let offer = interactive_offer(WireMediaTransport::UdpUnicast);
    assert_eq!(
        validate_interactive_stream_offer(&offer, &OrderedSet::new()),
        Err(StreamOfferError::TransportCapabilityNotNegotiated)
    );

    let validated =
        validate_interactive_stream_offer(&offer, &OrderedSet::from_slice(&[Capability::UdpUnicast]))
            .expect("negotiated UDP unicast should validate");
    assert_eq!(validated.stream_id, 7);
    assert_eq!(validated.profile, StreamProfile::new(1280, 720, 30, 2_500));
    assert_eq!(validated.transport, WireMediaTransport::UdpUnicast);
}

#[test]
fn interactive_offer_never_invents_or_accepts_an_implicit_transport() {
    for transport in [
        WireMediaTransport::Unspecified,
        WireMediaTransport::UdpMulticast,
        WireMediaTransport::ReliableFallback,
    ] {
        assert_eq!(
            validate_interactive_stream_offer(&interactive_offer(transport), &OrderedSet::new()),
            Err(StreamOfferError::UnsupportedTransport)
        );
    }
}

#[test]
fn invalid_profile_and_large_transport_parameters_fail_closed() {
    let mut bad_profile = interactive_offer(WireMediaTransport::QuicDatagram);
    bad_profile.profile.as_mut().expect("profile").width = 1_919;
    assert!(matches!(
        validate_interactive_stream_offer(
            &bad_profile,
            &OrderedSet::from_slice(&[Capability::QuicDatagram]),
        ),
        Err(StreamOfferError::InvalidProfile(
            StreamProfileError::InvalidGeometry
        ))
    ));

    let mut large = interactive_offer(WireMediaTransport::QuicDatagram);
    large.transport_parameters = vec![0; MAX_STREAM_TRANSPORT_PARAMETERS + 1];
    assert_eq!(
        validate_interactive_stream_offer(&large, &OrderedSet::from_slice(&[Capability::QuicDatagram]),),
        Err(StreamOfferError::TransportParametersTooLarge)
    );
}

#[test]
fn only_interactive_h264_nonzero_streams_are_accepted() {
    let capabilities = OrderedSet::from_slice(&[Capability::WebRtc]);

    let mut zero = interactive_offer(WireMediaTransport::Webrtc);
    zero.stream_id = 0;
    assert_eq!(
        validate_interactive_stream_offer(&zero, &capabilities),
        Err(StreamOfferError::InvalidStreamId)
    );

    let mut monitoring = interactive_offer(WireMediaTransport::Webrtc);
    monitoring.kind = WireStreamKind::Monitoring as i32;
    assert_eq!(
        validate_interactive_stream_offer(&monitoring, &capabilities),
        Err(StreamOfferError::UnsupportedKind)
    );

    let mut hevc = interactive_offer(WireMediaTransport::Webrtc);
    hevc.profile.as_mut().expect("profile").codec = VideoCodec::Hevc as i32;
    assert_eq!(
        validate_interactive_stream_offer(&hevc, &capabilities),
        Err(StreamOfferError::UnsupportedCodec)
    );
}

#[test]
fn udp_unicast_parameters_are_versioned_port_only() {
    assert_eq!(udp_unicast_port(&[1, 0x1f, 0x90]), Ok(8080));
    assert_eq!(
        udp_unicast_port(&[2, 0x1f, 0x90]),
        Err(StreamOfferError::InvalidUdpUnicastParameters)
    );
    assert_eq!(
        udp_unicast_port(&[1, 0, 0]),
        Err(StreamOfferError::InvalidUdpUnicastParameters)
    );
    assert_eq!(
        udp_unicast_port(&[1, 0x1f, 0x90, 1]),
        Err(StreamOfferError::InvalidUdpUnicastParameters)
    );
}

#[test]
fn udp_destination_ip_is_bound_to_authenticated_control_peer() {
    let peer = IpAddress::V4(Ipv4Address::new(192, 0, 2, 44));
    let destination =
        peer_bound_udp_unicast_destination(peer, &[1, 0x23, 0x28]).expect("destination");
    assert_eq!(destination, SocketAddress::new(peer, 9000));
}

#[test]
fn wire_profile_round_trip_preserves_bounded_h264_profile() {
    let profile = StreamProfile::new(960, 540, 30, 1_500);
    assert_eq!(
        stream_profile_from_wire(&stream_profile_to_wire(profile)),
        Ok(profile)
    );
}

fn principal(value: u8) -> PrincipalId {
    PrincipalId([value; 32])
}

#[test]
fn one_session_owns_one_presentation_and_exact_retry_is_idempotent() {
    let mut state = PresentationOwnership::default();
    let owner = state
        .start(principal(1), 10, 20, 30)
        .expect("first presentation should acquire ownership");
    assert_eq!(state.owner(), Some(owner));
    assert_eq!(
        state.start(principal(1), 10, 20, 30),
        Ok(owner),
        "exact request retry should not create a second owner"
    );
    assert_eq!(
        state.start(principal(2), 11, 21, 31),
        Err(PresentationOwnershipError::Busy)
    );
}

#[test]
fn stop_requires_exact_owner_and_presentation() {
    let mut state = PresentationOwnership::default();
    state.start(principal(1), 10, 20, 30).unwrap();

    assert_eq!(
        state.stop(principal(2), 10, 20),
        Err(PresentationOwnershipError::NotOwner)
    );
    assert_eq!(
        state.stop(principal(1), 10, 99),
        Err(PresentationOwnershipError::PresentationMismatch)
    );
    assert!(state.owner().is_some());

    assert_eq!(
        state.stop(principal(1), 10, 20).map(|owner| owner.stream_id),
        Ok(30)
    );
    assert!(state.owner().is_none());
}

#[test]
fn disconnect_cleanup_releases_only_the_exact_authenticated_session() {
    let mut state = PresentationOwnership::default();
    state.start(principal(1), 10, 20, 30).unwrap();

    assert!(state.release_session(principal(1), 11).is_none());
    assert!(state.release_session(principal(2), 10).is_none());
    assert!(state.owner().is_some());

    let released = state
        .release_session(principal(1), 10)
        .expect("exact session should release presentation");
    assert_eq!(released.presentation_id, 20);
    assert!(state.owner().is_none());
}

#[test]
fn zero_identifiers_fail_without_mutating_state() {
    let mut state = PresentationOwnership::default();
    assert_eq!(
        state.start(principal(1), 0, 20, 30),
        Err(PresentationOwnershipError::InvalidControlSession)
    );
    assert_eq!(
        state.start(principal(1), 10, 0, 30),
        Err(PresentationOwnershipError::InvalidPresentationId)
    );
    assert_eq!(
        state.start(principal(1), 10, 20, 0),
        Err(PresentationOwnershipError::InvalidStreamId)
    );
    assert!(state.owner().is_none());
}

#[test]
fn stopping_nothing_is_an_error() {
    let mut state = PresentationOwnership::default();
    assert_eq!(
        state.stop(principal(1), 10, 20),
        Err(PresentationOwnershipError::NotOwner)
    );
}

#[test]
fn offers_need_a_profile_that_fits() {
    let capabilities = OrderedSet::from_slice(&[Capability::WebRtc]);
    let mut missing = interactive_offer(WireMediaTransport::Webrtc);
    missing.profile = None;
    assert_eq!(
        validate_interactive_stream_offer(&missing, &capabilities),
        Err(StreamOfferError::MissingProfile)
    );
}
