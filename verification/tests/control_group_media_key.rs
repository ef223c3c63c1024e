use classmesh::control::group_media_key::{
    build_presentation_key_ack, install_received_presentation_key, PresentationKeyAckBuildError,
    PresentationKeyInstallError,
};
use classmesh::protocol::control_wire::{
    self, ControlEnvelope, Payload, PresentationKeyGrant,
};
use classmesh::protocol::group_media_control::GroupMediaControlError;
use classmesh::security::group_media::{
    GroupMediaEpoch, GroupMediaKeyMaterial, GroupMediaSender, GROUP_MEDIA_KEY_BYTES,
};

fn grant(value: u8) -> PresentationKeyGrant {
    PresentationKeyGrant {
        presentation_id: 55,
        stream_id: 7,
        epoch: 3,
        key_material: vec![value; GROUP_MEDIA_KEY_BYTES],
    }
}

fn grant_envelope(value: u8) -> ControlEnvelope {
    ControlEnvelope {
        control_session_id: 77,
        sequence: 2,
        protocol_version: Some(control_wire::ProtocolVersion {
            major: 0,
            minor: 4,
        }),
        request_id: 44,
        payload: Some(Payload::PresentationKeyGrant(grant(value))),
    }
}

#[test]
fn valid_wire_grant_installs_receiver_and_zeroizes_raw_protobuf_key() {
    let mut grant = grant(0x5a);
    let installed =
        install_received_presentation_key(&mut grant).expect("grant should install");

    assert_eq!(installed.presentation_id(), 55);
    assert_eq!(installed.stream_id(), 7);
    assert_eq!(installed.epoch().get(), 3);
    assert!(grant.key_material.iter().all(|byte| *byte == 0));
    assert!(!installed.debug_text().contains("5a"));
}

#[test]
fn invalid_wire_grant_zeroizes_key_before_returning_error() {
    let mut grant = grant(0x6b);
    grant.stream_id = 0;

    assert!(matches!(
        install_received_presentation_key(&mut grant),
        Err(PresentationKeyInstallError::InvalidWire(
            GroupMediaControlError::InvalidStreamId
        ))
    ));
    assert!(grant.key_material.iter().all(|byte| *byte == 0));
}

#[test]
fn installed_key_builds_exact_correlated_ack_after_raw_key_zeroization() {
    let mut envelope = grant_envelope(0x44);
    let installed = match envelope.payload.as_mut() {
        Some(Payload::PresentationKeyGrant(grant)) => {
            install_received_presentation_key(grant).expect("receiver install")
        }
        _ => panic!("expected grant"),
    };

    let Some(Payload::PresentationKeyGrant(grant)) =
        envelope.payload.as_ref()
    else {
        panic!("expected grant");
    };
    assert!(grant.key_material.iter().all(|byte| *byte == 0));

    let ack = build_presentation_key_ack(&envelope, &installed, 3).expect("correlated ACK");
    assert_eq!(ack.control_session_id, 77);
    assert_eq!(ack.sequence, 3);
    assert_eq!(ack.request_id, 44);
    assert_eq!(
        ack.protocol_version,
        Some(control_wire::ProtocolVersion {
            major: 0,
            minor: 4,
        })
    );
    let Some(Payload::PresentationKeyAck(ack_payload)) = ack.payload else {
        panic!("expected ACK");
    };
    assert_eq!(ack_payload.presentation_id, 55);
    assert_eq!(ack_payload.stream_id, 7);
    assert_eq!(ack_payload.epoch, 3);
}

#[test]
fn ack_builder_rejects_metadata_tamper_after_install() {
    let mut envelope = grant_envelope(0x45);
    let installed = match envelope.payload.as_mut() {
        Some(Payload::PresentationKeyGrant(grant)) => {
            install_received_presentation_key(grant).expect("receiver install")
        }
        _ => panic!("expected grant"),
    };

    let Some(Payload::PresentationKeyGrant(grant)) =
        envelope.payload.as_mut()
    else {
        panic!("expected grant");
    };
    grant.stream_id = 8;

    assert!(matches!(
        build_presentation_key_ack(&envelope, &installed, 3),
        Err(PresentationKeyAckBuildError::BindingMismatch)
    ));
    let Some(Payload::PresentationKeyGrant(grant)) = envelope.payload.as_ref() else {
        panic!("expected grant");
    };
    assert!(grant.key_material.iter().all(|byte| *byte == 0));
}

#[test]
fn ack_builder_requires_nonzero_wire_correlation_fields() {
    let mut envelope = grant_envelope(0x46);
    let installed = match envelope.payload.as_mut() {
        Some(Payload::PresentationKeyGrant(grant)) => {
            install_received_presentation_key(grant).expect("receiver install")
        }
        _ => panic!("expected grant"),
    };

    envelope.request_id = 0;
    assert!(matches!(
        build_presentation_key_ack(&envelope, &installed, 3),
        Err(PresentationKeyAckBuildError::ZeroRequestId)
    ));

    envelope.request_id = 44;
    assert!(matches!(
        build_presentation_key_ack(&envelope, &installed, 0),
        Err(PresentationKeyAckBuildError::ZeroSequence)
    ));
}

#[test]
fn installed_receiver_opens_frames_for_the_exact_epoch_key() {
    let mut sender_bytes = vec![0x33; GROUP_MEDIA_KEY_BYTES];
    let sender_material =
        GroupMediaKeyMaterial::import_received_wire(&mut sender_bytes).expect("sender key");
    let epoch = GroupMediaEpoch::new(3).expect("epoch");
    let mut sender = GroupMediaSender::new(epoch, &sender_material).expect("sender");

    let mut grant = grant(0x33);
    let mut installed =
        install_received_presentation_key(&mut grant).expect("receiver install");
    let aad = b"presentation=55:stream=7:epoch=3";
    let sealed = sender
        .seal_frame(b"presentation-frame", aad)
        .expect("sealed frame");

    assert_eq!(
        installed
            .open_frame(&sealed, aad)
            .expect("installed receiver decrypts"),
        b"presentation-frame"
    );
    assert!(grant.key_material.iter().all(|byte| *byte == 0));
}

#[test]
fn ack_builder_errors_have_their_inputs() {
    let mut envelope = grant_envelope(0x47);
    let installed = match envelope.payload.as_mut() {
        Some(Payload::PresentationKeyGrant(grant)) => {
            install_received_presentation_key(grant).expect("receiver install")
        }
        _ => panic!("expected grant"),
    };
    assert_eq!(
        installed.debug_text(),
        "InstalledPresentationKey { presentation_id: 55, stream_id: 7, epoch: GroupMediaEpoch(3), .. }"
    );

    let mut other = envelope.clone();
    other.control_session_id = 0;
    assert!(matches!(
        build_presentation_key_ack(&other, &installed, 3),
        Err(PresentationKeyAckBuildError::InvalidSessionId)
    ));
    let mut other = envelope.clone();
    other.protocol_version = None;
    assert!(matches!(
        build_presentation_key_ack(&other, &installed, 3),
        Err(PresentationKeyAckBuildError::MissingProtocolVersion)
    ));
    let mut other = envelope;
    other.payload = None;
    assert!(matches!(
        build_presentation_key_ack(&other, &installed, 3),
        Err(PresentationKeyAckBuildError::UnexpectedPayload)
    ));
}
