use classmesh::security::group_media::{
    validate_aad_len, validate_plaintext_len, validate_sealed_len, GroupMediaEpoch,
    GroupMediaError, GroupMediaKeyMaterial, GroupMediaReceiver, GroupMediaReplayError,
    GroupMediaSender, GROUP_MEDIA_KEY_BYTES, MAX_GROUP_MEDIA_AAD_BYTES,
    MAX_GROUP_MEDIA_FRAME_BYTES, MAX_GROUP_MEDIA_REPLAY_TOLERANCE_FRAMES,
    MAX_GROUP_MEDIA_SEALED_BYTES,
};

fn epoch(value: u32) -> GroupMediaEpoch {
    GroupMediaEpoch::new(value).expect("valid epoch")
}

fn key(value: u8) -> GroupMediaKeyMaterial {
    GroupMediaKeyMaterial::new([value; GROUP_MEDIA_KEY_BYTES])
}

fn pair(epoch_value: u32, key_value: u8) -> (GroupMediaSender, GroupMediaReceiver) {
    (
        GroupMediaSender::new(epoch(epoch_value), &key(key_value)).expect("sender"),
        GroupMediaReceiver::with_default_replay_tolerance(epoch(epoch_value), &key(key_value))
            .expect("receiver"),
    )
}

#[test]
fn epoch_zero_is_rejected() {
    assert!(matches!(
        GroupMediaEpoch::new(0),
        Err(GroupMediaError::InvalidEpoch)
    ));
}

#[test]
fn frame_round_trip_authenticates_external_associated_data() {
    let (mut sender, mut receiver) = pair(1, 0x11);
    let plaintext = b"encoded presentation frame";
    let aad = b"classmesh:presentation=7:stream=9:epoch=1";

    let sealed = sender
        .seal_frame(plaintext, aad)
        .expect("frame should encrypt");
    assert_ne!(sealed, plaintext);

    let opened = receiver
        .open_frame(&sealed, aad)
        .expect("frame should decrypt");
    assert_eq!(opened, plaintext);
}

#[test]
fn tampered_ciphertext_is_rejected_without_poisoning_replay_state() {
    let (mut sender, mut receiver) = pair(2, 0x22);
    let aad = b"presentation-binding";
    let sealed = sender.seal_frame(b"frame", aad).expect("encrypted frame");

    let mut tampered = sealed.clone();
    let last = tampered.last_mut().expect("sealed frame has tag");
    *last ^= 0x80;

    assert!(matches!(
        receiver.open_frame(&tampered, aad),
        Err(GroupMediaError::Crypto(_))
    ));

    assert_eq!(
        receiver
            .open_frame(&sealed, aad)
            .expect("original frame must still be accepted"),
        b"frame"
    );

    assert!(matches!(
        receiver.open_frame(&sealed, aad),
        Err(GroupMediaError::Replay(GroupMediaReplayError::Duplicate))
    ));
}

#[test]
fn tampered_associated_data_is_rejected_without_consuming_counter() {
    let (mut sender, mut receiver) = pair(3, 0x33);
    let sealed = sender
        .seal_frame(b"frame", b"correct-binding")
        .expect("encrypted frame");

    assert!(matches!(
        receiver.open_frame(&sealed, b"wrong-binding"),
        Err(GroupMediaError::Crypto(_))
    ));

    assert_eq!(
        receiver
            .open_frame(&sealed, b"correct-binding")
            .expect("valid AAD must remain acceptable"),
        b"frame"
    );
}

#[test]
fn another_epoch_is_rejected_before_decryption() {
    let mut sender = GroupMediaSender::new(epoch(4), &key(0x44)).expect("sender");
    let mut receiver = GroupMediaReceiver::with_default_replay_tolerance(epoch(5), &key(0x55))
        .expect("receiver");
    let sealed = sender
        .seal_frame(b"frame", b"binding")
        .expect("encrypted frame");

    assert!(matches!(
        receiver.open_frame(&sealed, b"binding"),
        Err(GroupMediaError::Replay(
            GroupMediaReplayError::UnexpectedEpoch
        ))
    ));
}

#[test]
fn replay_window_accepts_in_window_reordering_and_rejects_too_old_frames() {
    let mut sender = GroupMediaSender::new(epoch(6), &key(0x66)).expect("sender");
    let mut receiver = GroupMediaReceiver::new(epoch(6), &key(0x66), 3).expect("receiver");
    let aad = b"bounded-replay";
    let frames: Vec<Vec<u8>> = (0..5)
        .map(|value| sender.seal_frame(&[value], aad).expect("encrypted frame"))
        .collect();

    assert_eq!(
        receiver.open_frame(&frames[4], aad).expect("newest frame"),
        vec![4]
    );
    assert_eq!(
        receiver
            .open_frame(&frames[3], aad)
            .expect("in-window reordered frame"),
        vec![3]
    );
    assert!(matches!(
        receiver.open_frame(&frames[0], aad),
        Err(GroupMediaError::Replay(GroupMediaReplayError::TooOld))
    ));
}

#[test]
fn replay_tolerance_is_bounded() {
    assert!(matches!(
        GroupMediaReceiver::new(epoch(1), &key(1), 0),
        Err(GroupMediaError::InvalidReplayTolerance)
    ));
    assert!(matches!(
        GroupMediaReceiver::new(
            epoch(1),
            &key(1),
            MAX_GROUP_MEDIA_REPLAY_TOLERANCE_FRAMES + 1
        ),
        Err(GroupMediaError::InvalidReplayTolerance)
    ));
}

#[test]
fn length_limits_are_checked_without_large_allocations() {
    assert!(validate_plaintext_len(MAX_GROUP_MEDIA_FRAME_BYTES).is_ok());
    assert!(matches!(
        validate_plaintext_len(MAX_GROUP_MEDIA_FRAME_BYTES + 1),
        Err(GroupMediaError::FrameTooLarge)
    ));
    assert!(matches!(
        validate_aad_len(0),
        Err(GroupMediaError::MissingAssociatedData)
    ));
    assert!(validate_aad_len(MAX_GROUP_MEDIA_AAD_BYTES).is_ok());
    assert!(matches!(
        validate_aad_len(MAX_GROUP_MEDIA_AAD_BYTES + 1),
        Err(GroupMediaError::AadTooLarge)
    ));
    assert!(validate_sealed_len(MAX_GROUP_MEDIA_SEALED_BYTES).is_ok());
    assert!(matches!(
        validate_sealed_len(MAX_GROUP_MEDIA_SEALED_BYTES + 1),
        Err(GroupMediaError::SealedFrameTooLarge)
    ));
}

#[test]
fn keys_and_counters_make_frames_differ() {
    let (mut sender, mut receiver) = pair(7, 0x77);
    let first = sender.seal_frame(b"frame", b"binding").expect("sealed");
    let second = sender.seal_frame(b"frame", b"binding").expect("sealed");
    assert_ne!(first, second);
    assert_eq!(
        receiver.open_frame(&second, b"binding").expect("opened"),
        b"frame"
    );
    assert_eq!(
        receiver.open_frame(&first, b"binding").expect("opened"),
        b"frame"
    );

    let (_, mut stranger) = pair(7, 0x78);
    assert!(matches!(
        stranger.open_frame(&first, b"binding"),
        Err(GroupMediaError::Crypto(_))
    ));
}

#[test]
fn what_is_no_frame_is_not_opened() {
    let (_, mut receiver) = pair(7, 0x77);
    assert!(matches!(
        receiver.open_frame(&[], b"binding"),
        Err(GroupMediaError::Crypto(_))
    ));
    assert!(matches!(
        receiver.open_frame(b"x", b""),
        Err(GroupMediaError::MissingAssociatedData)
    ));
}

#[test]
fn generated_keys_differ() {
    let first = GroupMediaKeyMaterial::generate().expect("random key");
    let second = GroupMediaKeyMaterial::generate().expect("random key");
    let mut sender = GroupMediaSender::new(epoch(1), &first).expect("sender");
    let mut receiver =
        GroupMediaReceiver::with_default_replay_tolerance(epoch(1), &second).expect("receiver");
    let sealed = sender.seal_frame(b"frame", b"binding").expect("sealed");
    assert!(receiver.open_frame(&sealed, b"binding").is_err());
}

#[test]
fn drawn_bytes_become_the_key() {
    let drawn = GroupMediaKeyMaterial::from_drawn(Ok([0x42; GROUP_MEDIA_KEY_BYTES]))
        .expect("drawn key");
    let mut sender = GroupMediaSender::new(epoch(3), &drawn).expect("sender");
    let mut receiver =
        GroupMediaReceiver::with_default_replay_tolerance(epoch(3), &key(0x42)).expect("receiver");
    let sealed = sender.seal_frame(b"frame", b"binding").expect("sealed");
    assert_eq!(
        receiver.open_frame(&sealed, b"binding").expect("opened"),
        b"frame"
    );
    assert!(matches!(
        GroupMediaKeyMaterial::from_drawn(Err(rustls::crypto::GetRandomFailed)),
        Err(GroupMediaError::RandomUnavailable)
    ));
}

#[test]
fn received_keys_are_taken_off_the_wire() {
    let mut wire = vec![0x77; GROUP_MEDIA_KEY_BYTES];
    let imported = GroupMediaKeyMaterial::import_received_wire(&mut wire).expect("imported");
    assert!(wire.is_empty());
    let mut sender = GroupMediaSender::new(epoch(7), &key(0x77)).expect("sender");
    let mut receiver =
        GroupMediaReceiver::with_default_replay_tolerance(epoch(7), &imported).expect("receiver");
    let sealed = sender.seal_frame(b"frame", b"binding").expect("sealed");
    assert_eq!(
        receiver.open_frame(&sealed, b"binding").expect("opened"),
        b"frame"
    );
    let mut short = vec![0x77; GROUP_MEDIA_KEY_BYTES - 1];
    assert!(matches!(
        GroupMediaKeyMaterial::import_received_wire(&mut short),
        Err(GroupMediaError::InvalidKeyLength)
    ));
    assert!(short.is_empty());
}

#[test]
fn group_media_errors_speak() {
    let (_, mut receiver) = pair(7, 0x77);
    let crypto = receiver.open_frame(&[], b"binding").expect_err("no frame");
    let text = crypto.message();
    assert!(text.starts_with("group-media SFrame error: "));
    assert!(text.len() > "group-media SFrame error: ".len());
    assert_eq!(
        GroupMediaEpoch::new(0).expect_err("zero").message(),
        "group-media epoch must be non-zero"
    );
    assert_eq!(
        GroupMediaError::Replay(GroupMediaReplayError::TooOld).message(),
        "group-media replay rejected: TooOld"
    );
}

#[test]
fn opened_frames_stay_refused_whatever_follows() {
    let (mut sender, mut receiver) = pair(7, 0x77);
    let first = sender.seal_frame(b"first", b"binding").expect("sealed");
    receiver.open_frame(&first, b"binding").expect("opened");
    for index in 0..300_u32 {
        let sealed = sender
            .seal_frame(&index.to_be_bytes(), b"binding")
            .expect("sealed");
        receiver.open_frame(&sealed, b"binding").expect("opened");
        assert!(matches!(
            receiver.open_frame(&first, b"binding"),
            Err(GroupMediaError::Replay(
                GroupMediaReplayError::Duplicate | GroupMediaReplayError::TooOld
            ))
        ));
    }
}
