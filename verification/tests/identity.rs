use classmesh::identity::cng::{
    check_status, encode_signature, message_digest, property_value, sec1_public_key_from_cng_blob,
    signature_length, validate_key_name, verification_outcome, CngKeyError, CngMachineKey,
    CngRcgenSigningKey, BAD_SIGNATURE_STATUS,
};
use classmesh::identity::machine_identity::{
    check_state_size, prepare_bundle, validate_bundle, MachineIdentityBundle,
    MachineIdentityStateError, PersistedMachineIdentity, MAX_CERTIFICATE_DER_BYTES,
    MAX_KEY_NAME_BYTES, MAX_STATE_BYTES,
};
use classmesh::identity::tls::{
    offers_p256_sha256, public_key_info, tls_signature, TlsSigningError, ECDSA_NISTP256_SHA256,
};
use classmesh::durable::{choose_state_source, StateSource};
use p256::ecdsa::signature::hazmat::{PrehashSigner, PrehashVerifier};
use p256::ecdsa::{Signature, SigningKey, VerifyingKey};
use rustls::SignatureScheme;
use sha2::{Digest, Sha256};

#[test]
fn key_name_validation_rejects_empty_and_embedded_nul() {
    assert_eq!(
        CngMachineKey::named("".to_owned()),
        Err(CngKeyError::InvalidKeyName)
    );
    assert_eq!(
        CngMachineKey::named("bad\0name".to_owned()),
        Err(CngKeyError::InvalidKeyName)
    );
    assert_eq!(
        validate_key_name("ClassMesh".to_owned()),
        Ok("ClassMesh".to_owned())
    );
    assert_eq!(
        CngMachineKey::named("ClassMesh".to_owned())
            .expect("valid")
            .name(),
        "ClassMesh"
    );
}

/// A public key as the key storage gives it out.
fn blob(key: &SigningKey) -> Vec<u8> {
    let point = key.verifying_key().to_encoded_point(false);
    let mut blob = vec![0x45, 0x43, 0x53, 0x31, 32, 0, 0, 0];
    blob.extend_from_slice(&point.as_bytes()[1..]);
    blob
}

fn software_key() -> SigningKey {
    SigningKey::from_slice(&[0x42; 32]).expect("a scalar")
}

#[test]
fn public_keys_are_read_as_uncompressed_points() {
    let key = software_key();
    let point = sec1_public_key_from_cng_blob(&blob(&key)).expect("P-256 blob");
    assert_eq!(point.len(), 65);
    assert_eq!(
        VerifyingKey::from_sec1_bytes(&point).expect("a point"),
        *key.verifying_key()
    );
    for at in 0..8 {
        let mut other = blob(&key);
        other[at] ^= 1;
        assert_eq!(
            sec1_public_key_from_cng_blob(&other),
            Err(CngKeyError::InvalidPublicKeyBlob)
        );
    }
    assert_eq!(
        sec1_public_key_from_cng_blob(&blob(&key)[..71]),
        Err(CngKeyError::InvalidPublicKeyBlob)
    );
}

#[test]
fn signing_keys_keep_their_machine_key() {
    let key = software_key();
    let machine_key = CngMachineKey::named("ClassMesh".to_owned()).expect("valid");
    let signing = CngRcgenSigningKey::new(machine_key.clone(), &blob(&key)).expect("P-256 blob");
    assert_eq!(*signing.machine_key(), machine_key);
    assert_eq!(
        signing.der_bytes(),
        key.verifying_key().to_encoded_point(false).as_bytes()
    );
    assert_eq!(
        CngRcgenSigningKey::new(machine_key, &[]),
        Err(CngKeyError::InvalidPublicKeyBlob)
    );
}

#[test]
fn rustls_signer_selects_only_p256_sha256_and_signs_without_export() {
    assert!(!offers_p256_sha256(&[u16::from(
        SignatureScheme::RSA_PSS_SHA256
    )]));
    assert!(offers_p256_sha256(&[
        u16::from(SignatureScheme::RSA_PSS_SHA256),
        u16::from(SignatureScheme::ECDSA_NISTP256_SHA256)
    ]));
    assert_eq!(
        u16::from(SignatureScheme::ECDSA_NISTP256_SHA256),
        ECDSA_NISTP256_SHA256
    );

    let key = software_key();
    let message = b"ClassMesh TLS CertificateVerify";
    let digest = message_digest(message);
    assert_eq!(digest, <[u8; 32]>::from(Sha256::digest(message)));
    let raw: Signature = key.sign_prehash(&digest).expect("raw signature");
    let signature_der = tls_signature(Ok(raw.to_bytes().to_vec())).expect("TLS signature");
    let signature = Signature::from_der(&signature_der).expect("DER ECDSA signature");
    assert_eq!(signature, raw);
    key.verifying_key()
        .verify_prehash(&digest, &signature)
        .expect("verified");
}

#[test]
fn signatures_are_written_in_der() {
    let mut raw = [0_u8; 64];
    raw[31] = 1;
    raw[62] = 0x80;
    assert_eq!(
        encode_signature(&raw).expect("valid"),
        [0x30, 0x08, 0x02, 0x01, 0x01, 0x02, 0x03, 0x00, 0x80, 0x00]
    );
    assert_eq!(
        encode_signature(&raw[..63]),
        Err(CngKeyError::InvalidSignatureEncoding)
    );
    assert_eq!(
        encode_signature(&[0; 64]),
        Err(CngKeyError::InvalidSignatureEncoding)
    );
    assert_eq!(
        encode_signature(&[0xff; 64]),
        Err(CngKeyError::InvalidSignatureEncoding)
    );
    assert_eq!(
        tls_signature(Ok(vec![])),
        Err(TlsSigningError::InvalidSignature)
    );
    assert_eq!(
        tls_signature(Err(CngKeyError::InvalidKeyName))
            .expect_err("no signature")
            .message(),
        "CNG TLS signing failed: CNG key name must be non-empty and contain no NUL"
    );
}

#[test]
fn public_key_info_names_algorithm_and_curve() {
    let key = software_key();
    let info = public_key_info(&blob(&key)).expect("P-256 blob");
    assert_eq!(info.len(), 91);
    assert_eq!(
        &info[..27],
        &[
            0x30, 0x59, 0x30, 0x13, 0x06, 0x07, 0x2a, 0x86, 0x48, 0xce, 0x3d, 0x02, 0x01, 0x06,
            0x08, 0x2a, 0x86, 0x48, 0xce, 0x3d, 0x03, 0x01, 0x07, 0x03, 0x42, 0x00, 0x04
        ]
    );
    assert_eq!(
        &info[26..],
        key.verifying_key().to_encoded_point(false).as_bytes()
    );
    assert_eq!(
        public_key_info(&[1]),
        Err(CngKeyError::InvalidPublicKeyBlob)
    );
}

#[test]
fn statuses_are_read_as_they_come() {
    assert_eq!(check_status("NCryptOpenKey", 0), Ok(()));
    assert_eq!(
        check_status("NCryptOpenKey", -1).expect_err("failed").message(),
        "NCryptOpenKey failed with CNG status 0xffffffff"
    );
    assert_eq!(
        check_status("NCryptOpenKey", 0x12ab).expect_err("failed").message(),
        "NCryptOpenKey failed with CNG status 0x000012ab"
    );
    assert_eq!(verification_outcome(0), Ok(true));
    assert_eq!(BAD_SIGNATURE_STATUS, 0x8009_0006_u32 as i32);
    assert_eq!(verification_outcome(BAD_SIGNATURE_STATUS), Ok(false));
    assert!(verification_outcome(5).is_err());
    assert_eq!(property_value("policy", 0, 7, 4), Ok(7));
    assert_eq!(
        property_value("policy", 0, 7, 3).expect_err("short").message(),
        "policy returned 3 bytes; expected 4"
    );
    assert_eq!(
        property_value("policy", 9, 7, 4),
        Err(CngKeyError::Windows {
            operation: "NCryptGetProperty",
            status: 9
        })
    );
    assert_eq!(signature_length(64), Ok(64));
}

fn bundle() -> MachineIdentityBundle {
    MachineIdentityBundle {
        principal_id: [7; 32],
        cng_key_name: "ClassMesh-Machine-7".to_owned(),
        certificate_chain_der: vec![vec![0x30, 0x01, 0x00]],
        trust_roots_der: vec![vec![0x30, 0x01, 0x01]],
        not_after_unix_ms: 999_999,
    }
}

#[test]
fn durable_machine_identity_round_trips_without_private_key_material() {
    let expected = bundle();

    let kept = prepare_bundle(&expected).expect("identity should save");
    let text = format!("{kept:?}");
    let loaded = kept.into_bundle().expect("identity should load");
    assert_eq!(loaded, expected);

    assert!(text.contains("ClassMesh-Machine-7"));
    assert!(!text.contains("private_key"));
    assert!(!text.contains("pkcs8"));
}

#[test]
fn invalid_or_unbounded_material_fails_closed() {
    let mut invalid = bundle();
    invalid.cng_key_name.clear();
    assert!(matches!(
        validate_bundle(&invalid),
        Err(MachineIdentityStateError::EmptyKeyName)
    ));

    let mut oversized = bundle();
    oversized.certificate_chain_der = vec![vec![0; MAX_CERTIFICATE_DER_BYTES + 1]];
    assert!(matches!(
        validate_bundle(&oversized),
        Err(MachineIdentityStateError::CertificateTooLarge { .. })
    ));
}

#[test]
fn backup_is_loaded_when_primary_is_absent_after_interrupted_replace() {
    let backup = PersistedMachineIdentity::from_bundle(&bundle());
    assert_eq!(choose_state_source(false, true), Some(StateSource::Backup));
    assert_eq!(backup.into_bundle(), Ok(bundle()));
}

#[test]
fn identity_limits_come_in_order() {
    let mut other = bundle();
    other.cng_key_name = "\u{e9}".repeat(MAX_KEY_NAME_BYTES / 2 + 1);
    other.certificate_chain_der.clear();
    assert_eq!(
        validate_bundle(&other),
        Err(MachineIdentityStateError::KeyNameTooLong {
            bytes: 514,
            maximum: 512
        })
    );
    other.cng_key_name = "a\0".to_owned();
    assert_eq!(
        validate_bundle(&other),
        Err(MachineIdentityStateError::InvalidKeyName)
    );
    other.cng_key_name = "a".to_owned();
    other.not_after_unix_ms = 0;
    assert_eq!(
        validate_bundle(&other),
        Err(MachineIdentityStateError::EmptyCertificateChain)
    );
    other.certificate_chain_der = vec![vec![1]; 9];
    assert_eq!(
        validate_bundle(&other),
        Err(MachineIdentityStateError::MissingExpiry)
    );
    other.not_after_unix_ms = 1;
    other.trust_roots_der = vec![vec![1]; 17];
    assert_eq!(
        validate_bundle(&other),
        Err(MachineIdentityStateError::TooManyCertificates {
            count: 9,
            maximum: 8
        })
    );
    other.certificate_chain_der = vec![vec![0; 65_536]; 8];
    assert_eq!(
        validate_bundle(&other),
        Err(MachineIdentityStateError::TooManyTrustRoots {
            count: 17,
            maximum: 16
        })
    );
    other.trust_roots_der = vec![vec![]];
    assert_eq!(validate_bundle(&other), Ok(()));
    other.trust_roots_der = vec![vec![1]];
    let too_large = MachineIdentityStateError::CertificateSetTooLarge {
        bytes: 524_289,
        maximum: 524_288,
    };
    assert_eq!(validate_bundle(&other), Err(too_large));
    assert_eq!(
        too_large.message(),
        "certificate material is 524289 bytes; maximum is 524288"
    );
}

#[test]
fn identity_states_are_versioned_and_bounded() {
    let mut kept = PersistedMachineIdentity::from_bundle(&bundle());
    kept.version = 2;
    assert_eq!(
        kept.into_bundle(),
        Err(MachineIdentityStateError::UnsupportedVersion(2))
    );
    assert_eq!(check_state_size(MAX_STATE_BYTES), Ok(()));
    assert_eq!(
        check_state_size(MAX_STATE_BYTES + 1)
            .expect_err("too large")
            .message(),
        "machine identity state is 1048577 bytes; maximum is 1048576"
    );
}
