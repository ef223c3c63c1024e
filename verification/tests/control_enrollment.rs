use classmesh::control::bootstrap::{
    BootstrapAuthority, BootstrapChallenge, BootstrapTrustError, BOOTSTRAP_NONCE_BYTES,
};
use classmesh::control::csr::{verify_pkcs10_csr, CsrVerificationError};
use classmesh::control::enrollment::{
    enrollment_min_version, validate_enrollment_request, validate_enrollment_result_binding,
    EnrollmentValidationError, ENROLLMENT_NONCE_BYTES, MAX_DISPLAY_NAME_BYTES,
    MAX_ENROLLMENT_CSR_BYTES, PRINCIPAL_ID_BYTES, SHA256_BYTES,
};
use classmesh::control::enrollment_result::{
    approved_credential_from_result, validate_enrollment_result, EnrollmentCredentialError,
    EnrollmentResultError, MAX_CERTIFICATE_CHAIN_ENTRIES, STATUS_APPROVED, STATUS_EXPIRED,
    STATUS_REJECTED, STATUS_REVOKED,
};
use classmesh::protocol::control_wire::{EnrollmentRequest, EnrollmentResult};
use classmesh::protocol::ProtocolVersion;
use classmesh::security::{CredentialFingerprint, PrincipalId};
use rcgen::{CertificateParams, KeyPair};

fn id(value: u8) -> PrincipalId {
    PrincipalId([value; 32])
}

#[test]
fn bootstrap_requires_explicit_authority_pin_and_request_binding() {
    let authority = BootstrapAuthority {
        certificate_fingerprint_sha256: [1; SHA256_BYTES],
    };
    let challenge = BootstrapChallenge {
        principal_id: id(7),
        client_nonce: [2; BOOTSTRAP_NONCE_BYTES],
        authority_fingerprint_sha256: [1; SHA256_BYTES],
    };

    authority
        .validate_challenge(id(7), [2; BOOTSTRAP_NONCE_BYTES], challenge)
        .expect("pinned authority and request binding should pass");

    assert_eq!(
        authority.validate_challenge(
            id(7),
            [2; BOOTSTRAP_NONCE_BYTES],
            BootstrapChallenge {
                authority_fingerprint_sha256: [9; SHA256_BYTES],
                ..challenge
            },
        ),
        Err(BootstrapTrustError::AuthorityMismatch)
    );
    assert_eq!(
        authority.validate_challenge(id(8), [2; BOOTSTRAP_NONCE_BYTES], challenge),
        Err(BootstrapTrustError::PrincipalMismatch)
    );
    assert_eq!(
        authority.validate_challenge(id(7), [3; BOOTSTRAP_NONCE_BYTES], challenge),
        Err(BootstrapTrustError::NonceMismatch)
    );
}

#[test]
fn valid_signed_pkcs10_request_is_accepted() {
    let key = KeyPair::generate().expect("test key");
    let request = CertificateParams::new(Vec::<String>::new())
        .expect("params")
        .serialize_request(&key)
        .expect("CSR");

    verify_pkcs10_csr(request.der()).expect("valid signed CSR");
}

#[test]
fn malformed_and_tampered_requests_are_rejected() {
    assert_eq!(
        verify_pkcs10_csr(&[0x30, 0x01, 0x00]),
        Err(CsrVerificationError::MalformedOrInvalidSignature)
    );

    let key = KeyPair::generate().expect("test key");
    let request = CertificateParams::new(Vec::<String>::new())
        .expect("params")
        .serialize_request(&key)
        .expect("CSR");
    let mut tampered = request.der().to_vec();
    let last = tampered.len() - 1;
    tampered[last] ^= 0x01;

    assert_eq!(
        verify_pkcs10_csr(&tampered),
        Err(CsrVerificationError::MalformedOrInvalidSignature)
    );
}

fn valid_request() -> EnrollmentRequest {
    EnrollmentRequest {
        principal_id: vec![7; PRINCIPAL_ID_BYTES],
        role: 2,
        pkcs10_csr_der: vec![0x30, 0x01, 0x00],
        client_nonce: vec![9; ENROLLMENT_NONCE_BYTES],
        display_name: "student-07".to_owned(),
    }
}

#[test]
fn version_01_rejects_enrollment_payloads_explicitly() {
    assert_eq!(
        validate_enrollment_request(ProtocolVersion { major: 0, minor: 1 }, &valid_request()),
        Err(EnrollmentValidationError::UnsupportedProtocolVersion {
            negotiated: ProtocolVersion { major: 0, minor: 1 },
            minimum: enrollment_min_version(),
        })
    );
}

#[test]
fn malformed_identity_nonce_and_csr_are_rejected() {
    let version = enrollment_min_version();

    let mut request = valid_request();
    request.principal_id.pop();
    assert!(matches!(
        validate_enrollment_request(version, &request),
        Err(EnrollmentValidationError::InvalidPrincipalIdLength { .. })
    ));

    let mut request = valid_request();
    request.client_nonce.clear();
    assert!(matches!(
        validate_enrollment_request(version, &request),
        Err(EnrollmentValidationError::InvalidClientNonceLength { .. })
    ));

    let mut request = valid_request();
    request.pkcs10_csr_der.clear();
    assert_eq!(
        validate_enrollment_request(version, &request),
        Err(EnrollmentValidationError::EmptyCsr)
    );

    let mut request = valid_request();
    request.pkcs10_csr_der = vec![0; MAX_ENROLLMENT_CSR_BYTES + 1];
    assert!(matches!(
        validate_enrollment_request(version, &request),
        Err(EnrollmentValidationError::CsrTooLarge { .. })
    ));
}

#[test]
fn display_name_and_role_are_bounded() {
    let version = enrollment_min_version();

    let mut request = valid_request();
    request.display_name = " ".to_owned();
    assert_eq!(
        validate_enrollment_request(version, &request),
        Err(EnrollmentValidationError::EmptyDisplayName)
    );

    let mut request = valid_request();
    request.display_name = "x".repeat(MAX_DISPLAY_NAME_BYTES + 1);
    assert!(matches!(
        validate_enrollment_request(version, &request),
        Err(EnrollmentValidationError::DisplayNameTooLong { .. })
    ));

    let mut request = valid_request();
    request.role = 0;
    assert_eq!(
        validate_enrollment_request(version, &request),
        Err(EnrollmentValidationError::UnsupportedRole { value: 0 })
    );
}

#[test]
fn valid_v02_request_is_accepted() {
    validate_enrollment_request(enrollment_min_version(), &valid_request())
        .expect("valid v0.2 enrollment request should pass validation");
}

#[test]
fn result_must_bind_to_expected_principal_and_csr() {
    let principal_id = [7_u8; PRINCIPAL_ID_BYTES];
    let csr_sha256 = [8_u8; SHA256_BYTES];
    let result = EnrollmentResult {
        enrollment_id: vec![1; 16],
        status: 2,
        certificate_chain_der: Vec::new(),
        credential_fingerprint_sha256: Vec::new(),
        not_after_unix_ms: 0,
        diagnostic: String::new(),
        principal_id: principal_id.to_vec(),
        csr_sha256: csr_sha256.to_vec(),
    };

    validate_enrollment_result_binding(
        enrollment_min_version(),
        &principal_id,
        &csr_sha256,
        &result,
    )
    .expect("matching result binding should pass");

    let wrong_principal = [6_u8; PRINCIPAL_ID_BYTES];
    assert_eq!(
        validate_enrollment_result_binding(
            enrollment_min_version(),
            &wrong_principal,
            &csr_sha256,
            &result,
        ),
        Err(EnrollmentValidationError::PrincipalBindingMismatch)
    );

    let wrong_csr = [5_u8; SHA256_BYTES];
    assert_eq!(
        validate_enrollment_result_binding(
            enrollment_min_version(),
            &principal_id,
            &wrong_csr,
            &result,
        ),
        Err(EnrollmentValidationError::CsrBindingMismatch)
    );
}

fn result(status: i32) -> EnrollmentResult {
    EnrollmentResult {
        enrollment_id: vec![1; 16],
        status,
        certificate_chain_der: Vec::new(),
        credential_fingerprint_sha256: Vec::new(),
        not_after_unix_ms: 0,
        diagnostic: String::new(),
        principal_id: vec![7; PRINCIPAL_ID_BYTES],
        csr_sha256: vec![8; SHA256_BYTES],
    }
}

#[test]
fn approved_result_requires_bounded_credential_material() {
    let mut approved = result(STATUS_APPROVED);
    assert_eq!(
        validate_enrollment_result(&approved),
        Err(EnrollmentResultError::ApprovedResultMissingCertificateChain)
    );

    approved.certificate_chain_der.push(vec![0x30, 0x01, 0x00]);
    approved.credential_fingerprint_sha256 = vec![9; SHA256_BYTES];
    approved.not_after_unix_ms = 123;
    validate_enrollment_result(&approved).expect("bounded approved result should validate");

    approved.certificate_chain_der = vec![vec![0; 1]; MAX_CERTIFICATE_CHAIN_ENTRIES + 1];
    assert!(matches!(
        validate_enrollment_result(&approved),
        Err(EnrollmentResultError::CertificateChainTooLong { .. })
    ));
}

#[test]
fn approved_result_maps_to_bounded_credential_record() {
    let mut approved = result(STATUS_APPROVED);
    approved.certificate_chain_der.push(vec![0x30, 0x01, 0x00]);
    approved.credential_fingerprint_sha256 = vec![9; SHA256_BYTES];
    approved.not_after_unix_ms = 500;

    let material =
        approved_credential_from_result(&approved, 100).expect("approved credential material");
    assert_eq!(material.principal_id, PrincipalId([7; PRINCIPAL_ID_BYTES]));
    assert_eq!(material.csr_sha256, [8; SHA256_BYTES]);
    assert_eq!(
        material.credential.fingerprint,
        CredentialFingerprint([9; SHA256_BYTES])
    );
    assert_eq!(material.credential.issued_at_unix_ms, 100);
    assert_eq!(material.credential.expires_at_unix_ms, Some(500));
    assert_eq!(
        material.certificate_chain_der,
        approved.certificate_chain_der
    );

    assert_eq!(
        approved_credential_from_result(&approved, 500),
        Err(EnrollmentCredentialError::CredentialAlreadyExpired)
    );
}

#[test]
fn non_approved_terminal_result_cannot_carry_credentials() {
    for status in [STATUS_REJECTED, STATUS_REVOKED, STATUS_EXPIRED] {
        validate_enrollment_result(&result(status))
            .expect("credential-free terminal result should validate");

        let mut smuggled = result(status);
        smuggled.certificate_chain_der.push(vec![1]);
        assert_eq!(
            validate_enrollment_result(&smuggled),
            Err(EnrollmentResultError::NonApprovedResultCarriesCredential)
        );
    }
}

#[test]
fn pending_and_unspecified_are_not_terminal_results() {
    assert_eq!(
        validate_enrollment_result(&result(0)),
        Err(EnrollmentResultError::UnsupportedTerminalStatus { value: 0 })
    );
    assert_eq!(
        validate_enrollment_result(&result(1)),
        Err(EnrollmentResultError::UnsupportedTerminalStatus { value: 1 })
    );
}

#[test]
fn identity_and_csr_binding_fields_are_always_required() {
    let mut approved = result(STATUS_APPROVED);
    approved.certificate_chain_der.push(vec![1]);
    approved.credential_fingerprint_sha256 = vec![2; SHA256_BYTES];
    approved.not_after_unix_ms = 123;

    approved.principal_id.pop();
    assert!(matches!(
        validate_enrollment_result(&approved),
        Err(EnrollmentResultError::InvalidPrincipalIdLength { .. })
    ));

    approved.principal_id = vec![7; PRINCIPAL_ID_BYTES];
    approved.csr_sha256.clear();
    assert!(matches!(
        validate_enrollment_result(&approved),
        Err(EnrollmentResultError::InvalidCsrSha256Length { .. })
    ));
}

#[test]
fn certificate_sizes_are_bounded_one_by_one_and_together() {
    let mut approved = result(STATUS_APPROVED);
    approved.credential_fingerprint_sha256 = vec![9; SHA256_BYTES];
    approved.not_after_unix_ms = 123;
    approved.certificate_chain_der = vec![vec![0; 64 * 1024 + 1]];
    assert!(matches!(
        validate_enrollment_result(&approved),
        Err(EnrollmentResultError::CertificateTooLarge { length: 65_537, .. })
    ));
    approved.certificate_chain_der = vec![vec![0; 64 * 1024]; 5];
    assert!(matches!(
        validate_enrollment_result(&approved),
        Err(EnrollmentResultError::CertificateChainTooLarge { .. })
    ));
    approved.certificate_chain_der = vec![vec![0; 3]];
    approved.not_after_unix_ms = 0;
    assert_eq!(
        validate_enrollment_result(&approved),
        Err(EnrollmentResultError::ApprovedResultMissingExpiry)
    );
    approved.credential_fingerprint_sha256.pop();
    assert_eq!(
        validate_enrollment_result(&approved),
        Err(EnrollmentResultError::ApprovedResultInvalidCredentialFingerprintLength { length: 31 })
    );
    assert_eq!(
        approved_credential_from_result(&result(STATUS_REJECTED), 1),
        Err(EnrollmentCredentialError::ResultNotApproved)
    );
}
