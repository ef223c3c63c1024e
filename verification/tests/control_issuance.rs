use classmesh::control::enrollment::{MAX_ENROLLMENT_CSR_BYTES, PRINCIPAL_ID_BYTES};
use classmesh::control::issuance::{
    CertificateIssuanceError, CertificateIssuancePolicy, CertificateValidity, EnrollmentApproval,
};
use classmesh::control::peer_identity::{
    authenticated_peer_identity, authenticated_peer_principal,
    principal_for_verified_certificate_chain, PeerIdentityError, PresentedIdentity,
};
use classmesh::control::x509_issuance::{
    complete_certificate, plan_certificate, ExtendedKeyUsage, IssuedCertificate, KeyUsage,
    SigningOutcome, X509IssuanceError,
};
use classmesh::ordered::{OrderedMap, OrderedSet};
use classmesh::security::{
    AuthorizationStore, CredentialFingerprint, CredentialRecord, CredentialState, Permission,
    Principal, PrincipalId, PrincipalKind,
};
use rcgen::{
    BasicConstraints, CertificateParams, CertificateSigningRequestParams, CertifiedIssuer,
    DnType, ExtendedKeyUsagePurpose, IsCa, KeyPair, KeyUsagePurpose,
};
use rustls::pki_types::CertificateSigningRequestDer;
use sha2::{Digest, Sha256};

fn principal(value: u8) -> PrincipalId {
    PrincipalId([value; PRINCIPAL_ID_BYTES])
}

fn policy() -> CertificateIssuancePolicy {
    CertificateIssuancePolicy {
        maximum_lifetime_ms: 86_400_000,
        allowed_clock_skew_ms: 60_000,
    }
}

fn valid_csr() -> Vec<u8> {
    let key = rcgen::KeyPair::generate().expect("test key");
    rcgen::CertificateParams::new(Vec::<String>::new())
        .expect("params")
        .serialize_request(&key)
        .expect("CSR")
        .der()
        .to_vec()
}

fn approval(csr_der: &[u8]) -> EnrollmentApproval {
    EnrollmentApproval {
        principal_id: principal(7),
        csr_sha256: Sha256::digest(csr_der).into(),
    }
}

fn validity() -> CertificateValidity {
    CertificateValidity {
        not_before_unix_ms: 1_000_000,
        not_after_unix_ms: 1_000_000 + 3_600_000,
    }
}

#[test]
fn issuance_requires_exact_approved_principal_and_csr() {
    { let csr = valid_csr(); policy().validate(1_000_000, principal(7), &csr, approval(&csr), validity()) }
        .expect("approved principal and CSR should pass issuance policy");

    assert_eq!(
        { let csr = valid_csr(); policy().validate(1_000_000, principal(9), &csr, approval(&csr), validity()) },
        Err(CertificateIssuanceError::PrincipalBindingMismatch)
    );
    assert_eq!(
        { let csr = valid_csr(); let other = valid_csr(); policy().validate(1_000_000, principal(7), &csr, approval(&other), validity()) },
        Err(CertificateIssuanceError::CsrBindingMismatch)
    );
}

#[test]
fn issuance_rejects_unbounded_or_invalid_validity() {
    let mut invalid = validity();
    invalid.not_after_unix_ms = invalid.not_before_unix_ms;
    assert_eq!(
        policy().validate(1_000_000, principal(7), &[1], approval(&[1]), invalid,),
        Err(CertificateIssuanceError::InvalidValidityWindow)
    );

    let expired = CertificateValidity {
        not_before_unix_ms: 900_000,
        not_after_unix_ms: 999_999,
    };
    assert_eq!(
        policy().validate(1_000_000, principal(7), &[1], approval(&[1]), expired,),
        Err(CertificateIssuanceError::AlreadyExpired)
    );

    let too_long = CertificateValidity {
        not_before_unix_ms: 1_000_000,
        not_after_unix_ms: 1_000_000 + 86_400_001,
    };
    assert_eq!(
        policy().validate(1_000_000, principal(7), &[1], approval(&[1]), too_long,),
        Err(CertificateIssuanceError::LifetimeTooLong)
    );

    let future = CertificateValidity {
        not_before_unix_ms: 1_060_001,
        not_after_unix_ms: 1_060_002,
    };
    assert_eq!(
        policy().validate(1_000_000, principal(7), &[1], approval(&[1]), future,),
        Err(CertificateIssuanceError::NotBeforeTooFarInFuture)
    );
}

#[test]
fn issuance_rejects_empty_or_oversized_csr() {
    assert_eq!(
        policy().validate(
            1_000_000,
            principal(7),
            &[],
            approval(&[0x30, 0x01, 0x00]),
            validity(),
        ),
        Err(CertificateIssuanceError::EmptyCsr)
    );

    let oversized = vec![0; MAX_ENROLLMENT_CSR_BYTES + 1];
    assert!(matches!(
        policy().validate(
            1_000_000,
            principal(7),
            &oversized,
            approval(&[0x30, 0x01, 0x00]),
            validity(),
        ),
        Err(CertificateIssuanceError::CsrTooLarge { .. })
    ));
}

fn authority() -> CertifiedIssuer<'static, KeyPair> {
    let mut params = CertificateParams::new(Vec::<String>::new()).expect("CA params");
    params.is_ca = IsCa::Ca(BasicConstraints::Unconstrained);
    params
        .distinguished_name
        .push(DnType::CommonName, "ClassMesh Test Authority");
    params.key_usages = vec![
        KeyUsagePurpose::DigitalSignature,
        KeyUsagePurpose::KeyCertSign,
        KeyUsagePurpose::CrlSign,
    ];
    CertifiedIssuer::self_signed(params, KeyPair::generate().expect("CA key"))
        .expect("self-signed test CA")
}

fn csr() -> Vec<u8> {
    let key = KeyPair::generate().expect("leaf key");
    let mut params = CertificateParams::new(vec!["student.classmesh".to_owned()])
        .expect("leaf params");
    params.is_ca = IsCa::Ca(BasicConstraints::Unconstrained);
    params.key_usages = vec![KeyUsagePurpose::KeyCertSign];
    params
        .serialize_request(&key)
        .expect("CSR")
        .der()
        .to_vec()
}

/// Signs what was planned, as the holder of the authority's key does.
fn issue_certificate(
    policy: CertificateIssuancePolicy,
    now_unix_ms: u64,
    principal_id: PrincipalId,
    csr_der: &[u8],
    approval: EnrollmentApproval,
    validity: CertificateValidity,
    issuer: &CertifiedIssuer<'static, KeyPair>,
) -> Result<IssuedCertificate, X509IssuanceError> {
    let plan = plan_certificate(
        policy,
        now_unix_ms,
        principal_id,
        csr_der,
        approval,
        validity,
    )?;
    assert!(!plan.is_ca);
    assert_eq!(plan.key_usages, vec![KeyUsage::DigitalSignature]);
    assert_eq!(
        plan.extended_key_usages,
        vec![ExtendedKeyUsage::ClientAuth, ExtendedKeyUsage::ServerAuth]
    );
    let mut request = CertificateSigningRequestParams::from_der(
        &CertificateSigningRequestDer::from(csr_der),
    )
    .expect("the plan has read it");
    request.params.is_ca = IsCa::NoCa;
    request.params.key_usages = vec![KeyUsagePurpose::DigitalSignature];
    request.params.extended_key_usages = vec![
        ExtendedKeyUsagePurpose::ClientAuth,
        ExtendedKeyUsagePurpose::ServerAuth,
    ];
    request.params.use_authority_key_identifier_extension =
        plan.use_authority_key_identifier_extension;
    let outcome = match request.signed_by(issuer) {
        Ok(certificate) => SigningOutcome::Signed(certificate.der().to_vec()),
        Err(error) => SigningOutcome::Failed(error.to_string()),
    };
    complete_certificate(&plan, outcome)
}

#[test]
fn issues_bound_end_entity_certificate_and_fingerprint() {
    let csr = csr();
    let validity = CertificateValidity {
        not_before_unix_ms: 1_000_000,
        not_after_unix_ms: 4_600_000,
    };
    let issued = issue_certificate(
        policy(),
        1_000_000,
        principal(7),
        &csr,
        approval(&csr),
        validity,
        &authority(),
    )
    .expect("certificate should issue");

    assert_eq!(issued.principal_id, principal(7));
    assert_eq!(issued.csr_sha256, <[u8; 32]>::from(Sha256::digest(&csr)));
    assert!(!issued.certificate_der.is_empty());
    assert_eq!(
        issued.credential_fingerprint_sha256,
        <[u8; 32]>::from(Sha256::digest(&issued.certificate_der))
    );
    assert_eq!(issued.not_after_unix_ms, validity.not_after_unix_ms);
}

#[test]
fn issuance_rejects_wrong_principal_before_signing() {
    let csr = csr();
    let validity = CertificateValidity {
        not_before_unix_ms: 1_000_000,
        not_after_unix_ms: 4_600_000,
    };

    assert_eq!(
        issue_certificate(
            policy(),
            1_000_000,
            principal(8),
            &csr,
            approval(&csr),
            validity,
            &authority(),
        ),
        Err(X509IssuanceError::Policy(
            CertificateIssuanceError::PrincipalBindingMismatch
        ))
    );
}

#[test]
fn failed_signatures_issue_nothing() {
    let csr = csr();
    let plan = plan_certificate(
        policy(),
        1_000_000,
        principal(7),
        &csr,
        approval(&csr),
        validity(),
    )
    .expect("planned");
    assert_eq!(
        complete_certificate(&plan, SigningOutcome::Failed("no key".to_owned())),
        Err(X509IssuanceError::SigningFailed("no key".to_owned()))
    );
    assert_eq!(
        complete_certificate(&plan, SigningOutcome::UnreadableRequest),
        Err(X509IssuanceError::InvalidCsr)
    );
    assert_eq!(
        complete_certificate(&plan, SigningOutcome::UnrepresentableTime),
        Err(X509IssuanceError::InvalidTimestamp)
    );
}

#[test]
fn issuance_rejects_what_is_no_request() {
    assert_eq!(
        policy().validate(1_000_000, principal(7), &[1], approval(&[1]), validity()),
        Err(CertificateIssuanceError::InvalidCsrSignature)
    );
}

fn peer_principal(value: u8) -> PrincipalId {
    PrincipalId([value; 32])
}

fn store_with_certificate(certificate: &[u8]) -> AuthorizationStore {
    let fingerprint = CredentialFingerprint(Sha256::digest(&certificate).into());
    let mut credentials = OrderedMap::new();
    credentials.insert(fingerprint, CredentialRecord::active(fingerprint, 100));

    let record = Principal {
        id: peer_principal(7),
        kind: PrincipalKind::StudentDevice,
        enabled: true,
        permissions: OrderedSet::from_slice(&[Permission::ReceivePresentation]),
        credentials,
    };
    let mut store = AuthorizationStore::default();
    store.upsert(record).expect("principal should register");
    store
}

#[test]
fn verified_leaf_fingerprint_resolves_to_stable_principal() {
    let certificate = vec![0x30, 0x03, 0x02, 0x01, 0x01];
    let store = store_with_certificate(&certificate);

    assert_eq!(
        principal_for_verified_certificate_chain(&store, &vec![certificate], 150),
        Ok(peer_principal(7))
    );
}

#[test]
fn inactive_unknown_and_empty_credentials_are_rejected() {
    let certificate = vec![0x30, 0x03, 0x02, 0x01, 0x01];
    let fingerprint = CredentialFingerprint(Sha256::digest(&certificate).into());
    let mut credentials = OrderedMap::new();
    credentials.insert(
        fingerprint,
        CredentialRecord {
            fingerprint,
            state: CredentialState::Revoked,
            issued_at_unix_ms: 100,
            expires_at_unix_ms: None,
            revoked_at_unix_ms: Some(120),
        },
    );
    let record = Principal {
        id: peer_principal(7),
        kind: PrincipalKind::StudentDevice,
        enabled: true,
        permissions: OrderedSet::new(),
        credentials,
    };
    let mut store = AuthorizationStore::default();
    store.upsert(record).expect("principal should register");

    assert_eq!(
        principal_for_verified_certificate_chain(&store, &vec![certificate], 150),
        Err(PeerIdentityError::UnknownOrInactiveCredential)
    );
    assert_eq!(
        principal_for_verified_certificate_chain(&store, &vec![], 150),
        Err(PeerIdentityError::EmptyCertificateChain)
    );
}

#[test]
fn future_issued_credential_does_not_resolve() {
    let certificate = vec![0x30, 0x03, 0x02, 0x01, 0x02];
    let fingerprint = CredentialFingerprint(Sha256::digest(&certificate).into());
    let mut credentials = OrderedMap::new();
    credentials.insert(fingerprint, CredentialRecord::active(fingerprint, 200));
    let record = Principal {
        id: peer_principal(8),
        kind: PrincipalKind::StudentDevice,
        enabled: true,
        permissions: OrderedSet::new(),
        credentials,
    };
    let mut store = AuthorizationStore::default();
    store.upsert(record).expect("principal should register");

    assert_eq!(
        principal_for_verified_certificate_chain(&store, &vec![certificate], 199),
        Err(PeerIdentityError::UnknownOrInactiveCredential)
    );
}

#[test]
fn presented_identities_are_resolved() {
    let certificate = vec![0x30, 0x03, 0x02, 0x01, 0x01];
    let store = store_with_certificate(&certificate);
    assert_eq!(
        authenticated_peer_principal(&PresentedIdentity::Missing, &store, 150),
        Err(PeerIdentityError::MissingPeerIdentity)
    );
    assert_eq!(
        authenticated_peer_principal(&PresentedIdentity::Unrecognized, &store, 150),
        Err(PeerIdentityError::UnexpectedPeerIdentityType)
    );
    let identity = authenticated_peer_identity(
        &PresentedIdentity::CertificateChain(vec![certificate.clone()]),
        &store,
        150,
    )
    .expect("resolved");
    assert_eq!(identity.principal_id(), peer_principal(7));
    assert_eq!(
        identity.credential_fingerprint,
        CredentialFingerprint(Sha256::digest(&certificate).into())
    );
    assert!(identity.authorize(&store, Permission::ReceivePresentation, 150));
    assert!(!identity.authorize(&store, Permission::ControlInput, 150));
}
