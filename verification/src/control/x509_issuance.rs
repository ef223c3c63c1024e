//! What goes into a certificate, and what comes out of issuing one.

use super::enrollment::SHA256_BYTES;
use super::issuance::{
    CertificateIssuanceError, CertificateIssuancePolicy, CertificateValidity, EnrollmentApproval,
};
use crate::digest::sha256;
use crate::security::PrincipalId;
use vstd::prelude::*;

verus! {

#[derive(Debug, Clone, PartialEq, Eq)]
pub struct IssuedCertificate {
    pub principal_id: PrincipalId,
    pub csr_sha256: [u8; SHA256_BYTES],
    pub certificate_der: Vec<u8>,
    pub credential_fingerprint_sha256: [u8; SHA256_BYTES],
    pub not_before_unix_ms: u64,
    pub not_after_unix_ms: u64,
}

#[derive(Debug, Clone, PartialEq, Eq)]
pub enum X509IssuanceError {
    Policy(CertificateIssuanceError),
    InvalidCsr,
    InvalidTimestamp,
    SigningFailed(String),
}

#[derive(Debug, Clone, Copy, PartialEq, Eq, Structural)]
pub enum KeyUsage {
    DigitalSignature,
}

#[derive(Debug, Clone, Copy, PartialEq, Eq, Structural)]
pub enum ExtendedKeyUsage {
    ClientAuth,
    ServerAuth,
}

/// What a certificate is to say, whatever its request asks for.
#[derive(Debug, Clone, PartialEq, Eq)]
pub struct CertificatePlan {
    pub principal_id: PrincipalId,
    pub csr_sha256: [u8; SHA256_BYTES],
    pub not_before_unix_ms: u64,
    pub not_after_unix_ms: u64,
    pub is_ca: bool,
    pub key_usages: Vec<KeyUsage>,
    pub extended_key_usages: Vec<ExtendedKeyUsage>,
    pub use_authority_key_identifier_extension: bool,
}

/// The plan is for an end entity: no authority, and only for signing as a client or a server.
pub open spec fn is_end_entity_plan(plan: CertificatePlan) -> bool {
    &&& !plan.is_ca
    &&& plan.key_usages@ == seq![KeyUsage::DigitalSignature]
    &&& plan.extended_key_usages@ == seq![
        ExtendedKeyUsage::ClientAuth,
        ExtendedKeyUsage::ServerAuth,
    ]
    &&& plan.use_authority_key_identifier_extension
}

/// Decides what a certificate for an already approved PKCS#10 request says.
///
/// The issuance policy first binds the exact CSR bytes to the approved stable
/// PrincipalId and verifies PKCS#10 proof-of-possession. The authority then
/// overrides security-sensitive certificate properties instead of trusting CSR
/// requests for CA/basic-constraints or key-usage privileges.
pub fn plan_certificate(
    policy: CertificateIssuancePolicy,
    now_unix_ms: u64,
    principal_id: PrincipalId,
    csr_der: &[u8],
    approval: EnrollmentApproval,
    validity: CertificateValidity,
) -> (result: Result<CertificatePlan, X509IssuanceError>)
    ensures
        ({
            let validated = policy.spec_validate(
                now_unix_ms,
                principal_id,
                csr_der@.len() as int,
                crate::digest::sha256_digest(csr_der@),
                super::csr::is_signed_request(csr_der@),
                approval,
                validity,
            );
            match result {
                Ok(plan) => {
                    &&& validated is Ok
                    &&& is_end_entity_plan(plan)
                    &&& plan.principal_id == principal_id
                    &&& plan.csr_sha256 == approval.csr_sha256
                    &&& plan.not_before_unix_ms == validity.not_before_unix_ms
                    &&& plan.not_after_unix_ms == validity.not_after_unix_ms
                },
                Err(error) => validated matches Err(cause) && error == X509IssuanceError::Policy(
                    cause,
                ),
            }
        }),
{
    match policy.validate(now_unix_ms, principal_id, csr_der, approval, validity) {
        Ok(()) => {},
        Err(error) => return Err(X509IssuanceError::Policy(error)),
    }
    let mut key_usages: Vec<KeyUsage> = Vec::new();
    key_usages.push(KeyUsage::DigitalSignature);
    let mut extended_key_usages: Vec<ExtendedKeyUsage> = Vec::new();
    extended_key_usages.push(ExtendedKeyUsage::ClientAuth);
    extended_key_usages.push(ExtendedKeyUsage::ServerAuth);
    proof {
        assert(key_usages@ =~= seq![KeyUsage::DigitalSignature]);
        assert(extended_key_usages@ =~= seq![
            ExtendedKeyUsage::ClientAuth,
            ExtendedKeyUsage::ServerAuth,
        ]);
    }
    Ok(
        CertificatePlan {
            principal_id,
            csr_sha256: approval.csr_sha256,
            not_before_unix_ms: validity.not_before_unix_ms,
            not_after_unix_ms: validity.not_after_unix_ms,
            is_ca: false,
            key_usages,
            extended_key_usages,
            use_authority_key_identifier_extension: true,
        },
    )
}

/// What became of signing a certificate.
#[derive(Debug, Clone, PartialEq, Eq)]
pub enum SigningOutcome {
    /// The request could not be read again.
    UnreadableRequest,
    /// A time of the plan cannot be represented.
    UnrepresentableTime,
    /// The signature failed, with what the signer says.
    Failed(String),
    /// The signed certificate in DER.
    Signed(Vec<u8>),
}

/// Completes the issuance with the signed certificate, which is known by its digest from now
/// on.
pub fn complete_certificate(plan: &CertificatePlan, outcome: SigningOutcome) -> (result: Result<
    IssuedCertificate,
    X509IssuanceError,
>)
    ensures
        match outcome {
            SigningOutcome::UnreadableRequest => result == Err::<
                IssuedCertificate,
                X509IssuanceError,
            >(X509IssuanceError::InvalidCsr),
            SigningOutcome::UnrepresentableTime => result == Err::<
                IssuedCertificate,
                X509IssuanceError,
            >(X509IssuanceError::InvalidTimestamp),
            SigningOutcome::Failed(text) => result == Err::<IssuedCertificate, X509IssuanceError>(
                X509IssuanceError::SigningFailed(text),
            ),
            SigningOutcome::Signed(der) => {
                &&& result matches Ok(issued)
                &&& issued.principal_id == plan.principal_id
                &&& issued.csr_sha256 == plan.csr_sha256
                &&& issued.certificate_der@ == der@
                &&& issued.credential_fingerprint_sha256@ == crate::digest::sha256_digest(der@)
                &&& issued.not_before_unix_ms == plan.not_before_unix_ms
                &&& issued.not_after_unix_ms == plan.not_after_unix_ms
            },
        },
{
    match outcome {
        SigningOutcome::UnreadableRequest => Err(X509IssuanceError::InvalidCsr),
        SigningOutcome::UnrepresentableTime => Err(X509IssuanceError::InvalidTimestamp),
        SigningOutcome::Failed(text) => Err(X509IssuanceError::SigningFailed(text)),
        SigningOutcome::Signed(certificate_der) => {
            let credential_fingerprint_sha256 = sha256(certificate_der.as_slice());
            Ok(
                IssuedCertificate {
                    principal_id: plan.principal_id,
                    csr_sha256: plan.csr_sha256,
                    certificate_der,
                    credential_fingerprint_sha256,
                    not_before_unix_ms: plan.not_before_unix_ms,
                    not_after_unix_ms: plan.not_after_unix_ms,
                },
            )
        },
    }
}

/// An issued certificate identifies its holder and no more: it signs handshakes on either side, it
/// issues no other certificate, and it names the key of its authority.
pub proof fn law_issued_certificates_issue_nothing(plan: CertificatePlan)
    requires
        is_end_entity_plan(plan),
    ensures
        !plan.is_ca,
        plan.key_usages@.len() == 1,
        plan.key_usages@.contains(KeyUsage::DigitalSignature),
        plan.extended_key_usages@.len() == 2,
        plan.extended_key_usages@.contains(ExtendedKeyUsage::ClientAuth),
        plan.extended_key_usages@.contains(ExtendedKeyUsage::ServerAuth),
        plan.use_authority_key_identifier_extension,
{
    assert(plan.key_usages@[0] == KeyUsage::DigitalSignature);
    assert(plan.extended_key_usages@[0] == ExtendedKeyUsage::ClientAuth);
    assert(plan.extended_key_usages@[1] == ExtendedKeyUsage::ServerAuth);
}

} // verus!
