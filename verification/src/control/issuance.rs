//! When a certificate may be issued.

use super::csr::verify_pkcs10_csr;
use super::enrollment::{MAX_ENROLLMENT_CSR_BYTES, SHA256_BYTES};
use crate::bytes::bytes_equal;
use crate::digest::sha256;
use crate::security::PrincipalId;
use vstd::prelude::*;

verus! {

/// What an administrator has approved: this request of this principal.
#[derive(Debug, Clone, Copy, PartialEq, Eq)]
pub struct EnrollmentApproval {
    pub principal_id: PrincipalId,
    pub csr_sha256: [u8; SHA256_BYTES],
}

#[derive(Debug, Clone, Copy, PartialEq, Eq, Structural)]
pub struct CertificateValidity {
    pub not_before_unix_ms: u64,
    pub not_after_unix_ms: u64,
}

#[derive(Debug, Clone, Copy, PartialEq, Eq, Structural)]
pub struct CertificateIssuancePolicy {
    pub maximum_lifetime_ms: u64,
    pub allowed_clock_skew_ms: u64,
}

#[derive(Debug, Clone, Copy, PartialEq, Eq, Structural)]
pub enum CertificateIssuanceError {
    EmptyCsr,
    CsrTooLarge { length: usize, maximum: usize },
    PrincipalBindingMismatch,
    CsrBindingMismatch,
    InvalidValidityWindow,
    NotBeforeTooFarInFuture,
    AlreadyExpired,
    LifetimeTooLong,
    InvalidCsrSignature,
}

impl CertificateIssuancePolicy {
    /// The first rule that a validity breaks, in the order in which they are tested.
    pub open spec fn spec_validate_window(
        self,
        now_unix_ms: u64,
        validity: CertificateValidity,
    ) -> Result<(), CertificateIssuanceError> {
        if validity.not_after_unix_ms <= validity.not_before_unix_ms {
            Err(CertificateIssuanceError::InvalidValidityWindow)
        } else if validity.not_before_unix_ms > now_unix_ms + self.allowed_clock_skew_ms {
            Err(CertificateIssuanceError::NotBeforeTooFarInFuture)
        } else if validity.not_after_unix_ms <= now_unix_ms {
            Err(CertificateIssuanceError::AlreadyExpired)
        } else if validity.not_after_unix_ms - validity.not_before_unix_ms
            > self.maximum_lifetime_ms {
            Err(CertificateIssuanceError::LifetimeTooLong)
        } else {
            Ok(())
        }
    }

    /// The first rule that an issuance breaks, in the order in which they are tested, where
    /// `digest` is the request's digest and `signed` tells whether its signature holds.
    pub open spec fn spec_validate(
        self,
        now_unix_ms: u64,
        principal_id: PrincipalId,
        csr_length: int,
        digest: Seq<u8>,
        signed: bool,
        approval: EnrollmentApproval,
        validity: CertificateValidity,
    ) -> Result<(), CertificateIssuanceError> {
        if csr_length == 0 {
            Err(CertificateIssuanceError::EmptyCsr)
        } else if csr_length > MAX_ENROLLMENT_CSR_BYTES {
            Err(
                CertificateIssuanceError::CsrTooLarge {
                    length: csr_length as usize,
                    maximum: MAX_ENROLLMENT_CSR_BYTES,
                },
            )
        } else if approval.principal_id != principal_id {
            Err(CertificateIssuanceError::PrincipalBindingMismatch)
        } else if approval.csr_sha256@ != digest {
            Err(CertificateIssuanceError::CsrBindingMismatch)
        } else {
            match self.spec_validate_window(now_unix_ms, validity) {
                Err(error) => Err(error),
                Ok(()) => if signed {
                    Ok(())
                } else {
                    Err(CertificateIssuanceError::InvalidCsrSignature)
                },
            }
        }
    }

    /// Tests everything but the request's signature, given its digest.
    pub fn validate_binding(
        self,
        now_unix_ms: u64,
        principal_id: PrincipalId,
        csr_length: usize,
        digest: [u8; SHA256_BYTES],
        approval: EnrollmentApproval,
        validity: CertificateValidity,
    ) -> (result: Result<(), CertificateIssuanceError>)
        ensures
            result == self.spec_validate(
                now_unix_ms,
                principal_id,
                csr_length as int,
                digest@,
                true,
                approval,
                validity,
            ),
    {
        if csr_length == 0 {
            return Err(CertificateIssuanceError::EmptyCsr);
        }
        if csr_length > MAX_ENROLLMENT_CSR_BYTES {
            return Err(
                CertificateIssuanceError::CsrTooLarge {
                    length: csr_length,
                    maximum: MAX_ENROLLMENT_CSR_BYTES,
                },
            );
        }
        if approval.principal_id != principal_id {
            return Err(CertificateIssuanceError::PrincipalBindingMismatch);
        }
        if !bytes_equal(approval.csr_sha256.as_slice(), digest.as_slice()) {
            return Err(CertificateIssuanceError::CsrBindingMismatch);
        }
        if validity.not_after_unix_ms <= validity.not_before_unix_ms {
            return Err(CertificateIssuanceError::InvalidValidityWindow);
        }
        let latest_not_before: u64 = now_unix_ms.saturating_add(self.allowed_clock_skew_ms);
        if validity.not_before_unix_ms > latest_not_before {
            return Err(CertificateIssuanceError::NotBeforeTooFarInFuture);
        }
        if validity.not_after_unix_ms <= now_unix_ms {
            return Err(CertificateIssuanceError::AlreadyExpired);
        }
        let lifetime: u64 = validity.not_after_unix_ms - validity.not_before_unix_ms;
        if lifetime > self.maximum_lifetime_ms {
            return Err(CertificateIssuanceError::LifetimeTooLong);
        }
        Ok(())
    }

    /// Tests whether a certificate may be issued for a request. Its signature is verified
    /// last: by then the request is the one that was approved.
    pub fn validate(
        self,
        now_unix_ms: u64,
        principal_id: PrincipalId,
        csr_der: &[u8],
        approval: EnrollmentApproval,
        validity: CertificateValidity,
    ) -> (result: Result<(), CertificateIssuanceError>)
        ensures
            result == self.spec_validate(
                now_unix_ms,
                principal_id,
                csr_der@.len() as int,
                crate::digest::sha256_digest(csr_der@),
                super::csr::is_signed_request(csr_der@),
                approval,
                validity,
            ),
    {
        match self.validate_binding(
            now_unix_ms,
            principal_id,
            csr_der.len(),
            sha256(csr_der),
            approval,
            validity,
        ) {
            Ok(()) => {},
            Err(error) => return Err(error),
        }
        match verify_pkcs10_csr(csr_der) {
            Ok(()) => Ok(()),
            Err(_) => Err(CertificateIssuanceError::InvalidCsrSignature),
        }
    }
}

/// A certificate is issued only for the approved request of the approved principal, for a
/// time that has not passed and is not longer than the policy allows.
pub proof fn law_issuance_is_bound_and_bounded(
    policy: CertificateIssuancePolicy,
    now_unix_ms: u64,
    principal_id: PrincipalId,
    csr_length: int,
    digest: Seq<u8>,
    signed: bool,
    approval: EnrollmentApproval,
    validity: CertificateValidity,
)
    requires
        csr_length >= 0,
        policy.spec_validate(
            now_unix_ms,
            principal_id,
            csr_length,
            digest,
            signed,
            approval,
            validity,
        ) is Ok,
    ensures
        signed,
        approval.principal_id == principal_id,
        approval.csr_sha256@ == digest,
        0 < csr_length <= MAX_ENROLLMENT_CSR_BYTES,
        validity.not_before_unix_ms <= now_unix_ms + policy.allowed_clock_skew_ms,
        now_unix_ms < validity.not_after_unix_ms,
        0 < validity.not_after_unix_ms - validity.not_before_unix_ms <= policy.maximum_lifetime_ms,
{
}

/// Completeness of issuance: a signed request of a fitting size, approved for this principal and
/// with this digest, gets a certificate for every window that has begun or begins within the
/// allowed skew, has not ended and is not too long.
pub proof fn law_approved_requests_are_issued(
    policy: CertificateIssuancePolicy,
    now_unix_ms: u64,
    principal_id: PrincipalId,
    csr_length: int,
    digest: Seq<u8>,
    approval: EnrollmentApproval,
    validity: CertificateValidity,
)
    requires
        1 <= csr_length <= 65_536,
        approval.principal_id == principal_id,
        approval.csr_sha256@ == digest,
        validity.not_before_unix_ms <= now_unix_ms + policy.allowed_clock_skew_ms,
        now_unix_ms < validity.not_after_unix_ms,
        validity.not_before_unix_ms < validity.not_after_unix_ms,
        validity.not_after_unix_ms <= validity.not_before_unix_ms + policy.maximum_lifetime_ms,
    ensures
        policy.spec_validate(
            now_unix_ms,
            principal_id,
            csr_length,
            digest,
            true,
            approval,
            validity,
        ) is Ok,
        policy.spec_validate(
            now_unix_ms,
            principal_id,
            csr_length,
            digest,
            false,
            approval,
            validity,
        ) == Err::<(), _>(CertificateIssuanceError::InvalidCsrSignature),
{
}

/// The fault of a window is named, the first of them where there are several.
pub proof fn law_window_faults_are_named(
    policy: CertificateIssuancePolicy,
    now: u64,
    validity: CertificateValidity,
)
    ensures
        ({
            let result = policy.spec_validate_window(now, validity);
            let backwards = validity.not_after_unix_ms <= validity.not_before_unix_ms;
            let early = validity.not_before_unix_ms > now + policy.allowed_clock_skew_ms;
            let over = validity.not_after_unix_ms <= now;
            let long = validity.not_after_unix_ms > validity.not_before_unix_ms
                + policy.maximum_lifetime_ms;
            &&& backwards ==> result == Err::<(), _>(
                CertificateIssuanceError::InvalidValidityWindow,
            )
            &&& !backwards && early ==> result == Err::<(), _>(
                CertificateIssuanceError::NotBeforeTooFarInFuture,
            )
            &&& !backwards && !early && over ==> result == Err::<(), _>(
                CertificateIssuanceError::AlreadyExpired,
            )
            &&& !backwards && !early && !over && long ==> result == Err::<(), _>(
                CertificateIssuanceError::LifetimeTooLong,
            )
        }),
{
}

} // verus!
