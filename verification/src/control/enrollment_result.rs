//! What an enrollment result may carry, and the credential that an approved one brings.

use super::enrollment::{PRINCIPAL_ID_BYTES, SHA256_BYTES};
use crate::bytes::{array32, copy_list};
use crate::protocol::control_wire::EnrollmentResult;
use crate::security::{CredentialFingerprint, CredentialRecord, CredentialState, PrincipalId};
use vstd::prelude::*;

verus! {

pub const MAX_CERTIFICATE_CHAIN_ENTRIES: usize = 8;

pub const MAX_CERTIFICATE_DER_BYTES: usize = 65_536;

pub const MAX_CERTIFICATE_CHAIN_DER_BYTES: usize = 262_144;

pub const STATUS_APPROVED: i32 = 2;

pub const STATUS_REJECTED: i32 = 3;

pub const STATUS_REVOKED: i32 = 4;

pub const STATUS_EXPIRED: i32 = 5;

#[derive(Debug, Clone, PartialEq, Eq)]
pub struct ApprovedEnrollmentCredential {
    pub principal_id: PrincipalId,
    pub csr_sha256: [u8; SHA256_BYTES],
    pub credential: CredentialRecord,
    pub certificate_chain_der: Vec<Vec<u8>>,
}

#[derive(Debug, Clone, Copy, PartialEq, Eq, Structural)]
pub enum EnrollmentCredentialError {
    InvalidResult(EnrollmentResultError),
    ResultNotApproved,
    CredentialAlreadyExpired,
}

#[derive(Debug, Clone, Copy, PartialEq, Eq, Structural)]
pub enum EnrollmentResultError {
    InvalidPrincipalIdLength { length: usize },
    InvalidCsrSha256Length { length: usize },
    UnsupportedTerminalStatus { value: i32 },
    ApprovedResultMissingCertificateChain,
    ApprovedResultInvalidCredentialFingerprintLength { length: usize },
    ApprovedResultMissingExpiry,
    NonApprovedResultCarriesCredential,
    CertificateChainTooLong { length: usize, maximum: usize },
    CertificateTooLarge { length: usize, maximum: usize },
    CertificateChainTooLarge { length: usize, maximum: usize },
}

/// What is wrong with the sizes of the certificates from the `at`th on, after `total` bytes.
pub open spec fn spec_check_sizes(chain: Seq<Vec<u8>>, at: int, total: int) -> Result<
    (),
    EnrollmentResultError,
>
    decreases chain.len() - at,
{
    if at >= chain.len() {
        Ok(())
    } else if chain[at]@.len() > MAX_CERTIFICATE_DER_BYTES {
        Err(
            EnrollmentResultError::CertificateTooLarge {
                length: chain[at]@.len() as usize,
                maximum: MAX_CERTIFICATE_DER_BYTES,
            },
        )
    } else if total + chain[at]@.len() > MAX_CERTIFICATE_CHAIN_DER_BYTES {
        Err(
            EnrollmentResultError::CertificateChainTooLarge {
                length: (total + chain[at]@.len()) as usize,
                maximum: MAX_CERTIFICATE_CHAIN_DER_BYTES,
            },
        )
    } else {
        spec_check_sizes(chain, at + 1, total + chain[at]@.len())
    }
}

/// The first rule that an approved result breaks, in the order in which they are tested.
pub open spec fn spec_validate_approved(result: EnrollmentResult) -> Result<
    (),
    EnrollmentResultError,
> {
    if result.certificate_chain_der@.len() == 0 {
        Err(EnrollmentResultError::ApprovedResultMissingCertificateChain)
    } else if result.credential_fingerprint_sha256@.len() != SHA256_BYTES {
        Err(
            EnrollmentResultError::ApprovedResultInvalidCredentialFingerprintLength {
                length: result.credential_fingerprint_sha256@.len() as usize,
            },
        )
    } else if result.not_after_unix_ms == 0 {
        Err(EnrollmentResultError::ApprovedResultMissingExpiry)
    } else if result.certificate_chain_der@.len() > MAX_CERTIFICATE_CHAIN_ENTRIES {
        Err(
            EnrollmentResultError::CertificateChainTooLong {
                length: result.certificate_chain_der@.len() as usize,
                maximum: MAX_CERTIFICATE_CHAIN_ENTRIES,
            },
        )
    } else {
        spec_check_sizes(result.certificate_chain_der@, 0, 0)
    }
}

/// The first rule that a result breaks, in the order in which they are tested.
pub open spec fn spec_validate_result(result: EnrollmentResult) -> Result<
    (),
    EnrollmentResultError,
> {
    if result.principal_id@.len() != PRINCIPAL_ID_BYTES {
        Err(
            EnrollmentResultError::InvalidPrincipalIdLength {
                length: result.principal_id@.len() as usize,
            },
        )
    } else if result.csr_sha256@.len() != SHA256_BYTES {
        Err(
            EnrollmentResultError::InvalidCsrSha256Length {
                length: result.csr_sha256@.len() as usize,
            },
        )
    } else if result.status == STATUS_APPROVED {
        spec_validate_approved(result)
    } else if result.status == STATUS_REJECTED || result.status == STATUS_REVOKED || result.status
        == STATUS_EXPIRED {
        if result.certificate_chain_der@.len() != 0
            || result.credential_fingerprint_sha256@.len() != 0 || result.not_after_unix_ms
            != 0 {
            Err(EnrollmentResultError::NonApprovedResultCarriesCredential)
        } else {
            Ok(())
        }
    } else {
        Err(EnrollmentResultError::UnsupportedTerminalStatus { value: result.status })
    }
}

/// Validates status-dependent enrollment result shape before any certificate is
/// persisted or used for mTLS. Cryptographic certificate/CSR verification is a
/// separate authority/client step; this function only enforces bounded wire
/// invariants and prevents rejected/revoked results from smuggling credentials.
pub fn validate_enrollment_result(result: &EnrollmentResult) -> (validated: Result<
    (),
    EnrollmentResultError,
>)
    ensures
        validated == spec_validate_result(*result),
{
    if result.principal_id.len() != PRINCIPAL_ID_BYTES {
        return Err(
            EnrollmentResultError::InvalidPrincipalIdLength { length: result.principal_id.len() },
        );
    }
    if result.csr_sha256.len() != SHA256_BYTES {
        return Err(
            EnrollmentResultError::InvalidCsrSha256Length { length: result.csr_sha256.len() },
        );
    }
    if result.status == STATUS_APPROVED {
        validate_approved_result(result)
    } else if result.status == STATUS_REJECTED || result.status == STATUS_REVOKED || result.status
        == STATUS_EXPIRED {
        if result.certificate_chain_der.len() != 0 || result.credential_fingerprint_sha256.len()
            != 0 || result.not_after_unix_ms != 0 {
            return Err(EnrollmentResultError::NonApprovedResultCarriesCredential);
        }
        Ok(())
    } else {
        Err(EnrollmentResultError::UnsupportedTerminalStatus { value: result.status })
    }
}

/// Why a result brings no credential at a time, if it does not.
pub open spec fn spec_credential_refusal(result: EnrollmentResult, now_unix_ms: u64) -> Option<
    EnrollmentCredentialError,
> {
    match spec_validate_result(result) {
        Err(error) => Some(EnrollmentCredentialError::InvalidResult(error)),
        Ok(()) => if result.status != STATUS_APPROVED {
            Some(EnrollmentCredentialError::ResultNotApproved)
        } else if result.not_after_unix_ms <= now_unix_ms {
            Some(EnrollmentCredentialError::CredentialAlreadyExpired)
        } else {
            None
        },
    }
}

/// The credential is what the result says, active from now until its expiry.
pub open spec fn is_credential_of(
    approved: ApprovedEnrollmentCredential,
    result: EnrollmentResult,
    now_unix_ms: u64,
) -> bool {
    &&& approved.principal_id.0@ == result.principal_id@
    &&& approved.csr_sha256@ == result.csr_sha256@
    &&& approved.credential.fingerprint.0@ == result.credential_fingerprint_sha256@
    &&& approved.credential == (CredentialRecord {
        fingerprint: approved.credential.fingerprint,
        state: CredentialState::Active,
        issued_at_unix_ms: now_unix_ms,
        expires_at_unix_ms: Some(result.not_after_unix_ms),
        revoked_at_unix_ms: None,
    })
    &&& crate::bytes::same_contents(approved.certificate_chain_der@, result.certificate_chain_der@)
}

pub fn approved_credential_from_result(result: &EnrollmentResult, now_unix_ms: u64) -> (approved:
    Result<ApprovedEnrollmentCredential, EnrollmentCredentialError>)
    ensures
        match approved {
            Ok(credential) => spec_credential_refusal(*result, now_unix_ms) is None
                && is_credential_of(credential, *result, now_unix_ms),
            Err(error) => spec_credential_refusal(*result, now_unix_ms) == Some(error),
        },
{
    match validate_enrollment_result(result) {
        Ok(()) => {},
        Err(error) => return Err(EnrollmentCredentialError::InvalidResult(error)),
    }
    if result.status != STATUS_APPROVED {
        return Err(EnrollmentCredentialError::ResultNotApproved);
    }
    if result.not_after_unix_ms <= now_unix_ms {
        return Err(EnrollmentCredentialError::CredentialAlreadyExpired);
    }
    let principal_id = PrincipalId(array32(result.principal_id.as_slice()));
    let csr_sha256 = array32(result.csr_sha256.as_slice());
    let fingerprint = CredentialFingerprint(
        array32(result.credential_fingerprint_sha256.as_slice()),
    );
    let mut credential = CredentialRecord::active(fingerprint, now_unix_ms);
    credential.expires_at_unix_ms = Some(result.not_after_unix_ms);
    Ok(
        ApprovedEnrollmentCredential {
            principal_id,
            csr_sha256,
            credential,
            certificate_chain_der: copy_list(&result.certificate_chain_der),
        },
    )
}

fn validate_approved_result(result: &EnrollmentResult) -> (validated: Result<
    (),
    EnrollmentResultError,
>)
    ensures
        validated == spec_validate_approved(*result),
{
    if result.certificate_chain_der.len() == 0 {
        return Err(EnrollmentResultError::ApprovedResultMissingCertificateChain);
    }
    if result.credential_fingerprint_sha256.len() != SHA256_BYTES {
        return Err(
            EnrollmentResultError::ApprovedResultInvalidCredentialFingerprintLength {
                length: result.credential_fingerprint_sha256.len(),
            },
        );
    }
    if result.not_after_unix_ms == 0 {
        return Err(EnrollmentResultError::ApprovedResultMissingExpiry);
    }
    if result.certificate_chain_der.len() > MAX_CERTIFICATE_CHAIN_ENTRIES {
        return Err(
            EnrollmentResultError::CertificateChainTooLong {
                length: result.certificate_chain_der.len(),
                maximum: MAX_CERTIFICATE_CHAIN_ENTRIES,
            },
        );
    }
    let mut total: usize = 0;
    let mut i: usize = 0;
    while i < result.certificate_chain_der.len()
        invariant
            i <= result.certificate_chain_der@.len(),
            total <= MAX_CERTIFICATE_CHAIN_DER_BYTES,
            spec_validate_approved(*result) == spec_check_sizes(
                result.certificate_chain_der@,
                i as int,
                total as int,
            ),
        decreases result.certificate_chain_der@.len() - i,
    {
        let length: usize = result.certificate_chain_der[i].len();
        if length > MAX_CERTIFICATE_DER_BYTES {
            return Err(
                EnrollmentResultError::CertificateTooLarge {
                    length,
                    maximum: MAX_CERTIFICATE_DER_BYTES,
                },
            );
        }
        total = total + length;
        if total > MAX_CERTIFICATE_CHAIN_DER_BYTES {
            return Err(
                EnrollmentResultError::CertificateChainTooLarge {
                    length: total,
                    maximum: MAX_CERTIFICATE_CHAIN_DER_BYTES,
                },
            );
        }
        i += 1;
    }
    Ok(())
}

/// Sizes that were not refused are within the bounds of one certificate.
pub proof fn lemma_sizes_bounded(chain: Seq<Vec<u8>>, at: int, total: int, i: int)
    requires
        0 <= at <= i < chain.len(),
        spec_check_sizes(chain, at, total) is Ok,
    ensures
        chain[i]@.len() <= MAX_CERTIFICATE_DER_BYTES,
    decreases chain.len() - at,
{
    if at < i {
        lemma_sizes_bounded(chain, at + 1, total + chain[at]@.len(), i);
    }
}

/// An accepted result carries a credential exactly where it is approved, and then within
/// bounds.
pub proof fn law_only_approved_results_carry_credentials(result: EnrollmentResult, i: int)
    requires
        spec_validate_result(result) is Ok,
    ensures
        result.status == STATUS_APPROVED <==> result.certificate_chain_der@.len() > 0,
        result.certificate_chain_der@.len() <= MAX_CERTIFICATE_CHAIN_ENTRIES,
        0 <= i < result.certificate_chain_der@.len() ==> result.certificate_chain_der@[i]@.len()
            <= MAX_CERTIFICATE_DER_BYTES,
{
    if result.status == STATUS_APPROVED && 0 <= i < result.certificate_chain_der@.len() {
        lemma_sizes_bounded(result.certificate_chain_der@, 0, 0, i);
    }
}

/// The bytes of some certificates together.
pub open spec fn chain_bytes(chain: Seq<Vec<u8>>) -> nat
    decreases chain.len(),
{
    if chain.len() == 0 {
        0
    } else {
        chain_bytes(chain.drop_last()) + chain.last()@.len()
    }
}

proof fn lemma_sizes_of_the_rest(chain: Seq<Vec<u8>>, at: int)
    requires
        0 <= at <= chain.len(),
    ensures
        spec_check_sizes(chain, at, chain_bytes(chain.take(at)) as int) is Ok <==> (forall|i: int|
            at <= i < chain.len() ==> (#[trigger] chain[i])@.len() <= 65_536) && (at < chain.len()
            ==> chain_bytes(chain) <= 262_144),
    decreases chain.len() - at,
{
    assert(chain.take(chain.len() as int) =~= chain);
    if at < chain.len() {
        lemma_sizes_of_the_rest(chain, at + 1);
        let next = chain.take(at + 1);
        assert(next.drop_last() =~= chain.take(at));
        assert(chain_bytes(next) == chain_bytes(chain.take(at)) + chain[at]@.len());
        lemma_prefix_is_not_larger(chain, at + 1);
    }
}

proof fn lemma_prefix_is_not_larger(chain: Seq<Vec<u8>>, at: int)
    requires
        0 <= at <= chain.len(),
    ensures
        chain_bytes(chain.take(at)) <= chain_bytes(chain),
    decreases chain.len(),
{
    if at < chain.len() {
        lemma_prefix_is_not_larger(chain.drop_last(), at);
        assert(chain.drop_last().take(at) =~= chain.take(at));
    } else {
        assert(chain.take(at) =~= chain);
    }
}

/// An approved result is taken if and only if it brings one to eight certificates, none of them
/// too large and all of them together not, a fingerprint of 32 bytes and an expiry. Any other
/// final status is taken if and only if it brings none of these.
pub proof fn law_sound_results_are_taken(result: EnrollmentResult)
    requires
        result.principal_id@.len() == 32,
        result.csr_sha256@.len() == 32,
    ensures
        ({
            let validated = spec_validate_result(result);
            let chain = result.certificate_chain_der@;
            let fingerprint = result.credential_fingerprint_sha256@;
            &&& result.status == 2 ==> (validated is Ok <==> {
                &&& 1 <= chain.len() <= 8
                &&& forall|i: int| 0 <= i < chain.len() ==> (#[trigger] chain[i])@.len() <= 65_536
                &&& chain_bytes(chain) <= 262_144
                &&& fingerprint.len() == 32
                &&& result.not_after_unix_ms != 0
            })
            &&& 3 <= result.status <= 5 ==> (validated is Ok <==> chain.len() == 0
                && fingerprint.len() == 0 && result.not_after_unix_ms == 0)
            &&& result.status < 2 || result.status > 5 ==> validated == Err::<(), _>(
                EnrollmentResultError::UnsupportedTerminalStatus { value: result.status },
            )
        }),
{
    let chain = result.certificate_chain_der@;
    lemma_sizes_of_the_rest(chain, 0);
    assert(chain.take(0) =~= Seq::empty());
}

/// A result without a principal or a digest of 32 bytes is refused whatever its status is.
pub proof fn law_results_name_their_request(result: EnrollmentResult)
    ensures
        result.principal_id@.len() != 32 ==> spec_validate_result(result) is Err,
        result.csr_sha256@.len() != 32 ==> spec_validate_result(result) is Err,
{
}

/// A credential comes of a sound result that is approved and has not expired, and of no other. It
/// is accepted from now on until the expiry, and no longer.
pub proof fn law_approved_credential_is_accepted(
    result: EnrollmentResult,
    approved: ApprovedEnrollmentCredential,
    now_unix_ms: u64,
    later: u64,
)
    ensures
        spec_validate_result(result) is Ok && result.status == 2 && now_unix_ms
            < result.not_after_unix_ms <==> spec_credential_refusal(result, now_unix_ms) is None,
        is_credential_of(approved, result, now_unix_ms)
            ==> approved.credential.spec_is_accepted_at(later) == (now_unix_ms <= later
            < result.not_after_unix_ms),
        is_credential_of(approved, result, now_unix_ms) ==> approved.principal_id.0@
            == result.principal_id@ && approved.credential.fingerprint.0@
            == result.credential_fingerprint_sha256@ && approved.certificate_chain_der@.len()
            == result.certificate_chain_der@.len(),
{
}

/// The fault of a result is named, the first of them where there are several.
pub proof fn law_result_faults_are_named(result: EnrollmentResult)
    ensures
        ({
            let validated = spec_validate_result(result);
            let bound = result.principal_id@.len() == 32 && result.csr_sha256@.len() == 32;
            let chain = result.certificate_chain_der@;
            let fingerprint = result.credential_fingerprint_sha256@;
            let approved = bound && result.status == 2;
            &&& result.principal_id@.len() != 32 ==> validated is Err && validated->Err_0
                is InvalidPrincipalIdLength
            &&& result.principal_id@.len() == 32 && result.csr_sha256@.len() != 32 ==> validated
                is Err && validated->Err_0 is InvalidCsrSha256Length
            &&& approved && chain.len() == 0 ==> validated == Err::<(), _>(
                EnrollmentResultError::ApprovedResultMissingCertificateChain,
            )
            &&& approved && chain.len() > 0 && fingerprint.len() != 32 ==> validated is Err
                && validated->Err_0 is ApprovedResultInvalidCredentialFingerprintLength
            &&& approved && chain.len() > 0 && fingerprint.len() == 32 && result.not_after_unix_ms
                == 0 ==> validated == Err::<(), _>(
                EnrollmentResultError::ApprovedResultMissingExpiry,
            )
            &&& approved && chain.len() > 8 && fingerprint.len() == 32 && result.not_after_unix_ms
                != 0 ==> validated is Err && validated->Err_0 is CertificateChainTooLong
            &&& bound && 3 <= result.status <= 5 && validated is Err ==> validated == Err::<(), _>(
                EnrollmentResultError::NonApprovedResultCarriesCredential,
            )
        }),
{
}

/// Why there is no credential is told: the result is unsound, was not approved, or has expired.
pub proof fn law_missing_credentials_are_explained(result: EnrollmentResult, now_unix_ms: u64)
    ensures
        ({
            let refusal = spec_credential_refusal(result, now_unix_ms);
            let validated = spec_validate_result(result);
            &&& validated is Err ==> refusal == Some(
                EnrollmentCredentialError::InvalidResult(validated->Err_0),
            )
            &&& validated is Ok && result.status != 2 ==> refusal == Some(
                EnrollmentCredentialError::ResultNotApproved,
            )
            &&& validated is Ok && result.status == 2 && now_unix_ms >= result.not_after_unix_ms
                ==> refusal == Some(EnrollmentCredentialError::CredentialAlreadyExpired)
        }),
{
}

} // verus!
