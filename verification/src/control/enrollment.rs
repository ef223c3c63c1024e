//! Which enrollment requests and results are well-formed and belong together.

use crate::bytes::bytes_equal;
use crate::protocol::control_wire::{EnrollmentRequest, EnrollmentResult};
use crate::protocol::ProtocolVersion;
use crate::text::{blank, byte_length};
use vstd::prelude::*;

verus! {

/// The first version that has enrollment, by its parts.
pub const ENROLLMENT_MIN_MAJOR: u16 = 0;

pub const ENROLLMENT_MIN_MINOR: u16 = 2;

pub const PRINCIPAL_ID_BYTES: usize = 32;

pub const ENROLLMENT_NONCE_BYTES: usize = 32;

pub const SHA256_BYTES: usize = 32;

pub const MAX_ENROLLMENT_CSR_BYTES: usize = 65_536;

pub const MAX_DISPLAY_NAME_BYTES: usize = 128;

#[derive(Debug, Clone, Copy, PartialEq, Eq, Structural)]
pub enum EnrollmentValidationError {
    UnsupportedProtocolVersion { negotiated: ProtocolVersion, minimum: ProtocolVersion },
    InvalidPrincipalIdLength { length: usize },
    InvalidClientNonceLength { length: usize },
    EmptyCsr,
    CsrTooLarge { length: usize, maximum: usize },
    EmptyDisplayName,
    DisplayNameTooLong { length: usize, maximum: usize },
    UnsupportedRole { value: i32 },
    InvalidCsrSha256Length { length: usize },
    PrincipalBindingMismatch,
    CsrBindingMismatch,
}

/// The first version that has enrollment.
pub open spec fn spec_min_version() -> ProtocolVersion {
    ProtocolVersion { major: ENROLLMENT_MIN_MAJOR, minor: ENROLLMENT_MIN_MINOR }
}

/// The first version that has enrollment.
#[must_use]
pub fn enrollment_min_version() -> (version: ProtocolVersion)
    ensures
        version == spec_min_version(),
{
    ProtocolVersion { major: ENROLLMENT_MIN_MAJOR, minor: ENROLLMENT_MIN_MINOR }
}

/// What validating a version leads to.
pub open spec fn spec_validate_version(negotiated: ProtocolVersion) -> Result<
    (),
    EnrollmentValidationError,
> {
    if negotiated.major != ENROLLMENT_MIN_MAJOR || negotiated.minor < ENROLLMENT_MIN_MINOR {
        Err(
            EnrollmentValidationError::UnsupportedProtocolVersion {
                negotiated,
                minimum: spec_min_version(),
            },
        )
    } else {
        Ok(())
    }
}

/// The first rule that a request breaks, in the order in which they are tested.
pub open spec fn spec_validate_request(
    negotiated: ProtocolVersion,
    request: EnrollmentRequest,
) -> Result<(), EnrollmentValidationError> {
    match spec_validate_version(negotiated) {
        Err(error) => Err(error),
        Ok(()) => if request.principal_id@.len() != PRINCIPAL_ID_BYTES {
            Err(
                EnrollmentValidationError::InvalidPrincipalIdLength {
                    length: request.principal_id@.len() as usize,
                },
            )
        } else if request.client_nonce@.len() != ENROLLMENT_NONCE_BYTES {
            Err(
                EnrollmentValidationError::InvalidClientNonceLength {
                    length: request.client_nonce@.len() as usize,
                },
            )
        } else if request.pkcs10_csr_der@.len() == 0 {
            Err(EnrollmentValidationError::EmptyCsr)
        } else if request.pkcs10_csr_der@.len() > MAX_ENROLLMENT_CSR_BYTES {
            Err(
                EnrollmentValidationError::CsrTooLarge {
                    length: request.pkcs10_csr_der@.len() as usize,
                    maximum: MAX_ENROLLMENT_CSR_BYTES,
                },
            )
        } else if crate::text::is_blank(request.display_name@) {
            Err(EnrollmentValidationError::EmptyDisplayName)
        } else if crate::text::byte_len(request.display_name@) > MAX_DISPLAY_NAME_BYTES {
            Err(
                EnrollmentValidationError::DisplayNameTooLong {
                    length: crate::text::byte_len(request.display_name@) as usize,
                    maximum: MAX_DISPLAY_NAME_BYTES,
                },
            )
        } else if !(1 <= request.role <= 3) {
            Err(EnrollmentValidationError::UnsupportedRole { value: request.role })
        } else {
            Ok(())
        },
    }
}

pub fn validate_enrollment_request(
    negotiated_version: ProtocolVersion,
    request: &EnrollmentRequest,
) -> (result: Result<(), EnrollmentValidationError>)
    ensures
        result == spec_validate_request(negotiated_version, *request),
{
    match validate_enrollment_version(negotiated_version) {
        Ok(()) => {},
        Err(error) => return Err(error),
    }
    if request.principal_id.len() != PRINCIPAL_ID_BYTES {
        return Err(
            EnrollmentValidationError::InvalidPrincipalIdLength {
                length: request.principal_id.len(),
            },
        );
    }
    if request.client_nonce.len() != ENROLLMENT_NONCE_BYTES {
        return Err(
            EnrollmentValidationError::InvalidClientNonceLength {
                length: request.client_nonce.len(),
            },
        );
    }
    if request.pkcs10_csr_der.len() == 0 {
        return Err(EnrollmentValidationError::EmptyCsr);
    }
    if request.pkcs10_csr_der.len() > MAX_ENROLLMENT_CSR_BYTES {
        return Err(
            EnrollmentValidationError::CsrTooLarge {
                length: request.pkcs10_csr_der.len(),
                maximum: MAX_ENROLLMENT_CSR_BYTES,
            },
        );
    }
    let display_name_len: usize = byte_length(request.display_name.as_str());
    if blank(request.display_name.as_str()) {
        return Err(EnrollmentValidationError::EmptyDisplayName);
    }
    if display_name_len > MAX_DISPLAY_NAME_BYTES {
        return Err(
            EnrollmentValidationError::DisplayNameTooLong {
                length: display_name_len,
                maximum: MAX_DISPLAY_NAME_BYTES,
            },
        );
    }
    if request.role < 1 || request.role > 3 {
        return Err(EnrollmentValidationError::UnsupportedRole { value: request.role });
    }
    Ok(())
}

/// What validating a result against what was asked for leads to.
pub open spec fn spec_validate_binding(
    negotiated: ProtocolVersion,
    expected_principal_id: Seq<u8>,
    expected_csr_sha256: Seq<u8>,
    result: EnrollmentResult,
) -> Result<(), EnrollmentValidationError> {
    match spec_validate_version(negotiated) {
        Err(error) => Err(error),
        Ok(()) => if result.principal_id@.len() != PRINCIPAL_ID_BYTES {
            Err(
                EnrollmentValidationError::InvalidPrincipalIdLength {
                    length: result.principal_id@.len() as usize,
                },
            )
        } else if result.csr_sha256@.len() != SHA256_BYTES {
            Err(
                EnrollmentValidationError::InvalidCsrSha256Length {
                    length: result.csr_sha256@.len() as usize,
                },
            )
        } else if result.principal_id@ != expected_principal_id {
            Err(EnrollmentValidationError::PrincipalBindingMismatch)
        } else if result.csr_sha256@ != expected_csr_sha256 {
            Err(EnrollmentValidationError::CsrBindingMismatch)
        } else {
            Ok(())
        },
    }
}

pub fn validate_enrollment_result_binding(
    negotiated_version: ProtocolVersion,
    expected_principal_id: &[u8; PRINCIPAL_ID_BYTES],
    expected_csr_sha256: &[u8; SHA256_BYTES],
    result: &EnrollmentResult,
) -> (validated: Result<(), EnrollmentValidationError>)
    ensures
        validated == spec_validate_binding(
            negotiated_version,
            expected_principal_id@,
            expected_csr_sha256@,
            *result,
        ),
{
    match validate_enrollment_version(negotiated_version) {
        Ok(()) => {},
        Err(error) => return Err(error),
    }
    if result.principal_id.len() != PRINCIPAL_ID_BYTES {
        return Err(
            EnrollmentValidationError::InvalidPrincipalIdLength {
                length: result.principal_id.len(),
            },
        );
    }
    if result.csr_sha256.len() != SHA256_BYTES {
        return Err(
            EnrollmentValidationError::InvalidCsrSha256Length { length: result.csr_sha256.len() },
        );
    }
    if !bytes_equal(result.principal_id.as_slice(), expected_principal_id.as_slice()) {
        return Err(EnrollmentValidationError::PrincipalBindingMismatch);
    }
    if !bytes_equal(result.csr_sha256.as_slice(), expected_csr_sha256.as_slice()) {
        return Err(EnrollmentValidationError::CsrBindingMismatch);
    }
    Ok(())
}

fn validate_enrollment_version(negotiated_version: ProtocolVersion) -> (result: Result<
    (),
    EnrollmentValidationError,
>)
    ensures
        result == spec_validate_version(negotiated_version),
{
    if negotiated_version.major != ENROLLMENT_MIN_MAJOR || negotiated_version.minor
        < ENROLLMENT_MIN_MINOR {
        return Err(
            EnrollmentValidationError::UnsupportedProtocolVersion {
                negotiated: negotiated_version,
                minimum: enrollment_min_version(),
            },
        );
    }
    Ok(())
}

/// Enrollment is spoken from version 0.2 on and within its major number.
pub proof fn law_enrollment_versions(negotiated: ProtocolVersion)
    ensures
        spec_validate_version(negotiated) is Ok <==> negotiated.major == 0 && negotiated.minor >= 2,
        spec_validate_version(negotiated) is Err ==> spec_validate_version(negotiated) == Err::<
            (),
            _,
        >(
            EnrollmentValidationError::UnsupportedProtocolVersion {
                negotiated,
                minimum: ProtocolVersion { major: 0, minor: 2 },
            },
        ),
{
}

/// A request is taken if and only if it has a principal and a nonce of 32 bytes, a certificate
/// request that is neither empty nor too long, a name that is neither blank nor too long, and one
/// of the three roles. Each rule binds by itself.
pub proof fn law_sound_enrollment_requests(negotiated: ProtocolVersion, request: EnrollmentRequest)
    ensures
        spec_validate_request(negotiated, request) is Ok <==> {
            &&& negotiated.major == 0 && negotiated.minor >= 2
            &&& request.principal_id@.len() == 32
            &&& request.client_nonce@.len() == 32
            &&& 1 <= request.pkcs10_csr_der@.len() <= 65_536
            &&& !crate::text::is_blank(request.display_name@)
            &&& vstd::utf8::encode_utf8(request.display_name@).len() <= 128
            &&& request.role == 1 || request.role == 2 || request.role == 3
        },
{
}

/// A result belongs to a request if and only if it names the principal and the digest of the
/// certificate request that were sent; each of them binds by itself.
pub proof fn law_result_binds_the_request(
    negotiated: ProtocolVersion,
    principal: Seq<u8>,
    digest: Seq<u8>,
    result: EnrollmentResult,
)
    requires
        principal.len() == 32,
        digest.len() == 32,
    ensures
        ({
            let validated = spec_validate_binding(negotiated, principal, digest, result);
            let spoken = negotiated.major == 0 && negotiated.minor >= 2;
            &&& validated is Ok <==> spoken && result.principal_id@ == principal
                && result.csr_sha256@ == digest
            &&& spoken && result.principal_id@.len() == 32 && result.csr_sha256@.len() == 32
                && result.principal_id@ != principal ==> validated == Err::<(), _>(
                EnrollmentValidationError::PrincipalBindingMismatch,
            )
            &&& spoken && result.principal_id@ == principal && result.csr_sha256@.len() == 32
                && result.csr_sha256@ != digest ==> validated == Err::<(), _>(
                EnrollmentValidationError::CsrBindingMismatch,
            )
        }),
{
}

/// The fault of a request is named, the first of them where there are several.
pub proof fn law_request_faults_are_named(negotiated: ProtocolVersion, request: EnrollmentRequest)
    requires
        negotiated.major == 0,
        negotiated.minor >= 2,
    ensures
        ({
            let result = spec_validate_request(negotiated, request);
            let bound = request.principal_id@.len() == 32 && request.client_nonce@.len() == 32;
            let csr = request.pkcs10_csr_der@.len();
            let blank = crate::text::is_blank(request.display_name@);
            let long = vstd::utf8::encode_utf8(request.display_name@).len() > 128;
            &&& request.principal_id@.len() != 32 ==> result is Err && result->Err_0
                is InvalidPrincipalIdLength
            &&& request.principal_id@.len() == 32 && request.client_nonce@.len() != 32 ==> result
                is Err && result->Err_0 is InvalidClientNonceLength
            &&& bound && csr == 0 ==> result == Err::<(), _>(EnrollmentValidationError::EmptyCsr)
            &&& bound && csr > 65_536 ==> result is Err && result->Err_0 is CsrTooLarge
            &&& bound && 1 <= csr <= 65_536 && blank ==> result == Err::<(), _>(
                EnrollmentValidationError::EmptyDisplayName,
            )
            &&& bound && 1 <= csr <= 65_536 && !blank && long ==> result is Err && result->Err_0
                is DisplayNameTooLong
            &&& bound && 1 <= csr <= 65_536 && !blank && !long && (request.role < 1 || request.role
                > 3) ==> result == Err::<(), _>(
                EnrollmentValidationError::UnsupportedRole { value: request.role },
            )
        }),
{
}

} // verus!
