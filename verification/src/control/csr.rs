//! Certificate requests and their proof of possession.

use rcgen::CertificateSigningRequestParams;
use rustls::pki_types::CertificateSigningRequestDer;
use vstd::prelude::*;

verus! {

#[derive(Debug, Clone, Copy, PartialEq, Eq, Structural)]
pub enum CsrVerificationError {
    MalformedOrInvalidSignature,
}

/// The bytes are a PKCS#10 request that the parser supports, signed by the key in it.
pub uninterp spec fn is_signed_request(csr_der: Seq<u8>) -> bool;

/// Calls `CertificateSigningRequestParams::from_der`, which parses a request and verifies its
/// signature: whether it succeeds is a function of the bytes.
#[verifier::external_body]
fn parse_request(csr_der: &[u8]) -> (accepted: bool)
    ensures
        accepted == is_signed_request(csr_der@),
{
    CertificateSigningRequestParams::from_der(&CertificateSigningRequestDer::from(csr_der)).is_ok()
}

/// Parses a PKCS#10 request and verifies its proof-of-possession signature.
///
/// Successful verification proves that the request is structurally supported by the
/// maintained parser and that the request signature matches its embedded public key.
/// Enrollment policy remains responsible for binding the exact DER bytes to the
/// approved stable principal.
pub fn verify_pkcs10_csr(csr_der: &[u8]) -> (result: Result<(), CsrVerificationError>)
    ensures
        match result {
            Ok(()) => is_signed_request(csr_der@),
            Err(CsrVerificationError::MalformedOrInvalidSignature) => !is_signed_request(csr_der@),
        },
{
    if parse_request(csr_der) {
        Ok(())
    } else {
        Err(CsrVerificationError::MalformedOrInvalidSignature)
    }
}

} // verus!
