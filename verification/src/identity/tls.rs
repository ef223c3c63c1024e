//! Signing TLS handshakes with a protected key.

use super::cng::{encode_signature, CngKeyError};
use rustls::pki_types::alg_id::ECDSA_P256;
use rustls::sign::public_key_to_spki;
use vstd::prelude::*;
use vstd::string::StringExecFns;

verus! {

/// The number of the one signature scheme that a protected key offers: ECDSA on P-256, with
/// SHA-256.
pub const ECDSA_NISTP256_SHA256: u16 = 0x0403;

/// Why a handshake could not be signed.
#[derive(Debug, Clone, Copy, PartialEq, Eq)]
pub enum TlsSigningError {
    Key(CngKeyError),
    InvalidSignature,
}

impl TlsSigningError {
    /// What the error says.
    pub open spec fn spec_message(self) -> Seq<char> {
        match self {
            TlsSigningError::Key(error) => "CNG TLS signing failed: "@ + error.spec_message(),
            TlsSigningError::InvalidSignature => "CNG returned an invalid P-256 signature"@,
        }
    }

    /// The text for people.
    #[must_use]
    pub fn message(&self) -> (text: String)
        ensures
            text@ == self.spec_message(),
    {
        match self {
            TlsSigningError::Key(error) => {
                let mut text: String = "CNG TLS signing failed: ".to_owned();
                text.append(error.message().as_str());
                text
            },
            TlsSigningError::InvalidSignature =>
                "CNG returned an invalid P-256 signature".to_owned(),
        }
    }
}

/// Whether a peer takes signatures of a protected key.
#[must_use]
pub fn offers_p256_sha256(offered: &[u16]) -> (offers: bool)
    ensures
        offers == offered@.contains(ECDSA_NISTP256_SHA256),
{
    let mut i: usize = 0;
    while i < offered.len()
        invariant
            i <= offered@.len(),
            forall|j: int| 0 <= j < i ==> #[trigger] offered@[j] != ECDSA_NISTP256_SHA256,
        decreases offered@.len() - i,
    {
        if offered[i] == ECDSA_NISTP256_SHA256 {
            proof {
                assert(offered@[i as int] == ECDSA_NISTP256_SHA256);
            }
            return true;
        }
        i += 1;
    }
    false
}

/// Turns what the key storage answered into the signature of a handshake.
pub fn tls_signature(signed: Result<Vec<u8>, CngKeyError>) -> (result: Result<
    Vec<u8>,
    TlsSigningError,
>)
    ensures
        match (signed, result) {
            (Ok(raw), Ok(der)) => super::cng::is_p256_signature(raw@) && der@
                == super::cng::der_signature(raw@),
            (Ok(raw), Err(error)) => !super::cng::is_p256_signature(raw@) && error
                == TlsSigningError::InvalidSignature,
            (Err(cause), Err(error)) => error == TlsSigningError::Key(cause),
            (Err(_), Ok(_)) => false,
        },
{
    match signed {
        Ok(raw) => match encode_signature(raw.as_slice()) {
            Ok(der) => Ok(der),
            Err(_) => Err(TlsSigningError::InvalidSignature),
        },
        Err(error) => Err(TlsSigningError::Key(error)),
    }
}

/// A public P-256 key with a note of what it is, in DER: a sequence of the algorithm's and the
/// curve's identifiers, and the point as a bit string.
pub open spec fn p256_public_key_info(point: Seq<u8>) -> Seq<u8> {
    seq![
        0x30u8, 0x59, 0x30, 0x13, 0x06, 0x07, 0x2a, 0x86, 0x48, 0xce, 0x3d, 0x02, 0x01, 0x06,
        0x08, 0x2a, 0x86, 0x48, 0xce, 0x3d, 0x03, 0x01, 0x07, 0x03, 0x42, 0x00,
    ] + point
}

/// Calls `public_key_to_spki` of rustls with the identifiers of P-256: puts an uncompressed
/// point, which has 65 bytes, behind what says that it is one.
#[verifier::external_body]
fn p256_spki(point: &[u8]) -> (info: Vec<u8>)
    requires
        point@.len() == 65,
    ensures
        info@ == p256_public_key_info(point@),
{
    public_key_to_spki(&ECDSA_P256, point).as_ref().to_vec()
}

/// A public key as a certificate carries it, from the key storage's own format.
pub fn public_key_info(public_key_blob: &[u8]) -> (result: Result<Vec<u8>, CngKeyError>)
    ensures
        match result {
            Ok(info) => super::cng::is_p256_blob(public_key_blob@) && info@
                == p256_public_key_info(super::cng::sec1_point(public_key_blob@)),
            Err(error) => !super::cng::is_p256_blob(public_key_blob@) && error
                == CngKeyError::InvalidPublicKeyBlob,
        },
{
    match super::cng::sec1_public_key_from_cng_blob(public_key_blob) {
        Ok(point) => Ok(p256_spki(point.as_slice())),
        Err(error) => Err(error),
    }
}

} // verus!
