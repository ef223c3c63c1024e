//! Trust in an authority before a device has a credential.

use crate::bytes::bytes_equal;
use crate::security::PrincipalId;
use vstd::prelude::*;

verus! {

pub const SHA256_BYTES: usize = 32;

pub const BOOTSTRAP_NONCE_BYTES: usize = 32;

/// The authority that a device was told to trust.
#[derive(Debug, Clone, Copy, PartialEq, Eq)]
pub struct BootstrapAuthority {
    pub certificate_fingerprint_sha256: [u8; SHA256_BYTES],
}

#[derive(Debug, Clone, Copy, PartialEq, Eq)]
pub struct BootstrapChallenge {
    pub principal_id: PrincipalId,
    pub client_nonce: [u8; BOOTSTRAP_NONCE_BYTES],
    pub authority_fingerprint_sha256: [u8; SHA256_BYTES],
}

#[derive(Debug, Clone, Copy, PartialEq, Eq, Structural)]
pub enum BootstrapTrustError {
    AuthorityMismatch,
    PrincipalMismatch,
    NonceMismatch,
}

impl BootstrapAuthority {
    /// What a challenge leads to: it must come from the pinned authority and answer the
    /// device's own request.
    pub open spec fn spec_validate(
        self,
        expected_principal: PrincipalId,
        expected_nonce: Seq<u8>,
        challenge: BootstrapChallenge,
    ) -> Result<(), BootstrapTrustError> {
        if challenge.authority_fingerprint_sha256@ != self.certificate_fingerprint_sha256@ {
            Err(BootstrapTrustError::AuthorityMismatch)
        } else if challenge.principal_id != expected_principal {
            Err(BootstrapTrustError::PrincipalMismatch)
        } else if challenge.client_nonce@ != expected_nonce {
            Err(BootstrapTrustError::NonceMismatch)
        } else {
            Ok(())
        }
    }

    pub fn validate_challenge(
        self,
        expected_principal: PrincipalId,
        expected_nonce: [u8; BOOTSTRAP_NONCE_BYTES],
        challenge: BootstrapChallenge,
    ) -> (result: Result<(), BootstrapTrustError>)
        ensures
            result == self.spec_validate(expected_principal, expected_nonce@, challenge),
    {
        if !bytes_equal(
            challenge.authority_fingerprint_sha256.as_slice(),
            self.certificate_fingerprint_sha256.as_slice(),
        ) {
            return Err(BootstrapTrustError::AuthorityMismatch);
        }
        if challenge.principal_id != expected_principal {
            return Err(BootstrapTrustError::PrincipalMismatch);
        }
        if !bytes_equal(challenge.client_nonce.as_slice(), expected_nonce.as_slice()) {
            return Err(BootstrapTrustError::NonceMismatch);
        }
        Ok(())
    }
}

/// A challenge is trusted if and only if it names the authority, the principal and the nonce that
/// were expected; each of them binds by itself.
pub proof fn law_challenge_binds_everything(
    authority: BootstrapAuthority,
    principal: PrincipalId,
    nonce: Seq<u8>,
    challenge: BootstrapChallenge,
)
    ensures
        ({
            let result = authority.spec_validate(principal, nonce, challenge);
            let known = challenge.authority_fingerprint_sha256@
                == authority.certificate_fingerprint_sha256@;
            &&& !known ==> result == Err::<(), _>(BootstrapTrustError::AuthorityMismatch)
            &&& known && challenge.principal_id != principal ==> result == Err::<(), _>(
                BootstrapTrustError::PrincipalMismatch,
            )
            &&& known && challenge.principal_id == principal && challenge.client_nonce@ != nonce
                ==> result == Err::<(), _>(BootstrapTrustError::NonceMismatch)
            &&& known && challenge.principal_id == principal && challenge.client_nonce@ == nonce
                ==> result is Ok
        }),
{
}

} // verus!
