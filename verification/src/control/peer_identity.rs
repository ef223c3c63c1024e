//! From a verified certificate to the principal that it stands for.

use crate::digest::sha256;
use crate::security::{
    AuthorizationStore, CredentialFingerprint, Permission, PrincipalId, StoreView,
};
use vstd::prelude::*;
use vstd::string::StringExecFns;

verus! {

#[derive(Debug, Clone, Copy, PartialEq, Eq, Structural)]
pub enum PeerIdentityError {
    MissingPeerIdentity,
    UnexpectedPeerIdentityType,
    EmptyCertificateChain,
    UnknownOrInactiveCredential,
}

impl PeerIdentityError {
    /// The value as it is written for developers.
    pub open spec fn spec_debug(self) -> Seq<char> {
        match self {
            PeerIdentityError::MissingPeerIdentity => "MissingPeerIdentity"@,
            PeerIdentityError::UnexpectedPeerIdentityType => "UnexpectedPeerIdentityType"@,
            PeerIdentityError::EmptyCertificateChain => "EmptyCertificateChain"@,
            PeerIdentityError::UnknownOrInactiveCredential => "UnknownOrInactiveCredential"@,
        }
    }

    /// Appends the value as it is written for developers.
    pub fn push_debug(&self, text: &mut String)
        ensures
            final(text)@ == old(text)@ + self.spec_debug(),
    {
        match self {
            PeerIdentityError::MissingPeerIdentity => text.append("MissingPeerIdentity"),
            PeerIdentityError::UnexpectedPeerIdentityType => {
                text.append("UnexpectedPeerIdentityType")
            },
            PeerIdentityError::EmptyCertificateChain => text.append("EmptyCertificateChain"),
            PeerIdentityError::UnknownOrInactiveCredential => {
                text.append("UnknownOrInactiveCredential")
            },
        }
    }
}

/// Who a peer is, and by which credential that is known.
#[derive(Debug, Clone, Copy, PartialEq, Eq)]
pub struct AuthenticatedPeerIdentity {
    pub principal_id: PrincipalId,
    pub credential_fingerprint: CredentialFingerprint,
}

/// What a TLS connection tells of its peer.
#[derive(Debug, Clone, PartialEq, Eq)]
pub enum PresentedIdentity {
    /// The peer has presented nothing.
    Missing,
    /// The peer has presented something other than certificates.
    Unrecognized,
    /// The certificates that the peer has presented, the leaf first, in DER.
    CertificateChain(Vec<Vec<u8>>),
}

/// `fingerprint` is the digest of the leaf certificate.
pub open spec fn is_leaf_fingerprint(
    certificate_chain: Seq<Vec<u8>>,
    fingerprint: CredentialFingerprint,
) -> bool {
    certificate_chain.len() > 0 && fingerprint.0@ == crate::digest::sha256_digest(
        certificate_chain[0]@,
    )
}

impl AuthenticatedPeerIdentity {
    /// The credential still stands for the principal, and the principal has the permission.
    pub open spec fn spec_authorize(
        self,
        store: StoreView,
        permission: Permission,
        now_unix_ms: u64,
    ) -> bool {
        store.spec_principal_for(self.credential_fingerprint, now_unix_ms) == Some(
            self.principal_id,
        ) && store.spec_authorize(self.principal_id, permission)
    }

    #[must_use]
    pub fn principal_id(self) -> (principal: PrincipalId)
        ensures
            principal == self.principal_id,
    {
        self.principal_id
    }

    /// Whether the peer may do something now. The credential is looked up anew, so that what
    /// was revoked since the connection was made counts.
    #[must_use]
    pub fn authorize(
        self,
        authorization: &AuthorizationStore,
        permission: Permission,
        now_unix_ms: u64,
    ) -> (authorized: bool)
        requires
            authorization.wf(),
        ensures
            authorized == self.spec_authorize(authorization@, permission, now_unix_ms),
    {
        match authorization.principal_for_credential(self.credential_fingerprint, now_unix_ms) {
            Some(principal) => principal == self.principal_id && authorization.authorize(
                self.principal_id,
                permission,
            ),
            None => false,
        }
    }
}

/// Resolves a TLS-verified leaf certificate to the stable ClassMesh identity.
///
/// The certificate fingerprint is only a lookup credential. It never becomes the
/// principal identity itself, and the authorization store applies credential
/// revocation, expiry, future-issued, and principal-enabled checks.
pub fn identity_for_verified_certificate_chain(
    authorization: &AuthorizationStore,
    certificate_chain: &Vec<Vec<u8>>,
    now_unix_ms: u64,
) -> (result: Result<AuthenticatedPeerIdentity, PeerIdentityError>)
    requires
        authorization.wf(),
    ensures
        match result {
            Ok(identity) => is_leaf_fingerprint(
                certificate_chain@,
                identity.credential_fingerprint,
            ) && authorization@.spec_principal_for(identity.credential_fingerprint, now_unix_ms)
                == Some(identity.principal_id),
            Err(PeerIdentityError::EmptyCertificateChain) => certificate_chain@.len() == 0,
            Err(PeerIdentityError::UnknownOrInactiveCredential) => certificate_chain@.len() > 0
                && forall|fingerprint: CredentialFingerprint| #[trigger]
                is_leaf_fingerprint(certificate_chain@, fingerprint)
                    ==> authorization@.spec_principal_for(fingerprint, now_unix_ms) is None,
            Err(_) => false,
        },
{
    if certificate_chain.len() == 0 {
        return Err(PeerIdentityError::EmptyCertificateChain);
    }
    let fingerprint = CredentialFingerprint(sha256(certificate_chain[0].as_slice()));
    match authorization.principal_for_credential(fingerprint, now_unix_ms) {
        Some(principal_id) => Ok(
            AuthenticatedPeerIdentity { principal_id, credential_fingerprint: fingerprint },
        ),
        None => {
            proof {
                assert forall|other: CredentialFingerprint| #[trigger]
                    is_leaf_fingerprint(certificate_chain@, other) implies other
                    == fingerprint by {
                    assert(other.0@ == fingerprint.0@);
                    assert(other.0 =~= fingerprint.0);
                }
            }
            Err(PeerIdentityError::UnknownOrInactiveCredential)
        },
    }
}

/// Resolves a TLS-verified leaf certificate to the stable ClassMesh principal.
pub fn principal_for_verified_certificate_chain(
    authorization: &AuthorizationStore,
    certificate_chain: &Vec<Vec<u8>>,
    now_unix_ms: u64,
) -> (result: Result<PrincipalId, PeerIdentityError>)
    requires
        authorization.wf(),
    ensures
        match result {
            Ok(principal) => exists|fingerprint: CredentialFingerprint|
                #![trigger is_leaf_fingerprint(certificate_chain@, fingerprint)]
                is_leaf_fingerprint(certificate_chain@, fingerprint)
                    && authorization@.spec_principal_for(fingerprint, now_unix_ms) == Some(
                    principal,
                ),
            Err(PeerIdentityError::EmptyCertificateChain) => certificate_chain@.len() == 0,
            Err(PeerIdentityError::UnknownOrInactiveCredential) => certificate_chain@.len() > 0
                && forall|fingerprint: CredentialFingerprint| #[trigger]
                is_leaf_fingerprint(certificate_chain@, fingerprint)
                    ==> authorization@.spec_principal_for(fingerprint, now_unix_ms) is None,
            Err(_) => false,
        },
{
    match identity_for_verified_certificate_chain(authorization, certificate_chain, now_unix_ms) {
        Ok(identity) => Ok(identity.principal_id),
        Err(error) => Err(error),
    }
}

/// Resolves what a connection tells of its peer after the TLS handshake.
///
/// This function does not replace certificate-chain verification. It must only be
/// used on a connection established with the enrolled mTLS configuration.
pub fn authenticated_peer_identity(
    presented: &PresentedIdentity,
    authorization: &AuthorizationStore,
    now_unix_ms: u64,
) -> (result: Result<AuthenticatedPeerIdentity, PeerIdentityError>)
    requires
        authorization.wf(),
    ensures
        match (*presented, result) {
            (PresentedIdentity::CertificateChain(chain), Ok(identity)) => is_leaf_fingerprint(
                chain@,
                identity.credential_fingerprint,
            ) && authorization@.spec_principal_for(identity.credential_fingerprint, now_unix_ms)
                == Some(identity.principal_id),
            (
                PresentedIdentity::CertificateChain(chain),
                Err(PeerIdentityError::EmptyCertificateChain),
            ) => chain@.len() == 0,
            (
                PresentedIdentity::CertificateChain(chain),
                Err(PeerIdentityError::UnknownOrInactiveCredential),
            ) => chain@.len() > 0 && forall|fingerprint: CredentialFingerprint| #[trigger]
                is_leaf_fingerprint(chain@, fingerprint) ==> authorization@.spec_principal_for(
                    fingerprint,
                    now_unix_ms,
                ) is None,
            (PresentedIdentity::Missing, Err(PeerIdentityError::MissingPeerIdentity)) => true,
            (
                PresentedIdentity::Unrecognized,
                Err(PeerIdentityError::UnexpectedPeerIdentityType),
            ) => true,
            _ => false,
        },
{
    match presented {
        PresentedIdentity::Missing => Err(PeerIdentityError::MissingPeerIdentity),
        PresentedIdentity::Unrecognized => Err(PeerIdentityError::UnexpectedPeerIdentityType),
        PresentedIdentity::CertificateChain(chain) => identity_for_verified_certificate_chain(
            authorization,
            chain,
            now_unix_ms,
        ),
    }
}

/// The principal that a connection's peer stands for.
pub fn authenticated_peer_principal(
    presented: &PresentedIdentity,
    authorization: &AuthorizationStore,
    now_unix_ms: u64,
) -> (result: Result<PrincipalId, PeerIdentityError>)
    requires
        authorization.wf(),
    ensures
        match (*presented, result) {
            (PresentedIdentity::CertificateChain(chain), Ok(principal)) => exists|
                fingerprint: CredentialFingerprint,
            |
                #![trigger is_leaf_fingerprint(chain@, fingerprint)]
                is_leaf_fingerprint(chain@, fingerprint) && authorization@.spec_principal_for(
                    fingerprint,
                    now_unix_ms,
                ) == Some(principal),
            (
                PresentedIdentity::CertificateChain(chain),
                Err(PeerIdentityError::EmptyCertificateChain),
            ) => chain@.len() == 0,
            (
                PresentedIdentity::CertificateChain(chain),
                Err(PeerIdentityError::UnknownOrInactiveCredential),
            ) => chain@.len() > 0 && forall|fingerprint: CredentialFingerprint| #[trigger]
                is_leaf_fingerprint(chain@, fingerprint) ==> authorization@.spec_principal_for(
                    fingerprint,
                    now_unix_ms,
                ) is None,
            (PresentedIdentity::Missing, Err(PeerIdentityError::MissingPeerIdentity)) => true,
            (
                PresentedIdentity::Unrecognized,
                Err(PeerIdentityError::UnexpectedPeerIdentityType),
            ) => true,
            _ => false,
        },
{
    match authenticated_peer_identity(presented, authorization, now_unix_ms) {
        Ok(identity) => Ok(identity.principal_id),
        Err(error) => Err(error),
    }
}

/// A peer may do what its principal may, as long as its credential speaks for that principal; each
/// of the two binds by itself.
pub proof fn law_peer_acts_for_its_principal(
    identity: AuthenticatedPeerIdentity,
    store: StoreView,
    permission: Permission,
    now_unix_ms: u64,
)
    ensures
        store.spec_principal_for(identity.credential_fingerprint, now_unix_ms) is None
            ==> !identity.spec_authorize(store, permission, now_unix_ms),
        store.spec_principal_for(identity.credential_fingerprint, now_unix_ms) is Some
            && store.spec_principal_for(identity.credential_fingerprint, now_unix_ms)->Some_0
            != identity.principal_id ==> !identity.spec_authorize(store, permission, now_unix_ms),
        !store.spec_authorize(identity.principal_id, permission) ==> !identity.spec_authorize(
            store,
            permission,
            now_unix_ms,
        ),
        store.spec_principal_for(identity.credential_fingerprint, now_unix_ms) == Some(
            identity.principal_id,
        ) ==> identity.spec_authorize(store, permission, now_unix_ms) == store.spec_authorize(
            identity.principal_id,
            permission,
        ),
{
}

/// The first certificate of a chain alone decides whose it is: the others do not matter.
pub proof fn law_leaf_decides(
    chain: Seq<Vec<u8>>,
    other: Seq<Vec<u8>>,
    fingerprint: CredentialFingerprint,
)
    requires
        chain.len() > 0,
        other.len() > 0,
        chain[0]@ == other[0]@,
    ensures
        is_leaf_fingerprint(chain, fingerprint) == is_leaf_fingerprint(other, fingerprint),
        is_leaf_fingerprint(chain, fingerprint) <==> fingerprint.0@
            == crate::digest::sha256_digest(chain[0]@),
{
}

} // verus!
