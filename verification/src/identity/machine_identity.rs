//! A machine's identity in the shape in which it is kept on disk. The private key is not in it.

use crate::bytes::copy_list;
use crate::text::{byte_length, contains_nul};
use vstd::prelude::*;
use vstd::string::StringExecFns;

verus! {

pub const STATE_VERSION: u32 = 1;

pub const MAX_STATE_BYTES: usize = 1_048_576;

pub const MAX_KEY_NAME_BYTES: usize = 512;

pub const MAX_CERTIFICATE_CHAIN_ENTRIES: usize = 8;

pub const MAX_TRUST_ROOTS: usize = 16;

pub const MAX_CERTIFICATE_DER_BYTES: usize = 65_536;

pub const MAX_CERTIFICATE_SET_BYTES: usize = 524_288;

/// A machine's identity: who it is, the name of its protected key, and its certificates.
#[derive(Debug, Clone, PartialEq, Eq)]
pub struct MachineIdentityBundle {
    pub principal_id: [u8; 32],
    pub cng_key_name: String,
    pub certificate_chain_der: Vec<Vec<u8>>,
    pub trust_roots_der: Vec<Vec<u8>>,
    pub not_after_unix_ms: u64,
}

/// Why a kept identity is refused.
#[derive(Debug, Clone, Copy, PartialEq, Eq, Structural)]
pub enum MachineIdentityStateError {
    UnsupportedVersion(u32),
    StateTooLarge { bytes: usize, maximum: usize },
    EmptyKeyName,
    KeyNameTooLong { bytes: usize, maximum: usize },
    InvalidKeyName,
    EmptyCertificateChain,
    MissingExpiry,
    TooManyCertificates { count: usize, maximum: usize },
    TooManyTrustRoots { count: usize, maximum: usize },
    CertificateTooLarge { bytes: usize, maximum: usize },
    CertificateSetTooLarge { bytes: usize, maximum: usize },
}

impl MachineIdentityStateError {
    /// What the error says.
    pub open spec fn spec_message(self) -> Seq<char> {
        match self {
            MachineIdentityStateError::UnsupportedVersion(version) => {
                "unsupported machine identity state version "@
                    + crate::text::decimal(version as nat)
            },
            MachineIdentityStateError::StateTooLarge { bytes, maximum } => {
                "machine identity state is "@ + crate::text::decimal(bytes as nat)
                    + " bytes; maximum is "@ + crate::text::decimal(maximum as nat)
            },
            MachineIdentityStateError::EmptyKeyName => "CNG machine key name must not be empty"@,
            MachineIdentityStateError::KeyNameTooLong { bytes, maximum } => {
                "CNG machine key name is "@ + crate::text::decimal(bytes as nat)
                    + " bytes; maximum is "@ + crate::text::decimal(maximum as nat)
            },
            MachineIdentityStateError::InvalidKeyName => "CNG machine key name contains a NUL"@,
            MachineIdentityStateError::EmptyCertificateChain => {
                "machine certificate chain must not be empty"@
            },
            MachineIdentityStateError::MissingExpiry => {
                "machine certificate expiry must be non-zero"@
            },
            MachineIdentityStateError::TooManyCertificates { count, maximum } => {
                "machine certificate chain has "@ + crate::text::decimal(count as nat)
                    + " entries; maximum is "@ + crate::text::decimal(maximum as nat)
            },
            MachineIdentityStateError::TooManyTrustRoots { count, maximum } => {
                "machine trust store has "@ + crate::text::decimal(count as nat)
                    + " roots; maximum is "@ + crate::text::decimal(maximum as nat)
            },
            MachineIdentityStateError::CertificateTooLarge { bytes, maximum } => "certificate is "@
                + crate::text::decimal(bytes as nat) + " bytes; maximum is "@
                + crate::text::decimal(maximum as nat),
            MachineIdentityStateError::CertificateSetTooLarge { bytes, maximum } => {
                "certificate material is "@ + crate::text::decimal(bytes as nat)
                    + " bytes; maximum is "@ + crate::text::decimal(maximum as nat)
            },
        }
    }

    /// The text for people.
    #[must_use]
    pub fn message(&self) -> (text: String)
        ensures
            text@ == self.spec_message(),
    {
        match self {
            MachineIdentityStateError::UnsupportedVersion(version) => {
                let mut text: String = "unsupported machine identity state version ".to_owned();
                crate::text::push_decimal(&mut text, *version as u64);
                text
            },
            MachineIdentityStateError::StateTooLarge { bytes, maximum } => {
                let mut text: String = "machine identity state is ".to_owned();
                crate::text::push_decimal(&mut text, *bytes as u64);
                text.append(" bytes; maximum is ");
                crate::text::push_decimal(&mut text, *maximum as u64);
                text
            },
            MachineIdentityStateError::EmptyKeyName => {
                "CNG machine key name must not be empty".to_owned()
            },
            MachineIdentityStateError::KeyNameTooLong { bytes, maximum } => {
                let mut text: String = "CNG machine key name is ".to_owned();
                crate::text::push_decimal(&mut text, *bytes as u64);
                text.append(" bytes; maximum is ");
                crate::text::push_decimal(&mut text, *maximum as u64);
                text
            },
            MachineIdentityStateError::InvalidKeyName => {
                "CNG machine key name contains a NUL".to_owned()
            },
            MachineIdentityStateError::EmptyCertificateChain => {
                "machine certificate chain must not be empty".to_owned()
            },
            MachineIdentityStateError::MissingExpiry => {
                "machine certificate expiry must be non-zero".to_owned()
            },
            MachineIdentityStateError::TooManyCertificates { count, maximum } => {
                let mut text: String = "machine certificate chain has ".to_owned();
                crate::text::push_decimal(&mut text, *count as u64);
                text.append(" entries; maximum is ");
                crate::text::push_decimal(&mut text, *maximum as u64);
                text
            },
            MachineIdentityStateError::TooManyTrustRoots { count, maximum } => {
                let mut text: String = "machine trust store has ".to_owned();
                crate::text::push_decimal(&mut text, *count as u64);
                text.append(" roots; maximum is ");
                crate::text::push_decimal(&mut text, *maximum as u64);
                text
            },
            MachineIdentityStateError::CertificateTooLarge { bytes, maximum } => {
                let mut text: String = "certificate is ".to_owned();
                crate::text::push_decimal(&mut text, *bytes as u64);
                text.append(" bytes; maximum is ");
                crate::text::push_decimal(&mut text, *maximum as u64);
                text
            },
            MachineIdentityStateError::CertificateSetTooLarge { bytes, maximum } => {
                let mut text: String = "certificate material is ".to_owned();
                crate::text::push_decimal(&mut text, *bytes as u64);
                text.append(" bytes; maximum is ");
                crate::text::push_decimal(&mut text, *maximum as u64);
                text
            },
        }
    }
}

/// Refuses a state of more than one mebibyte.
pub fn check_state_size(bytes: usize) -> (result: Result<(), MachineIdentityStateError>)
    ensures
        result == if bytes > MAX_STATE_BYTES {
            Err::<(), MachineIdentityStateError>(
                MachineIdentityStateError::StateTooLarge { bytes, maximum: MAX_STATE_BYTES },
            )
        } else {
            Ok(())
        },
{
    if bytes > MAX_STATE_BYTES {
        return Err(MachineIdentityStateError::StateTooLarge { bytes, maximum: MAX_STATE_BYTES });
    }
    Ok(())
}

/// Counts certificates from the one at `from` on, on top of `total` bytes: the number of bytes
/// in all, or the first limit that is passed.
pub open spec fn spec_count(
    certificates: Seq<Vec<u8>>,
    from: int,
    total: int,
) -> Result<int, MachineIdentityStateError>
    decreases certificates.len() - from,
{
    if from < 0 || from >= certificates.len() {
        Ok(total)
    } else {
        let bytes = certificates[from]@.len();
        if bytes > MAX_CERTIFICATE_DER_BYTES {
            Err(
                MachineIdentityStateError::CertificateTooLarge {
                    bytes: bytes as usize,
                    maximum: MAX_CERTIFICATE_DER_BYTES,
                },
            )
        } else if total + bytes > MAX_CERTIFICATE_SET_BYTES {
            Err(
                MachineIdentityStateError::CertificateSetTooLarge {
                    bytes: (total + bytes) as usize,
                    maximum: MAX_CERTIFICATE_SET_BYTES,
                },
            )
        } else {
            spec_count(certificates, from + 1, total + bytes)
        }
    }
}

impl MachineIdentityBundle {
    /// The first rule that the identity breaks, in the order in which they are tested.
    pub open spec fn spec_validate(self) -> Result<(), MachineIdentityStateError> {
        let name = self.cng_key_name@;
        let chain = self.certificate_chain_der@;
        let roots = self.trust_roots_der@;
        if name.len() == 0 {
            Err(MachineIdentityStateError::EmptyKeyName)
        } else if crate::text::byte_len(name) > MAX_KEY_NAME_BYTES {
            Err(
                MachineIdentityStateError::KeyNameTooLong {
                    bytes: crate::text::byte_len(name) as usize,
                    maximum: MAX_KEY_NAME_BYTES,
                },
            )
        } else if name.contains('\0') {
            Err(MachineIdentityStateError::InvalidKeyName)
        } else if chain.len() == 0 {
            Err(MachineIdentityStateError::EmptyCertificateChain)
        } else if self.not_after_unix_ms == 0 {
            Err(MachineIdentityStateError::MissingExpiry)
        } else if chain.len() > MAX_CERTIFICATE_CHAIN_ENTRIES {
            Err(
                MachineIdentityStateError::TooManyCertificates {
                    count: chain.len() as usize,
                    maximum: MAX_CERTIFICATE_CHAIN_ENTRIES,
                },
            )
        } else if roots.len() > MAX_TRUST_ROOTS {
            Err(
                MachineIdentityStateError::TooManyTrustRoots {
                    count: roots.len() as usize,
                    maximum: MAX_TRUST_ROOTS,
                },
            )
        } else {
            match spec_count(chain, 0, 0) {
                Ok(total) => match spec_count(roots, 0, total) {
                    Ok(_) => Ok(()),
                    Err(error) => Err(error),
                },
                Err(error) => Err(error),
            }
        }
    }
}

/// Counts certificates on top of `total` bytes, and stops at the first limit that is passed.
fn count(certificates: &Vec<Vec<u8>>, total: usize) -> (result: Result<
    usize,
    MachineIdentityStateError,
>)
    requires
        total <= MAX_CERTIFICATE_SET_BYTES,
    ensures
        match result {
            Ok(sum) => sum <= MAX_CERTIFICATE_SET_BYTES && spec_count(
                certificates@,
                0,
                total as int,
            ) == Ok::<int, MachineIdentityStateError>(sum as int),
            Err(error) => spec_count(certificates@, 0, total as int) == Err::<
                int,
                MachineIdentityStateError,
            >(error),
        },
{
    let mut sum: usize = total;
    let mut i: usize = 0;
    while i < certificates.len()
        invariant
            i <= certificates@.len(),
            sum <= MAX_CERTIFICATE_SET_BYTES,
            spec_count(certificates@, i as int, sum as int) == spec_count(
                certificates@,
                0,
                total as int,
            ),
        decreases certificates@.len() - i,
    {
        let bytes: usize = certificates[i].len();
        if bytes > MAX_CERTIFICATE_DER_BYTES {
            return Err(
                MachineIdentityStateError::CertificateTooLarge {
                    bytes,
                    maximum: MAX_CERTIFICATE_DER_BYTES,
                },
            );
        }
        sum += bytes;
        if sum > MAX_CERTIFICATE_SET_BYTES {
            return Err(
                MachineIdentityStateError::CertificateSetTooLarge {
                    bytes: sum,
                    maximum: MAX_CERTIFICATE_SET_BYTES,
                },
            );
        }
        i += 1;
    }
    Ok(sum)
}

/// Holds an identity to the limits of what is kept.
pub fn validate_bundle(bundle: &MachineIdentityBundle) -> (result: Result<
    (),
    MachineIdentityStateError,
>)
    ensures
        result == bundle.spec_validate(),
{
    let name = bundle.cng_key_name.as_str();
    if name.unicode_len() == 0 {
        return Err(MachineIdentityStateError::EmptyKeyName);
    }
    let bytes: usize = byte_length(name);
    if bytes > MAX_KEY_NAME_BYTES {
        return Err(
            MachineIdentityStateError::KeyNameTooLong { bytes, maximum: MAX_KEY_NAME_BYTES },
        );
    }
    if contains_nul(name) {
        return Err(MachineIdentityStateError::InvalidKeyName);
    }
    let certificates: usize = bundle.certificate_chain_der.len();
    let roots: usize = bundle.trust_roots_der.len();
    if certificates == 0 {
        return Err(MachineIdentityStateError::EmptyCertificateChain);
    }
    if bundle.not_after_unix_ms == 0 {
        return Err(MachineIdentityStateError::MissingExpiry);
    }
    if certificates > MAX_CERTIFICATE_CHAIN_ENTRIES {
        return Err(
            MachineIdentityStateError::TooManyCertificates {
                count: certificates,
                maximum: MAX_CERTIFICATE_CHAIN_ENTRIES,
            },
        );
    }
    if roots > MAX_TRUST_ROOTS {
        return Err(
            MachineIdentityStateError::TooManyTrustRoots {
                count: roots,
                maximum: MAX_TRUST_ROOTS,
            },
        );
    }
    match count(&bundle.certificate_chain_der, 0) {
        Ok(total) => match count(&bundle.trust_roots_der, total) {
            Ok(_) => Ok(()),
            Err(error) => Err(error),
        },
        Err(error) => Err(error),
    }
}

/// An identity as it is written to disk.
#[derive(Debug, Clone, PartialEq, Eq)]
pub struct PersistedMachineIdentity {
    pub version: u32,
    pub principal_id: [u8; 32],
    pub cng_key_name: String,
    pub certificate_chain_der: Vec<Vec<u8>>,
    pub trust_roots_der: Vec<Vec<u8>>,
    pub not_after_unix_ms: u64,
}

impl PersistedMachineIdentity {
    /// The identity that is written down.
    pub open spec fn spec_bundle(self) -> MachineIdentityBundle {
        MachineIdentityBundle {
            principal_id: self.principal_id,
            cng_key_name: self.cng_key_name,
            certificate_chain_der: self.certificate_chain_der,
            trust_roots_der: self.trust_roots_der,
            not_after_unix_ms: self.not_after_unix_ms,
        }
    }

    /// The identity that is read back, or why it is refused.
    pub open spec fn spec_into_bundle(self) -> Result<
        MachineIdentityBundle,
        MachineIdentityStateError,
    > {
        if self.version != STATE_VERSION {
            Err(MachineIdentityStateError::UnsupportedVersion(self.version))
        } else {
            match self.spec_bundle().spec_validate() {
                Ok(()) => Ok(self.spec_bundle()),
                Err(error) => Err(error),
            }
        }
    }

    /// Writes an identity down.
    #[must_use]
    pub fn from_bundle(bundle: &MachineIdentityBundle) -> (persisted: Self)
        ensures
            persisted.version == STATE_VERSION,
            same_identity(persisted.spec_bundle(), *bundle),
    {
        PersistedMachineIdentity {
            version: STATE_VERSION,
            principal_id: bundle.principal_id,
            cng_key_name: bundle.cng_key_name.clone(),
            certificate_chain_der: copy_list(&bundle.certificate_chain_der),
            trust_roots_der: copy_list(&bundle.trust_roots_der),
            not_after_unix_ms: bundle.not_after_unix_ms,
        }
    }

    /// Reads an identity back.
    pub fn into_bundle(self) -> (result: Result<MachineIdentityBundle, MachineIdentityStateError>)
        ensures
            result == self.spec_into_bundle(),
    {
        if self.version != STATE_VERSION {
            return Err(MachineIdentityStateError::UnsupportedVersion(self.version));
        }
        let bundle = MachineIdentityBundle {
            principal_id: self.principal_id,
            cng_key_name: self.cng_key_name,
            certificate_chain_der: self.certificate_chain_der,
            trust_roots_der: self.trust_roots_der,
            not_after_unix_ms: self.not_after_unix_ms,
        };
        match validate_bundle(&bundle) {
            Ok(()) => Ok(bundle),
            Err(error) => Err(error),
        }
    }
}

/// Checks an identity and writes it down.
pub fn prepare_bundle(bundle: &MachineIdentityBundle) -> (result: Result<
    PersistedMachineIdentity,
    MachineIdentityStateError,
>)
    ensures
        match result {
            Ok(persisted) => {
                &&& bundle.spec_validate() is Ok
                &&& persisted.version == STATE_VERSION
                &&& same_identity(persisted.spec_bundle(), *bundle)
            },
            Err(error) => bundle.spec_validate() == Err::<(), MachineIdentityStateError>(error),
        },
{
    match validate_bundle(bundle) {
        Ok(()) => Ok(PersistedMachineIdentity::from_bundle(bundle)),
        Err(error) => Err(error),
    }
}

/// Two identities say the same.
pub open spec fn same_identity(a: MachineIdentityBundle, b: MachineIdentityBundle) -> bool {
    &&& a.principal_id == b.principal_id
    &&& a.cng_key_name@ == b.cng_key_name@
    &&& crate::bytes::same_contents(a.certificate_chain_der@, b.certificate_chain_der@)
    &&& crate::bytes::same_contents(a.trust_roots_der@, b.trust_roots_der@)
    &&& a.not_after_unix_ms == b.not_after_unix_ms
}

proof fn lemma_same_count(a: Seq<Vec<u8>>, b: Seq<Vec<u8>>, from: int, total: int)
    requires
        crate::bytes::same_contents(a, b),
        0 <= from,
    ensures
        spec_count(a, from, total) == spec_count(b, from, total),
    decreases a.len() - from,
{
    if from < a.len() {
        assert(a[from]@ == b[from]@);
        lemma_same_count(a, b, from + 1, total + a[from]@.len());
    }
}

/// An identity that is kept is read back as it was: what passes the rules on the way out passes
/// them on the way in.
pub proof fn law_identity_is_read_back(
    bundle: MachineIdentityBundle,
    persisted: PersistedMachineIdentity,
)
    requires
        bundle.spec_validate() is Ok,
        persisted.version == STATE_VERSION,
        same_identity(persisted.spec_bundle(), bundle),
    ensures
        persisted.spec_into_bundle() is Ok,
        same_identity(persisted.spec_into_bundle()->Ok_0, bundle),
{
    let read = persisted.spec_bundle();
    lemma_same_count(read.certificate_chain_der@, bundle.certificate_chain_der@, 0, 0);
    match spec_count(bundle.certificate_chain_der@, 0, 0) {
        Ok(total) => {
            lemma_same_count(read.trust_roots_der@, bundle.trust_roots_der@, 0, total);
        },
        Err(_) => {},
    }
}

proof fn lemma_counted_bytes(certificates: Seq<Vec<u8>>, from: int, total: int)
    requires
        0 <= from <= certificates.len(),
    ensures
        ({
            let before = crate::control::enrollment_result::chain_bytes(certificates.take(from));
            let all = crate::control::enrollment_result::chain_bytes(certificates);
            let result = spec_count(certificates, from, total + before);
            &&& before <= all
            &&& result is Ok <==> (forall|i: int|
                from <= i < certificates.len() ==> (#[trigger] certificates[i])@.len() <= 65_536)
                && (from < certificates.len() ==> total + all <= 524_288)
            &&& result is Ok ==> result->Ok_0 == total + all
        }),
    decreases certificates.len() - from,
{
    assert(certificates.take(certificates.len() as int) =~= certificates);
    if from < certificates.len() {
        lemma_counted_bytes(certificates, from + 1, total);
        let next = certificates.take(from + 1);
        assert(next.drop_last() =~= certificates.take(from));
    }
}

/// A bundle is sound if and only if it has a name of at most 512 bytes for its key, one to eight
/// certificates, at most 16 roots and an expiry, no certificate that is too large and not too many
/// bytes of them in all. Each of these binds by itself.
pub proof fn law_sound_bundles(bundle: MachineIdentityBundle)
    ensures
        bundle.spec_validate() is Ok <==> {
            let name = bundle.cng_key_name@;
            let chain = bundle.certificate_chain_der@;
            let roots = bundle.trust_roots_der@;
            &&& name.len() > 0 && !name.contains('\0') && vstd::utf8::encode_utf8(name).len() <= 512
            &&& 1 <= chain.len() <= 8
            &&& roots.len() <= 16
            &&& bundle.not_after_unix_ms != 0
            &&& forall|i: int| 0 <= i < chain.len() ==> (#[trigger] chain[i])@.len() <= 65_536
            &&& forall|i: int| 0 <= i < roots.len() ==> (#[trigger] roots[i])@.len() <= 65_536
            &&& crate::control::enrollment_result::chain_bytes(chain)
                + crate::control::enrollment_result::chain_bytes(roots) <= 524_288
        },
{
    let chain = bundle.certificate_chain_der@;
    let roots = bundle.trust_roots_der@;
    lemma_counted_bytes(chain, 0, 0);
    assert(chain.take(0) =~= Seq::empty());
    lemma_counted_bytes(
        roots,
        0,
        crate::control::enrollment_result::chain_bytes(chain) as int,
    );
    assert(roots.take(0) =~= Seq::empty());
}

/// An identity of another version is not read, and one of this version comes out as it was kept.
pub proof fn law_kept_identities_are_read(kept: PersistedMachineIdentity)
    ensures
        kept.version != 1 ==> kept.spec_into_bundle() == Err::<MachineIdentityBundle, _>(
            MachineIdentityStateError::UnsupportedVersion(kept.version),
        ),
        kept.version == 1 && kept.spec_bundle().spec_validate() is Ok ==> {
            &&& kept.spec_into_bundle() is Ok
            &&& kept.spec_into_bundle()->Ok_0.principal_id == kept.principal_id
            &&& kept.spec_into_bundle()->Ok_0.cng_key_name == kept.cng_key_name
            &&& kept.spec_into_bundle()->Ok_0.certificate_chain_der == kept.certificate_chain_der
            &&& kept.spec_into_bundle()->Ok_0.trust_roots_der == kept.trust_roots_der
            &&& kept.spec_into_bundle()->Ok_0.not_after_unix_ms == kept.not_after_unix_ms
        },
        kept.version == 1 && kept.spec_bundle().spec_validate() is Err ==> kept.spec_into_bundle()
            is Err,
{
}

/// The fault of a bundle is named, the first of them where there are several.
pub proof fn law_bundle_faults_are_named(bundle: MachineIdentityBundle)
    ensures
        ({
            let result = bundle.spec_validate();
            let name = bundle.cng_key_name@;
            let long = vstd::utf8::encode_utf8(name).len() > 512;
            let named = name.len() > 0 && !long && !name.contains('\0');
            let chain = bundle.certificate_chain_der@;
            let roots = bundle.trust_roots_der@;
            let dated = bundle.not_after_unix_ms != 0;
            &&& name.len() == 0 ==> result == Err::<(), _>(MachineIdentityStateError::EmptyKeyName)
            &&& name.len() > 0 && long ==> result is Err && result->Err_0 is KeyNameTooLong
            &&& name.len() > 0 && !long && name.contains('\0') ==> result == Err::<(), _>(
                MachineIdentityStateError::InvalidKeyName,
            )
            &&& named && chain.len() == 0 ==> result == Err::<(), _>(
                MachineIdentityStateError::EmptyCertificateChain,
            )
            &&& named && chain.len() > 0 && !dated ==> result == Err::<(), _>(
                MachineIdentityStateError::MissingExpiry,
            )
            &&& named && chain.len() > 8 && dated ==> result is Err && result->Err_0
                is TooManyCertificates
            &&& named && 1 <= chain.len() <= 8 && dated && roots.len() > 16 ==> result is Err
                && result->Err_0 is TooManyTrustRoots
        }),
{
}

} // verus!
