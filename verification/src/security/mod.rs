//! Principals, their credentials and permissions, enrollment and replay protection.

use crate::bytes::{bytes_equal, bytes_precede};
use crate::ordered::{OrderedKey, OrderedMap, OrderedSet};
use std::collections::VecDeque;
use vstd::prelude::*;
use vstd::string::StringExecFns;

pub mod group_media;
pub mod group_media_coordinator;
pub mod persistence;

verus! {

/// Who somebody is, whatever credentials they use.
#[derive(Debug, Clone, Copy, Eq, PartialOrd, Ord, Hash)]
pub struct PrincipalId(pub [u8; 32]);

impl PartialEq for PrincipalId {
    fn eq(&self, other: &Self) -> (same: bool) {
        let same = bytes_equal(self.0.as_slice(), other.0.as_slice());
        proof {
            if same {
                assert(self.0 =~= other.0);
            }
        }
        same
    }
}

impl vstd::std_specs::cmp::PartialEqSpecImpl for PrincipalId {
    open spec fn obeys_eq_spec() -> bool {
        true
    }

    open spec fn eq_spec(&self, other: &Self) -> bool {
        *self == *other
    }
}

impl OrderedKey for PrincipalId {
    open spec fn rank(self) -> int {
        crate::bytes::be_value(self.0@) as int
    }

    proof fn lemma_rank_injective(a: Self, b: Self) {
        crate::bytes::lemma_be_value_injective(a.0@, b.0@);
        assert(a.0 =~= b.0);
    }

    fn precedes(&self, other: &Self) -> (before: bool) {
        bytes_precede(self.0.as_slice(), other.0.as_slice())
    }
}

impl PrincipalId {
    /// The principal as it is written for developers.
    pub open spec fn spec_debug(self) -> Seq<char> {
        "PrincipalId(["@ + crate::text::byte_list(self.0@) + "])"@
    }

    /// Appends the principal as it is written for developers.
    pub fn push_debug(&self, text: &mut String)
        ensures
            final(text)@ == old(text)@ + self.spec_debug(),
    {
        text.append("PrincipalId([");
        crate::text::push_byte_list(text, self.0.as_slice());
        text.append("])");
        proof {
            assert(text@ =~= old(text)@ + self.spec_debug());
        }
    }
}

/// The digest by which a credential is known.
#[derive(Debug, Clone, Copy, Eq, PartialOrd, Ord, Hash)]
pub struct CredentialFingerprint(pub [u8; 32]);

impl PartialEq for CredentialFingerprint {
    fn eq(&self, other: &Self) -> (same: bool) {
        let same = bytes_equal(self.0.as_slice(), other.0.as_slice());
        proof {
            if same {
                assert(self.0 =~= other.0);
            }
        }
        same
    }
}

impl vstd::std_specs::cmp::PartialEqSpecImpl for CredentialFingerprint {
    open spec fn obeys_eq_spec() -> bool {
        true
    }

    open spec fn eq_spec(&self, other: &Self) -> bool {
        *self == *other
    }
}

impl CredentialFingerprint {
    /// The digest as it is written for developers.
    pub open spec fn spec_debug(self) -> Seq<char> {
        "CredentialFingerprint(["@ + crate::text::byte_list(self.0@) + "])"@
    }

    /// Appends the digest as it is written for developers.
    pub fn push_debug(&self, text: &mut String)
        ensures
            final(text)@ == old(text)@ + self.spec_debug(),
    {
        text.append("CredentialFingerprint([");
        crate::text::push_byte_list(text, self.0.as_slice());
        text.append("])");
        proof {
            assert(text@ =~= old(text)@ + self.spec_debug());
        }
    }
}

impl OrderedKey for CredentialFingerprint {
    open spec fn rank(self) -> int {
        crate::bytes::be_value(self.0@) as int
    }

    proof fn lemma_rank_injective(a: Self, b: Self) {
        crate::bytes::lemma_be_value_injective(a.0@, b.0@);
        assert(a.0 =~= b.0);
    }

    fn precedes(&self, other: &Self) -> (before: bool) {
        bytes_precede(self.0.as_slice(), other.0.as_slice())
    }
}

#[derive(Debug, Clone, Copy, PartialEq, Eq, Structural)]
pub enum PrincipalKind {
    Teacher,
    StudentDevice,
    Administrator,
    Service,
    SessionWorker,
}

#[derive(Debug, Clone, Copy, PartialEq, Eq, PartialOrd, Ord, Structural)]
pub enum Permission {
    ViewMonitoring,
    ViewInteractive,
    ControlInput,
    StartPresentation,
    ReceivePresentation,
    SendFile,
    ReceiveFile,
    LockDevice,
    RestartDevice,
    ShutdownDevice,
    ManageEnrollment,
    ManagePolicy,
    ReadClipboard,
    WriteClipboard,
}

impl Permission {
    /// The permission's place in the order of their declaration, from one on.
    pub open spec fn spec_number(self) -> u8 {
        match self {
            Permission::ViewMonitoring => 1,
            Permission::ViewInteractive => 2,
            Permission::ControlInput => 3,
            Permission::StartPresentation => 4,
            Permission::ReceivePresentation => 5,
            Permission::SendFile => 6,
            Permission::ReceiveFile => 7,
            Permission::LockDevice => 8,
            Permission::RestartDevice => 9,
            Permission::ShutdownDevice => 10,
            Permission::ManageEnrollment => 11,
            Permission::ManagePolicy => 12,
            Permission::ReadClipboard => 13,
            Permission::WriteClipboard => 14,
        }
    }

    /// The permission's number.
    #[must_use]
    pub fn number(self) -> (number: u8)
        ensures
            number == self.spec_number(),
    {
        match self {
            Permission::ViewMonitoring => 1,
            Permission::ViewInteractive => 2,
            Permission::ControlInput => 3,
            Permission::StartPresentation => 4,
            Permission::ReceivePresentation => 5,
            Permission::SendFile => 6,
            Permission::ReceiveFile => 7,
            Permission::LockDevice => 8,
            Permission::RestartDevice => 9,
            Permission::ShutdownDevice => 10,
            Permission::ManageEnrollment => 11,
            Permission::ManagePolicy => 12,
            Permission::ReadClipboard => 13,
            Permission::WriteClipboard => 14,
        }
    }
}

impl Permission {
    /// The value as it is written for developers.
    pub open spec fn spec_debug(self) -> Seq<char> {
        match self {
            Permission::ViewMonitoring => "ViewMonitoring"@,
            Permission::ViewInteractive => "ViewInteractive"@,
            Permission::ControlInput => "ControlInput"@,
            Permission::StartPresentation => "StartPresentation"@,
            Permission::ReceivePresentation => "ReceivePresentation"@,
            Permission::SendFile => "SendFile"@,
            Permission::ReceiveFile => "ReceiveFile"@,
            Permission::LockDevice => "LockDevice"@,
            Permission::RestartDevice => "RestartDevice"@,
            Permission::ShutdownDevice => "ShutdownDevice"@,
            Permission::ManageEnrollment => "ManageEnrollment"@,
            Permission::ManagePolicy => "ManagePolicy"@,
            Permission::ReadClipboard => "ReadClipboard"@,
            Permission::WriteClipboard => "WriteClipboard"@,
        }
    }

    /// Appends the value as it is written for developers.
    pub fn push_debug(&self, text: &mut String)
        ensures
            final(text)@ == old(text)@ + self.spec_debug(),
    {
        match self {
            Permission::ViewMonitoring => text.append("ViewMonitoring"),
            Permission::ViewInteractive => text.append("ViewInteractive"),
            Permission::ControlInput => text.append("ControlInput"),
            Permission::StartPresentation => text.append("StartPresentation"),
            Permission::ReceivePresentation => text.append("ReceivePresentation"),
            Permission::SendFile => text.append("SendFile"),
            Permission::ReceiveFile => text.append("ReceiveFile"),
            Permission::LockDevice => text.append("LockDevice"),
            Permission::RestartDevice => text.append("RestartDevice"),
            Permission::ShutdownDevice => text.append("ShutdownDevice"),
            Permission::ManageEnrollment => text.append("ManageEnrollment"),
            Permission::ManagePolicy => text.append("ManagePolicy"),
            Permission::ReadClipboard => text.append("ReadClipboard"),
            Permission::WriteClipboard => text.append("WriteClipboard"),
        }
    }
}

impl OrderedKey for Permission {
    open spec fn rank(self) -> int {
        self.spec_number() as int
    }

    proof fn lemma_rank_injective(a: Self, b: Self) {
    }

    fn precedes(&self, other: &Self) -> (before: bool) {
        self.number() < other.number()
    }
}

#[derive(Debug, Clone, Copy, PartialEq, Eq, Structural)]
pub enum CredentialState {
    Active,
    Retiring,
    Revoked,
}

/// A credential and how long it is good.
#[derive(Debug, Clone, Copy, PartialEq, Eq)]
pub struct CredentialRecord {
    pub fingerprint: CredentialFingerprint,
    pub state: CredentialState,
    pub issued_at_unix_ms: u64,
    pub expires_at_unix_ms: Option<u64>,
    pub revoked_at_unix_ms: Option<u64>,
}

impl CredentialRecord {
    #[must_use]
    pub fn active(fingerprint: CredentialFingerprint, issued_at_unix_ms: u64) -> (record: Self)
        ensures
            record == (CredentialRecord {
                fingerprint,
                state: CredentialState::Active,
                issued_at_unix_ms,
                expires_at_unix_ms: None,
                revoked_at_unix_ms: None,
            }),
    {
        CredentialRecord {
            fingerprint,
            state: CredentialState::Active,
            issued_at_unix_ms,
            expires_at_unix_ms: None,
            revoked_at_unix_ms: None,
        }
    }

    /// The credential was issued, and is neither revoked nor expired.
    pub open spec fn spec_is_accepted_at(self, now_unix_ms: u64) -> bool {
        &&& self.issued_at_unix_ms <= now_unix_ms
        &&& self.state != CredentialState::Revoked
        &&& (self.revoked_at_unix_ms matches Some(revoked_at) ==> now_unix_ms < revoked_at)
        &&& (self.expires_at_unix_ms matches Some(expires_at) ==> now_unix_ms < expires_at)
    }

    #[must_use]
    pub fn is_accepted_at(&self, now_unix_ms: u64) -> (accepted: bool)
        ensures
            accepted == self.spec_is_accepted_at(now_unix_ms),
    {
        if self.issued_at_unix_ms > now_unix_ms {
            return false;
        }
        if self.state == CredentialState::Revoked {
            return false;
        }
        match self.revoked_at_unix_ms {
            Some(revoked_at) => {
                if revoked_at <= now_unix_ms {
                    return false;
                }
            },
            None => {},
        }
        match self.expires_at_unix_ms {
            Some(expires_at) => {
                if expires_at <= now_unix_ms {
                    return false;
                }
            },
            None => {},
        }
        true
    }

    /// The credential after it was superseded.
    pub open spec fn spec_retiring(self) -> Self {
        CredentialRecord {
            state: if self.state == CredentialState::Active {
                CredentialState::Retiring
            } else {
                self.state
            },
            ..self
        }
    }

    pub fn mark_retiring(&mut self)
        ensures
            *final(self) == old(self).spec_retiring(),
    {
        if self.state == CredentialState::Active {
            self.state = CredentialState::Retiring;
        }
    }

    /// The credential after it was revoked.
    pub open spec fn spec_revoked(self, now_unix_ms: u64) -> Self {
        CredentialRecord {
            state: CredentialState::Revoked,
            revoked_at_unix_ms: Some(now_unix_ms),
            ..self
        }
    }

    pub fn revoke(&mut self, now_unix_ms: u64)
        ensures
            *final(self) == old(self).spec_revoked(now_unix_ms),
    {
        self.state = CredentialState::Revoked;
        self.revoked_at_unix_ms = Some(now_unix_ms);
    }

    /// The credential that is superseded, and good until `until` at the latest.
    pub open spec fn spec_rotated_out(self, until: u64) -> Self {
        CredentialRecord {
            expires_at_unix_ms: Some(
                match self.expires_at_unix_ms {
                    Some(current) => if current < until {
                        current
                    } else {
                        until
                    },
                    None => until,
                },
            ),
            ..self.spec_retiring()
        }
    }
}

/// A revoked credential is never accepted again.
pub proof fn law_revoked_credential_is_refused(
    record: CredentialRecord,
    revoked_at: u64,
    now_unix_ms: u64,
)
    ensures
        !record.spec_revoked(revoked_at).spec_is_accepted_at(now_unix_ms),
{
}

#[derive(Debug, Clone, Copy, PartialEq, Eq, Structural)]
pub enum CredentialMutationError {
    DuplicateCredential,
    CredentialNotFound,
    ReplacementMustBeActive,
    InvalidRotationOverlapDeadline,
}

/// Somebody, what they may do and the credentials that they use.
#[derive(Debug, Clone, PartialEq, Eq)]
pub struct Principal {
    pub id: PrincipalId,
    pub kind: PrincipalKind,
    pub enabled: bool,
    pub permissions: OrderedSet<Permission>,
    pub credentials: OrderedMap<CredentialFingerprint, CredentialRecord>,
}

/// A principal as a value.
#[verifier::ext_equal]
pub struct PrincipalView {
    pub id: PrincipalId,
    pub kind: PrincipalKind,
    pub enabled: bool,
    pub permissions: Set<Permission>,
    pub credentials: Map<CredentialFingerprint, CredentialRecord>,
}

impl View for Principal {
    type V = PrincipalView;

    open spec fn view(&self) -> PrincipalView {
        PrincipalView {
            id: self.id,
            kind: self.kind,
            enabled: self.enabled,
            permissions: self.permissions@,
            credentials: self.credentials@,
        }
    }
}

impl PrincipalView {
    pub open spec fn spec_allows(self, permission: Permission) -> bool {
        self.enabled && self.permissions.contains(permission)
    }

    pub open spec fn spec_accepts(self, fingerprint: CredentialFingerprint, now: u64) -> bool {
        self.enabled && self.credentials.contains_key(fingerprint)
            && self.credentials[fingerprint].spec_is_accepted_at(now)
    }

    /// Whether the credentials can be rotated, and why not.
    pub open spec fn spec_can_rotate(self, replacement: CredentialRecord, until: u64) -> Result<
        (),
        CredentialMutationError,
    > {
        if until <= replacement.issued_at_unix_ms {
            Err(CredentialMutationError::InvalidRotationOverlapDeadline)
        } else if replacement.state != CredentialState::Active {
            Err(CredentialMutationError::ReplacementMustBeActive)
        } else if self.credentials.contains_key(replacement.fingerprint) {
            Err(CredentialMutationError::DuplicateCredential)
        } else {
            Ok(())
        }
    }

    /// The principal after a rotation: every credential so far is superseded.
    pub open spec fn spec_rotated(self, replacement: CredentialRecord, until: u64) -> Self {
        PrincipalView {
            credentials: Map::new(
                |f: CredentialFingerprint| self.credentials.contains_key(f),
                |f: CredentialFingerprint| self.credentials[f].spec_rotated_out(until),
            ).insert(replacement.fingerprint, replacement),
            ..self
        }
    }
}

/// After a rotation no earlier credential is accepted once the overlap has ended, and what
/// was not accepted before is not accepted through it.
pub proof fn law_rotation_bounds_overlap(
    principal: PrincipalView,
    replacement: CredentialRecord,
    until: u64,
    earlier: CredentialFingerprint,
    now_unix_ms: u64,
)
    requires
        principal.spec_can_rotate(replacement, until) is Ok,
        principal.credentials.contains_key(earlier),
    ensures
        principal.spec_rotated(replacement, until).id == principal.id,
        now_unix_ms >= until ==> !principal.spec_rotated(replacement, until).spec_accepts(
            earlier,
            now_unix_ms,
        ),
        principal.spec_rotated(replacement, until).spec_accepts(earlier, now_unix_ms)
            ==> principal.spec_accepts(earlier, now_unix_ms),
        now_unix_ms < until && principal.spec_accepts(earlier, now_unix_ms)
            ==> principal.spec_rotated(replacement, until).spec_accepts(earlier, now_unix_ms),
{
}

impl Principal {
    /// The permissions and the credentials are kept in order.
    pub open spec fn wf(self) -> bool {
        self.permissions.wf() && self.credentials.wf()
    }

    #[must_use]
    pub fn allows(&self, permission: Permission) -> (allowed: bool)
        requires
            self.wf(),
        ensures
            allowed == self@.spec_allows(permission),
    {
        self.enabled && self.permissions.contains(&permission)
    }

    #[must_use]
    pub fn accepts_credential(&self, fingerprint: CredentialFingerprint, now_unix_ms: u64) -> (
    accepted: bool)
        requires
            self.wf(),
        ensures
            accepted == self@.spec_accepts(fingerprint, now_unix_ms),
    {
        self.enabled && match self.credentials.get(&fingerprint) {
            Some(credential) => credential.is_accepted_at(now_unix_ms),
            None => false,
        }
    }

    pub fn add_credential(&mut self, credential: CredentialRecord) -> (result: Result<
        (),
        CredentialMutationError,
    >)
        requires
            old(self).wf(),
        ensures
            final(self).wf(),
            match result {
                Ok(()) => !old(self)@.credentials.contains_key(credential.fingerprint)
                    && final(self)@ == (PrincipalView {
                    credentials: old(self)@.credentials.insert(credential.fingerprint, credential),
                    ..old(self)@
                }),
                Err(error) => error == CredentialMutationError::DuplicateCredential && old(
                    self,
                )@.credentials.contains_key(credential.fingerprint) && *final(self) == *old(self),
            },
    {
        if self.credentials.contains_key(&credential.fingerprint) {
            return Err(CredentialMutationError::DuplicateCredential);
        }
        let _none = self.credentials.insert(credential.fingerprint, credential);
        Ok(())
    }

    /// Adds a replacement credential and bounds the overlap of all previous credentials.
    ///
    /// Existing credentials become retiring and may authenticate only until the earlier of
    /// their current expiry or `overlap_until_unix_ms`. The overlap deadline must be later
    /// than the replacement credential's issue time.
    pub fn rotate_to_bounded(
        &mut self,
        replacement: CredentialRecord,
        overlap_until_unix_ms: u64,
    ) -> (result: Result<(), CredentialMutationError>)
        requires
            old(self).wf(),
        ensures
            final(self).wf(),
            result == old(self)@.spec_can_rotate(replacement, overlap_until_unix_ms),
            final(self)@ == if result is Ok {
                old(self)@.spec_rotated(replacement, overlap_until_unix_ms)
            } else {
                old(self)@
            },
    {
        if overlap_until_unix_ms <= replacement.issued_at_unix_ms {
            return Err(CredentialMutationError::InvalidRotationOverlapDeadline);
        }
        if replacement.state != CredentialState::Active {
            return Err(CredentialMutationError::ReplacementMustBeActive);
        }
        if self.credentials.contains_key(&replacement.fingerprint) {
            return Err(CredentialMutationError::DuplicateCredential);
        }
        let ghost before = self.credentials.spec_entries();
        let mut i: usize = 0;
        while i < self.credentials.len()
            invariant
                self.credentials.wf(),
                self.permissions == old(self).permissions,
                self.id == old(self).id,
                self.kind == old(self).kind,
                self.enabled == old(self).enabled,
                i <= before.len() == self.credentials.spec_entries().len(),
                forall|j: int|
                    0 <= j < before.len() ==> #[trigger] self.credentials.spec_entries()[j] == if j
                        < i {
                        (before[j].0, before[j].1.spec_rotated_out(overlap_until_unix_ms))
                    } else {
                        before[j]
                    },
            decreases before.len() - i,
        {
            let ghost entries = self.credentials.spec_entries();
            assert(entries[i as int] == before[i as int]);
            let credential = self.credentials.value_at_mut(i);
            credential.mark_retiring();
            credential.expires_at_unix_ms = Some(
                match credential.expires_at_unix_ms {
                    Some(current) => if current < overlap_until_unix_ms {
                        current
                    } else {
                        overlap_until_unix_ms
                    },
                    None => overlap_until_unix_ms,
                },
            );
            proof {
                assert forall|j: int| 0 <= j < before.len() implies #[trigger] self.credentials.spec_entries()[j]
                    == if j < i + 1 {
                    (before[j].0, before[j].1.spec_rotated_out(overlap_until_unix_ms))
                } else {
                    before[j]
                } by {
                    if j != i {
                        assert(self.credentials.spec_entries()[j] == entries[j]);
                    }
                }
            }
            i += 1;
        }
        proof {
            let after = self.credentials.spec_entries();
            let expected = Map::new(
                |f: CredentialFingerprint| old(self)@.credentials.contains_key(f),
                |f: CredentialFingerprint|
                    old(self)@.credentials[f].spec_rotated_out(overlap_until_unix_ms),
            );
            self.credentials.lemma_view();
            old(self).credentials.lemma_view();
            assert forall|f: CredentialFingerprint| self.credentials@.contains_key(f)
                <==> expected.contains_key(f) by {
                if self.credentials@.contains_key(f) {
                    let j = choose|j: int| 0 <= j < after.len() && (#[trigger] after[j]).0 == f;
                    assert(before[j].0 == f);
                }
                if expected.contains_key(f) {
                    let j = choose|j: int| 0 <= j < before.len() && (#[trigger] before[j]).0 == f;
                    assert(after[j].0 == f);
                }
            }
            assert forall|f: CredentialFingerprint| self.credentials@.contains_key(
                f,
            ) implies #[trigger] self.credentials@[f] == expected[f] by {
                let j = choose|j: int| 0 <= j < after.len() && (#[trigger] after[j]).0 == f;
                assert(before[j].0 == f);
            }
            assert(self.credentials@ =~= expected);
        }
        let _none = self.credentials.insert(replacement.fingerprint, replacement);
        Ok(())
    }

    pub fn revoke_credential(
        &mut self,
        fingerprint: CredentialFingerprint,
        now_unix_ms: u64,
    ) -> (result: Result<(), CredentialMutationError>)
        requires
            old(self).wf(),
        ensures
            final(self).wf(),
            match result {
                Ok(()) => old(self)@.credentials.contains_key(fingerprint) && final(self)@ == (
                PrincipalView {
                    credentials: old(self)@.credentials.insert(
                        fingerprint,
                        old(self)@.credentials[fingerprint].spec_revoked(now_unix_ms),
                    ),
                    ..old(self)@
                }),
                Err(error) => error == CredentialMutationError::CredentialNotFound && !old(
                    self,
                )@.credentials.contains_key(fingerprint) && final(self)@ == old(self)@,
            },
    {
        match self.credentials.get_mut(&fingerprint) {
            Some(credential) => {
                credential.revoke(now_unix_ms);
                Ok(())
            },
            None => Err(CredentialMutationError::CredentialNotFound),
        }
    }
}

#[derive(Debug, Clone, Copy, PartialEq, Eq, Structural)]
pub enum EnrollmentState {
    Unenrolled,
    PendingApproval,
    Enrolled,
    Revoked,
}

/// How far somebody's enrollment has come.
#[derive(Debug, Clone, PartialEq, Eq)]
pub struct EnrollmentRecord {
    pub principal: PrincipalId,
    pub state: EnrollmentState,
    pub pending_credential: Option<CredentialFingerprint>,
    pub enrolled_at_unix_ms: Option<u64>,
    pub revoked_at_unix_ms: Option<u64>,
}

#[derive(Debug, Clone, Copy, PartialEq, Eq, Structural)]
pub enum EnrollmentError {
    AlreadyEnrolled,
    Revoked,
    NotPending,
    PendingCredentialMismatch,
}

impl EnrollmentRecord {
    #[must_use]
    pub fn new(principal: PrincipalId) -> (record: Self)
        ensures
            record == (EnrollmentRecord {
                principal,
                state: EnrollmentState::Unenrolled,
                pending_credential: None,
                enrolled_at_unix_ms: None,
                revoked_at_unix_ms: None,
            }),
    {
        EnrollmentRecord {
            principal,
            state: EnrollmentState::Unenrolled,
            pending_credential: None,
            enrolled_at_unix_ms: None,
            revoked_at_unix_ms: None,
        }
    }

    /// What a request with a credential leads to.
    pub open spec fn spec_request(self, credential: CredentialFingerprint) -> Result<
        Self,
        EnrollmentError,
    > {
        match self.state {
            EnrollmentState::Unenrolled => Ok(
                EnrollmentRecord {
                    state: EnrollmentState::PendingApproval,
                    pending_credential: Some(credential),
                    ..self
                },
            ),
            EnrollmentState::PendingApproval => if self.pending_credential == Some(credential) {
                Ok(self)
            } else {
                Err(EnrollmentError::PendingCredentialMismatch)
            },
            EnrollmentState::Enrolled => Err(EnrollmentError::AlreadyEnrolled),
            EnrollmentState::Revoked => Err(EnrollmentError::Revoked),
        }
    }

    pub fn request(&mut self, credential: CredentialFingerprint) -> (result: Result<
        (),
        EnrollmentError,
    >)
        ensures
            match (result, old(self).spec_request(credential)) {
                (Ok(()), Ok(after)) => *final(self) == after,
                (Err(error), Err(expected)) => error == expected && *final(self) == *old(self),
                _ => false,
            },
    {
        match self.state {
            EnrollmentState::Unenrolled => {
                self.state = EnrollmentState::PendingApproval;
                self.pending_credential = Some(credential);
                Ok(())
            },
            EnrollmentState::PendingApproval => {
                let same = match self.pending_credential {
                    Some(pending) => pending == credential,
                    None => false,
                };
                if same {
                    Ok(())
                } else {
                    Err(EnrollmentError::PendingCredentialMismatch)
                }
            },
            EnrollmentState::Enrolled => Err(EnrollmentError::AlreadyEnrolled),
            EnrollmentState::Revoked => Err(EnrollmentError::Revoked),
        }
    }

    /// What an approval leads to: only what was requested can be approved.
    pub open spec fn spec_approve(self, now_unix_ms: u64) -> Result<
        (Self, CredentialFingerprint),
        EnrollmentError,
    > {
        match self.pending_credential {
            Some(credential) if self.state == EnrollmentState::PendingApproval => Ok(
                (
                    EnrollmentRecord {
                        state: EnrollmentState::Enrolled,
                        pending_credential: None,
                        enrolled_at_unix_ms: Some(now_unix_ms),
                        revoked_at_unix_ms: None,
                        ..self
                    },
                    credential,
                ),
            ),
            _ => Err(EnrollmentError::NotPending),
        }
    }

    pub fn approve(&mut self, now_unix_ms: u64) -> (result: Result<
        CredentialFingerprint,
        EnrollmentError,
    >)
        ensures
            match (result, old(self).spec_approve(now_unix_ms)) {
                (Ok(credential), Ok((after, expected))) => credential == expected && *final(self)
                    == after,
                (Err(error), Err(expected)) => error == expected && *final(self) == *old(self),
                _ => false,
            },
    {
        if self.state != EnrollmentState::PendingApproval {
            return Err(EnrollmentError::NotPending);
        }
        let credential = match self.pending_credential {
            Some(credential) => credential,
            None => return Err(EnrollmentError::NotPending),
        };
        self.pending_credential = None;
        self.state = EnrollmentState::Enrolled;
        self.enrolled_at_unix_ms = Some(now_unix_ms);
        self.revoked_at_unix_ms = None;
        Ok(credential)
    }

    pub fn revoke(&mut self, now_unix_ms: u64)
        ensures
            *final(self) == (EnrollmentRecord {
                state: EnrollmentState::Revoked,
                pending_credential: None,
                revoked_at_unix_ms: Some(now_unix_ms),
                ..*old(self)
            }),
    {
        self.state = EnrollmentState::Revoked;
        self.pending_credential = None;
        self.revoked_at_unix_ms = Some(now_unix_ms);
    }
}

/// Approval hands out exactly the credential that was requested, and a request with another
/// credential in between is refused.
pub proof fn law_approval_keeps_the_requested_credential(
    record: EnrollmentRecord,
    requested: CredentialFingerprint,
    other: CredentialFingerprint,
    now_unix_ms: u64,
)
    requires
        requested != other,
    ensures
        record.state != EnrollmentState::PendingApproval ==> record.spec_approve(now_unix_ms)
            is Err,
        record.state == EnrollmentState::Unenrolled ==> record.spec_request(requested) is Ok,
        record.spec_request(requested) matches Ok(pending) ==> {
            &&& pending.spec_request(requested) == Ok::<_, EnrollmentError>(pending)
            &&& pending.spec_request(other) == Err::<EnrollmentRecord, _>(
                EnrollmentError::PendingCredentialMismatch,
            )
            &&& pending.spec_approve(now_unix_ms) matches Ok((_, credential))
            &&& credential == requested
        },
{
}

#[derive(Debug, Clone, Copy, PartialEq, Eq)]
pub enum AuthorizationStoreError {
    CredentialOwnedByAnotherPrincipal { fingerprint: CredentialFingerprint, owner: PrincipalId },
}

impl AuthorizationStoreError {
    /// The value as it is written for developers.
    pub open spec fn spec_debug(self) -> Seq<char> {
        match self {
            AuthorizationStoreError::CredentialOwnedByAnotherPrincipal { fingerprint, owner } => {
                "CredentialOwnedByAnotherPrincipal { fingerprint: "@ + fingerprint.spec_debug()
                    + ", owner: "@ + owner.spec_debug() + " }"@
            },
        }
    }

    /// Appends the value as it is written for developers.
    pub fn push_debug(&self, text: &mut String)
        ensures
            final(text)@ == old(text)@ + self.spec_debug(),
    {
        match self {
            AuthorizationStoreError::CredentialOwnedByAnotherPrincipal { fingerprint, owner } => {
                text.append("CredentialOwnedByAnotherPrincipal { fingerprint: ");
                fingerprint.push_debug(text);
                text.append(", owner: ");
                owner.push_debug(text);
                text.append(" }");
            },
        }
        proof {
            assert(text@ =~= old(text)@ + self.spec_debug());
        }
    }
}

/// Who there is, and who owns which credential.
#[derive(Debug)]
pub struct AuthorizationStore {
    principals: OrderedMap<PrincipalId, Principal>,
    credential_owners: OrderedMap<CredentialFingerprint, PrincipalId>,
}

/// A store as a value.
#[verifier::ext_equal]
pub struct StoreView {
    pub principals: Map<PrincipalId, PrincipalView>,
    pub owners: Map<CredentialFingerprint, PrincipalId>,
}

impl StoreView {
    /// Each principal is filed under its own identifier, and each credential of a principal
    /// is owned by that principal and by no other.
    pub open spec fn is_consistent(self) -> bool {
        &&& forall|id: PrincipalId| #[trigger]
            self.principals.contains_key(id) ==> self.principals[id].id == id
        &&& forall|id: PrincipalId, f: CredentialFingerprint|
            #![trigger self.principals[id].credentials.contains_key(f)]
            self.principals.contains_key(id) && self.principals[id].credentials.contains_key(f)
                ==> self.owners.contains_key(f) && self.owners[f] == id
        &&& forall|f: CredentialFingerprint| #[trigger]
            self.owners.contains_key(f) ==> self.principals.contains_key(self.owners[f])
                && self.principals[self.owners[f]].credentials.contains_key(f)
    }

    /// The credential is one of the principal's, and somebody else's already.
    pub open spec fn spec_conflicts(
        self,
        principal: PrincipalView,
        f: CredentialFingerprint,
    ) -> bool {
        principal.credentials.contains_key(f) && self.owners.contains_key(f) && self.owners[f]
            != principal.id
    }

    /// The first credential of the principal, in order, that is somebody else's.
    pub open spec fn spec_first_conflict(self, principal: PrincipalView) -> Option<
        CredentialFingerprint,
    > {
        if exists|f: CredentialFingerprint| self.spec_conflicts(principal, f) {
            Some(choose|f: CredentialFingerprint| self.spec_is_first_conflict(principal, f))
        } else {
            None
        }
    }

    /// The credential is somebody else's, and none that comes before it is.
    pub open spec fn spec_is_first_conflict(
        self,
        principal: PrincipalView,
        f: CredentialFingerprint,
    ) -> bool {
        self.spec_conflicts(principal, f) && forall|g: CredentialFingerprint| #[trigger]
            self.spec_conflicts(principal, g) ==> f.rank() <= g.rank()
    }

    /// There is at most one first conflict.
    pub proof fn lemma_first_conflict(self, principal: PrincipalView, f: CredentialFingerprint)
        requires
            self.spec_is_first_conflict(principal, f),
        ensures
            self.spec_first_conflict(principal) == Some(f),
    {
        let first = choose|g: CredentialFingerprint| self.spec_is_first_conflict(principal, g);
        assert(self.spec_conflicts(principal, first));
        CredentialFingerprint::lemma_rank_injective(first, f);
    }

    /// What adding or replacing a principal leads to. Where one of its credentials is
    /// somebody else's, it is refused and the first of those is named.
    pub open spec fn spec_upsert(self, principal: PrincipalView) -> Result<
        Self,
        AuthorizationStoreError,
    > {
        match self.spec_first_conflict(principal) {
            Some(fingerprint) => Err(
                AuthorizationStoreError::CredentialOwnedByAnotherPrincipal {
                    fingerprint,
                    owner: self.owners[fingerprint],
                },
            ),
            None => Ok(self.spec_upserted(principal)),
        }
    }

    /// The store with a principal added or replaced: it owns its credentials, and no longer
    /// those that it does not use any more.
    pub open spec fn spec_upserted(self, principal: PrincipalView) -> Self {
        StoreView {
            principals: self.principals.insert(principal.id, principal),
            owners: Map::new(
                |f: CredentialFingerprint|
                    principal.credentials.contains_key(f) || (self.owners.contains_key(f)
                        && self.owners[f] != principal.id),
                |f: CredentialFingerprint|
                    if principal.credentials.contains_key(f) {
                        principal.id
                    } else {
                        self.owners[f]
                    },
            ),
        }
    }

    pub open spec fn spec_authorize(self, principal: PrincipalId, permission: Permission) -> bool {
        self.principals.contains_key(principal) && self.principals[principal].spec_allows(
            permission,
        )
    }

    /// Whose the credential is, if it is accepted.
    pub open spec fn spec_principal_for(self, f: CredentialFingerprint, now: u64) -> Option<
        PrincipalId,
    > {
        if self.owners.contains_key(f) && self.principals.contains_key(self.owners[f])
            && self.principals[self.owners[f]].spec_accepts(f, now) {
            Some(self.owners[f])
        } else {
            None
        }
    }

    pub open spec fn spec_authorize_credential(
        self,
        f: CredentialFingerprint,
        permission: Permission,
        now: u64,
    ) -> bool {
        self.spec_principal_for(f, now) matches Some(principal) && self.spec_authorize(
            principal,
            permission,
        )
    }

    /// The store after a principal was disabled.
    pub open spec fn spec_disabled(self, principal: PrincipalId) -> Self {
        if self.principals.contains_key(principal) {
            StoreView {
                principals: self.principals.insert(
                    principal,
                    PrincipalView { enabled: false, ..self.principals[principal] },
                ),
                ..self
            }
        } else {
            self
        }
    }
}

impl View for AuthorizationStore {
    type V = StoreView;

    closed spec fn view(&self) -> StoreView {
        StoreView {
            principals: Map::new(
                |id: PrincipalId| self.principals@.contains_key(id),
                |id: PrincipalId| self.principals@[id]@,
            ),
            owners: self.credential_owners@,
        }
    }
}

impl Default for AuthorizationStore {
    fn default() -> (store: Self)
        ensures
            store.wf(),
            store@ == (StoreView { principals: Map::empty(), owners: Map::empty() }),
    {
        AuthorizationStore { principals: OrderedMap::new(), credential_owners: OrderedMap::new() }
    }
}

impl AuthorizationStore {
    /// The maps are kept in order, and the store is consistent.
    pub closed spec fn wf(self) -> bool {
        &&& self.principals.wf()
        &&& self.credential_owners.wf()
        &&& forall|id: PrincipalId| #[trigger]
            self.principals@.contains_key(id) ==> self.principals@[id].wf()
        &&& self@.is_consistent()
    }

    /// A sound store is consistent.
    pub proof fn law_sound_store_is_consistent(self)
        requires
            self.wf(),
        ensures
            self@.is_consistent(),
            self@.principals.dom().finite(),
    {
        self.principals.lemma_view();
        assert(self@.principals.dom() =~= self.principals@.dom());
    }

    /// The first credential of `principal`, in order, that is somebody else's.
    fn first_conflict(&self, principal: &Principal) -> (conflict: Option<
        (CredentialFingerprint, PrincipalId),
    >)
        requires
            self.wf(),
            principal.wf(),
        ensures
            match conflict {
                Some((f, owner)) => self@.spec_first_conflict(principal@) == Some(f) && owner
                    == self@.owners[f],
                None => self@.spec_first_conflict(principal@) is None && forall|
                    g: CredentialFingerprint,
                |
                    !#[trigger] self@.spec_conflicts(principal@, g),
            },
    {
        let ghost entries = principal.credentials.spec_entries();
        proof {
            principal.credentials.lemma_view();
        }
        let mut i: usize = 0;
        while i < principal.credentials.len()
            invariant
                self.wf(),
                principal.wf(),
                entries == principal.credentials.spec_entries(),
                i <= entries.len(),
                crate::ordered::ascending(entries),
                forall|g: CredentialFingerprint| #[trigger]
                    principal.credentials@.contains_key(g) <==> exists|j: int|
                        0 <= j < entries.len() && (#[trigger] entries[j]).0 == g,
                forall|j: int|
                    0 <= j < i ==> !self@.spec_conflicts(principal@, (#[trigger] entries[j]).0),
            decreases entries.len() - i,
        {
            let fingerprint = principal.credentials.key_at(i);
            match self.credential_owners.get(&fingerprint) {
                Some(owner) => {
                    if *owner != principal.id {
                        proof {
                            assert forall|g: CredentialFingerprint| #[trigger]
                                self@.spec_conflicts(principal@, g) implies fingerprint.rank()
                                <= g.rank() by {
                                let j = choose|j: int|
                                    0 <= j < entries.len() && (#[trigger] entries[j]).0 == g;
                                assert(j >= i);
                                if j > i {
                                    assert(entries[i as int].0.rank() < entries[j].0.rank());
                                }
                            }
                            self@.lemma_first_conflict(principal@, fingerprint);
                        }
                        return Some((fingerprint, *owner));
                    }
                },
                None => {},
            }
            i += 1;
        }
        proof {
            assert forall|g: CredentialFingerprint| !#[trigger] self@.spec_conflicts(
                principal@,
                g,
            ) by {
                if principal.credentials@.contains_key(g) {
                    let j = choose|j: int|
                        0 <= j < entries.len() && (#[trigger] entries[j]).0 == g;
                }
            }
        }
        None
    }

    /// Takes the ownership of a principal's credentials out.
    fn release_credentials(&mut self, id: PrincipalId)
        requires
            old(self).wf(),
        ensures
            final(self).principals == old(self).principals,
            final(self).credential_owners.wf(),
            final(self).credential_owners@ == Map::new(
                |f: CredentialFingerprint|
                    old(self).credential_owners@.contains_key(f)
                        && old(self).credential_owners@[f] != id,
                |f: CredentialFingerprint| old(self).credential_owners@[f],
            ),
    {
        let ghost owners = self.credential_owners@;
        let ghost expected = Map::new(
            |f: CredentialFingerprint| owners.contains_key(f) && owners[f] != id,
            |f: CredentialFingerprint| owners[f],
        );
        match self.principals.get(&id) {
            Some(previous) => {
                let ghost entries = previous.credentials.spec_entries();
                proof {
                    assert(old(self).principals@.contains_key(id));
                    previous.credentials.lemma_view();
                    assert forall|j: int| 0 <= j < entries.len() implies owners.contains_key(
                        (#[trigger] entries[j]).0,
                    ) && owners[entries[j].0] == id by {
                        assert(old(self)@.principals[id].credentials.contains_key(entries[j].0));
                    }
                }
                let mut i: usize = 0;
                while i < previous.credentials.len()
                    invariant
                        previous.credentials.wf(),
                        entries == previous.credentials.spec_entries(),
                        self.principals == old(self).principals,
                        self.credential_owners.wf(),
                        i <= entries.len(),
                        forall|f: CredentialFingerprint| #[trigger]
                            self.credential_owners@.contains_key(f) <==> owners.contains_key(f)
                                && !exists|j: int|
                                0 <= j < i && (#[trigger] entries[j]).0 == f,
                        forall|f: CredentialFingerprint| #[trigger]
                            self.credential_owners@.contains_key(f) ==> self.credential_owners@[f]
                                == owners[f],
                        forall|j: int|
                            0 <= j < entries.len() ==> owners.contains_key((#[trigger] entries[j]).0)
                                && owners[entries[j].0] == id,
                    decreases entries.len() - i,
                {
                    let fingerprint = previous.credentials.key_at(i);
                    let ghost before = self.credential_owners@;
                    let _owner = self.credential_owners.remove(&fingerprint);
                    proof {
                        assert(entries[i as int].0 == fingerprint);
                        assert forall|f: CredentialFingerprint| #[trigger]
                            self.credential_owners@.contains_key(f) <==> owners.contains_key(f)
                                && !exists|j: int|
                                0 <= j < i + 1 && (#[trigger] entries[j]).0 == f by {
                            assert(self.credential_owners@.contains_key(f)
                                <==> before.contains_key(f) && f != fingerprint);
                        }
                        assert forall|f: CredentialFingerprint| #[trigger]
                            self.credential_owners@.contains_key(
                                f,
                            ) implies self.credential_owners@[f] == owners[f] by {
                            assert(before.contains_key(f));
                        }
                    }
                    i += 1;
                }
                proof {
                    assert forall|f: CredentialFingerprint| self.credential_owners@.contains_key(f)
                        <==> expected.contains_key(f) by {
                        if owners.contains_key(f) && owners[f] == id {
                            assert(old(self)@.principals[id].credentials.contains_key(f));
                            let j = choose|j: int|
                                0 <= j < entries.len() && (#[trigger] entries[j]).0 == f;
                        }
                    }
                }
            },
            None => {
                proof {
                    assert forall|f: CredentialFingerprint| owners.contains_key(f) implies owners[f]
                        != id by {
                        assert(old(self)@.owners.contains_key(f));
                        assert(old(self)@.principals.contains_key(owners[f]));
                    }
                }
            },
        }
        proof {
            assert(self.credential_owners@ =~= expected);
        }
    }

    /// Adds a principal, or replaces the one with its identifier. Where one of its
    /// credentials is somebody else's, nothing changes and the first of those is named.
    pub fn upsert(&mut self, principal: Principal) -> (result: Result<(), AuthorizationStoreError>)
        requires
            old(self).wf(),
            principal.wf(),
        ensures
            final(self).wf(),
            match (result, old(self)@.spec_upsert(principal@)) {
                (Ok(()), Ok(after)) => final(self)@ == after,
                (Err(error), Err(expected)) => error == expected && *final(self) == *old(self),
                _ => false,
            },
    {
        match self.first_conflict(&principal) {
            Some((fingerprint, owner)) => {
                return Err(
                    AuthorizationStoreError::CredentialOwnedByAnotherPrincipal {
                        fingerprint,
                        owner,
                    },
                );
            },
            None => {},
        }
        let id = principal.id;
        let ghost view = principal@;
        let ghost entries = principal.credentials.spec_entries();
        self.release_credentials(id);
        let ghost released = self.credential_owners@;
        proof {
            principal.credentials.lemma_view();
        }
        let mut i: usize = 0;
        while i < principal.credentials.len()
            invariant
                principal.wf(),
                principal.id == id,
                entries == principal.credentials.spec_entries(),
                self.principals == old(self).principals,
                self.credential_owners.wf(),
                i <= entries.len(),
                forall|f: CredentialFingerprint| #[trigger]
                    self.credential_owners@.contains_key(f) <==> released.contains_key(f)
                        || exists|j: int| 0 <= j < i && (#[trigger] entries[j]).0 == f,
                forall|f: CredentialFingerprint| #[trigger]
                    self.credential_owners@.contains_key(f) ==> self.credential_owners@[f] == if (
                    exists|j: int| 0 <= j < i && (#[trigger] entries[j]).0 == f) {
                        id
                    } else {
                        released[f]
                    },
            decreases entries.len() - i,
        {
            let fingerprint = principal.credentials.key_at(i);
            let ghost before = self.credential_owners@;
            let _owner = self.credential_owners.insert(fingerprint, id);
            proof {
                assert(entries[i as int].0 == fingerprint);
                assert forall|f: CredentialFingerprint| #[trigger]
                    self.credential_owners@.contains_key(f) <==> released.contains_key(f)
                        || exists|j: int| 0 <= j < i + 1 && (#[trigger] entries[j]).0 == f by {
                    assert(self.credential_owners@.contains_key(f) <==> before.contains_key(f) || f
                        == fingerprint);
                }
                assert forall|f: CredentialFingerprint| #[trigger]
                    self.credential_owners@.contains_key(f) implies self.credential_owners@[f]
                    == if (exists|j: int| 0 <= j < i + 1 && (#[trigger] entries[j]).0 == f) {
                    id
                } else {
                    released[f]
                } by {
                    if f != fingerprint {
                        assert(before.contains_key(f));
                    }
                }
            }
            i += 1;
        }
        let _previous = self.principals.insert(id, principal);
        proof {
            let expected = old(self)@.spec_upserted(view);
            assert(self.credential_owners@ =~= expected.owners);
            assert(self@.principals =~= expected.principals);
            assert forall|other: PrincipalId| #[trigger]
                self.principals@.contains_key(other) implies self.principals@[other].wf() by {
                if other != id {
                    assert(old(self).principals@.contains_key(other));
                }
            }
            lemma_upsert_consistent(old(self)@, view);
        }
        Ok(())
    }

    #[must_use]
    pub fn authorize(&self, principal: PrincipalId, permission: Permission) -> (authorized: bool)
        requires
            self.wf(),
        ensures
            authorized == self@.spec_authorize(principal, permission),
    {
        match self.principals.get(&principal) {
            Some(record) => record.allows(permission),
            None => false,
        }
    }

    #[must_use]
    pub fn principal_for_credential(
        &self,
        fingerprint: CredentialFingerprint,
        now_unix_ms: u64,
    ) -> (principal: Option<PrincipalId>)
        requires
            self.wf(),
        ensures
            principal == self@.spec_principal_for(fingerprint, now_unix_ms),
    {
        let principal_id = match self.credential_owners.get(&fingerprint) {
            Some(owner) => *owner,
            None => return None,
        };
        match self.principals.get(&principal_id) {
            Some(principal) => if principal.accepts_credential(fingerprint, now_unix_ms) {
                Some(principal_id)
            } else {
                None
            },
            None => None,
        }
    }

    #[must_use]
    pub fn authorize_credential(
        &self,
        fingerprint: CredentialFingerprint,
        permission: Permission,
        now_unix_ms: u64,
    ) -> (authorized: bool)
        requires
            self.wf(),
        ensures
            authorized == self@.spec_authorize_credential(fingerprint, permission, now_unix_ms),
    {
        match self.principal_for_credential(fingerprint, now_unix_ms) {
            Some(principal) => self.authorize(principal, permission),
            None => false,
        }
    }

    /// Takes every right from a principal until it is replaced, and tells whether there is
    /// such a principal.
    pub fn disable(&mut self, principal: PrincipalId) -> (found: bool)
        requires
            old(self).wf(),
        ensures
            final(self).wf(),
            found == old(self)@.principals.contains_key(principal),
            final(self)@ == old(self)@.spec_disabled(principal),
    {
        match self.principals.get_mut(&principal) {
            Some(record) => {
                record.enabled = false;
                proof {
                    assert(self@.principals =~= old(self)@.spec_disabled(principal).principals);
                    assert forall|other: PrincipalId| #[trigger]
                        self.principals@.contains_key(other) implies self.principals@[other].wf() by {
                        if other != principal {
                            assert(old(self).principals@.contains_key(other));
                        }
                    }
                    lemma_disable_consistent(old(self)@, principal);
                }
                true
            },
            None => false,
        }
    }
}

proof fn lemma_upsert_consistent(store: StoreView, principal: PrincipalView)
    requires
        store.is_consistent(),
        forall|f: CredentialFingerprint| !#[trigger] store.spec_conflicts(principal, f),
    ensures
        store.spec_upserted(principal).is_consistent(),
{
    let after = store.spec_upserted(principal);
    assert forall|id: PrincipalId, f: CredentialFingerprint|
        #![trigger after.principals[id].credentials.contains_key(f)]
        after.principals.contains_key(id) && after.principals[id].credentials.contains_key(
            f,
        ) implies after.owners.contains_key(f) && after.owners[f] == id by {
        if id != principal.id {
            assert(store.principals[id].credentials.contains_key(f));
            assert(!store.spec_conflicts(principal, f));
        }
    }
    assert forall|f: CredentialFingerprint| #[trigger]
        after.owners.contains_key(f) implies after.principals.contains_key(after.owners[f])
        && after.principals[after.owners[f]].credentials.contains_key(f) by {
        if !principal.credentials.contains_key(f) {
            assert(store.owners.contains_key(f));
        }
    }
}

proof fn lemma_disable_consistent(store: StoreView, principal: PrincipalId)
    requires
        store.is_consistent(),
    ensures
        store.spec_disabled(principal).is_consistent(),
{
    let after = store.spec_disabled(principal);
    assert forall|id: PrincipalId, f: CredentialFingerprint|
        #![trigger after.principals[id].credentials.contains_key(f)]
        after.principals.contains_key(id) && after.principals[id].credentials.contains_key(
            f,
        ) implies after.owners.contains_key(f) && after.owners[f] == id by {
        assert(store.principals[id].credentials.contains_key(f));
    }
    assert forall|f: CredentialFingerprint| #[trigger]
        after.owners.contains_key(f) implies after.principals.contains_key(after.owners[f])
        && after.principals[after.owners[f]].credentials.contains_key(f) by {
        assert(store.owners.contains_key(f));
    }
}

/// No credential belongs to two principals.
pub proof fn law_credential_has_one_owner(
    store: StoreView,
    a: PrincipalId,
    b: PrincipalId,
    f: CredentialFingerprint,
)
    requires
        store.is_consistent(),
        store.principals.contains_key(a),
        store.principals.contains_key(b),
        store.principals[a].credentials.contains_key(f),
        store.principals[b].credentials.contains_key(f),
    ensures
        a == b,
{
}

/// A disabled principal may do nothing, neither by name nor by any of its credentials, and
/// nobody else's rights change.
pub proof fn law_disabled_principal_has_no_rights(
    store: StoreView,
    principal: PrincipalId,
    other: PrincipalId,
    f: CredentialFingerprint,
    permission: Permission,
    now: u64,
)
    requires
        store.is_consistent(),
        other != principal,
    ensures
        !store.spec_disabled(principal).spec_authorize(principal, permission),
        store.spec_disabled(principal).spec_principal_for(f, now) != Some(principal),
        store.spec_disabled(principal).spec_authorize(other, permission) == store.spec_authorize(
            other,
            permission,
        ),
        store.spec_principal_for(f, now) == Some(other) ==> store.spec_disabled(
            principal,
        ).spec_principal_for(f, now) == Some(other),
{
}

/// Credentials change, the principal stays: once a principal is stored, each of its accepted
/// credentials leads to it.
pub proof fn law_stored_credentials_lead_to_their_principal(
    store: StoreView,
    principal: PrincipalView,
    f: CredentialFingerprint,
    now: u64,
)
    requires
        store.is_consistent(),
        principal.spec_accepts(f, now),
    ensures
        store.spec_upserted(principal).spec_principal_for(f, now) == Some(principal.id),
{
}

/// Bounded replay window for monotonically assigned command sequence numbers.
///
/// This is not a cryptographic anti-replay mechanism by itself. It is application-level duplicate
/// suppression intended to sit inside an authenticated transport/session.
#[derive(Debug)]
pub struct ReplayWindow {
    capacity: usize,
    seen: OrderedSet<u64>,
    order: VecDeque<u64>,
}

/// A window: the numbers that it remembers, from the oldest to the newest.
pub struct ReplayView {
    pub capacity: usize,
    pub order: Seq<u64>,
}

impl ReplayView {
    pub open spec fn spec_accepts(self, sequence: u64) -> bool {
        !self.order.contains(sequence)
    }

    /// The window after it accepted a number: the oldest numbers make room for it.
    pub open spec fn spec_accepted(self, sequence: u64) -> Self {
        let over = if self.order.len() >= self.capacity {
            self.order.len() - self.capacity + 1
        } else {
            0
        };
        ReplayView { order: self.order.skip(over).push(sequence), ..self }
    }

    /// The window holds a number at least, no number twice, and no more than it may.
    pub open spec fn is_bounded(self) -> bool {
        0 < self.capacity && self.order.len() <= self.capacity && self.order.no_duplicates()
    }
}

impl View for ReplayWindow {
    type V = ReplayView;

    closed spec fn view(&self) -> ReplayView {
        ReplayView { capacity: self.capacity, order: self.order@ }
    }
}

impl ReplayWindow {
    /// Both records of the numbers agree, and the window is bounded.
    pub closed spec fn wf(self) -> bool {
        &&& self@.is_bounded()
        &&& self.seen.wf()
        &&& forall|n: u64| #[trigger] self.seen@.contains(n) <==> self.order@.contains(n)
    }

    /// A sound window is bounded.
    pub proof fn lemma_bounded(self)
        requires
            self.wf(),
        ensures
            self@.is_bounded(),
    {
    }

    #[must_use]
    pub fn new(capacity: usize) -> (window: Self)
        requires
            capacity > 0,
        ensures
            window.wf(),
            window@ == (ReplayView { capacity, order: Seq::empty() }),
    {
        ReplayWindow { capacity, seen: OrderedSet::new(), order: VecDeque::new() }
    }

    /// Returns true only the first time a sequence number is observed inside the bounded window.
    pub fn accept(&mut self, sequence: u64) -> (accepted: bool)
        requires
            old(self).wf(),
        ensures
            final(self).wf(),
            accepted == old(self)@.spec_accepts(sequence),
            final(self)@ == if accepted {
                old(self)@.spec_accepted(sequence)
            } else {
                old(self)@
            },
    {
        if self.seen.contains(&sequence) {
            return false;
        }
        let ghost before = self.order@;
        let ghost mut gone: int = 0;
        proof {
            assert(before.skip(0) =~= before);
        }
        while self.order.len() >= self.capacity
            invariant
                0 < self.capacity,
                self.capacity == old(self)@.capacity,
                self.seen.wf(),
                before.no_duplicates(),
                before.len() <= self.capacity,
                !before.contains(sequence),
                0 <= gone <= before.len(),
                gone == 0 || before.len() - gone >= self.capacity - 1,
                self.order@ == before.skip(gone),
                forall|n: u64| #[trigger] self.seen@.contains(n) <==> self.order@.contains(n),
            decreases before.len() - gone,
        {
            let ghost kept = self.order@;
            match self.order.pop_front() {
                Some(oldest) => {
                    self.seen.remove(&oldest);
                    proof {
                        assert(self.order@ =~= before.skip(gone + 1));
                        assert forall|n: u64| #[trigger]
                            self.seen@.contains(n) <==> self.order@.contains(n) by {
                            if kept.contains(n) && n != oldest {
                                let i = choose|i: int| 0 <= i < kept.len() && kept[i] == n;
                                assert(self.order@[i - 1] == n);
                            }
                            if self.order@.contains(n) {
                                let i = choose|i: int|
                                    0 <= i < self.order@.len() && self.order@[i] == n;
                                assert(kept[i + 1] == n);
                                assert(before[gone + i + 1] == n);
                                assert(before[gone] == oldest);
                            }
                        }
                        gone = gone + 1;
                    }
                },
                None => {},
            }
        }
        let ghost kept = self.order@;
        self.order.push_back(sequence);
        self.seen.insert(sequence);
        proof {
            assert(kept =~= before.skip(gone));
            assert(self.order@ =~= old(self)@.spec_accepted(sequence).order);
            assert forall|n: u64| #[trigger]
                self.seen@.contains(n) <==> self.order@.contains(n) by {
                if kept.contains(n) {
                    let i = choose|i: int| 0 <= i < kept.len() && kept[i] == n;
                    assert(self.order@[i] == n);
                }
                if self.order@.contains(n) && n != sequence {
                    let i = choose|i: int| 0 <= i < self.order@.len() && self.order@[i] == n;
                    assert(kept[i] == n);
                }
                assert(self.order@[kept.len() as int] == sequence);
            }
            assert forall|i: int, j: int|
                0 <= i < self.order@.len() && 0 <= j < self.order@.len() && i
                    != j implies self.order@[i] != self.order@[j] by {
                if i < kept.len() {
                    assert(self.order@[i] == before[gone + i]);
                }
                if j < kept.len() {
                    assert(self.order@[j] == before[gone + j]);
                }
            }
        }
        true
    }
}

impl ReplayView {
    /// The window after any numbers came in turn, whether they were accepted or not.
    pub open spec fn spec_offered(self, numbers: Seq<u64>) -> Self
        decreases numbers.len(),
    {
        if numbers.len() == 0 {
            self
        } else {
            let before = self.spec_offered(numbers.drop_last());
            if before.spec_accepts(numbers.last()) {
                before.spec_accepted(numbers.last())
            } else {
                before
            }
        }
    }
}

/// What was accepted is refused when it comes again, as long as fewer numbers have come in
/// between than the window remembers.
pub proof fn law_replayed_number_is_refused(window: ReplayView, sequence: u64, later: Seq<u64>)
    requires
        window.is_bounded(),
        window.spec_accepts(sequence),
        later.len() < window.capacity,
    ensures
        !window.spec_accepted(sequence).spec_offered(later).spec_accepts(sequence),
        window.spec_accepted(sequence).spec_offered(later).order.len() <= window.capacity,
{
    lemma_number_is_remembered(window, sequence, later);
}

/// A number that was accepted moves back by one place at most with each that follows.
proof fn lemma_number_is_remembered(window: ReplayView, sequence: u64, later: Seq<u64>)
    requires
        window.is_bounded(),
        later.len() < window.capacity,
    ensures
        ({
            let after = window.spec_accepted(sequence).spec_offered(later);
            &&& after.capacity == window.capacity
            &&& after.order.len() <= window.capacity
            &&& exists|back: int|
                0 <= back <= later.len() && back < after.order.len() && #[trigger] after.order[
                after.order.len() - 1 - back] == sequence
        }),
    decreases later.len(),
{
    let after = window.spec_accepted(sequence).spec_offered(later);
    if later.len() == 0 {
        assert(after.order[after.order.len() - 1 - 0] == sequence);
    } else {
        let front = later.drop_last();
        lemma_number_is_remembered(window, sequence, front);
        let before = window.spec_accepted(sequence).spec_offered(front);
        let back = choose|back: int|
            0 <= back <= front.len() && back < before.order.len() && #[trigger] before.order[
            before.order.len() - 1 - back] == sequence;
        if before.spec_accepts(later.last()) {
            assert(after.order[after.order.len() - 1 - (back + 1)] == sequence);
        } else {
            assert(after.order[after.order.len() - 1 - back] == sequence);
        }
    }
}

#[derive(Debug, Clone, Copy, PartialEq, Eq, Structural)]
pub enum LocalPeerValidation {
    Accepted,
    WrongSession,
    WrongProcess,
    WrongPrincipal,
    ChallengeFailed,
}

/// The worker process that is expected at the other end of a local channel.
#[derive(Debug, Clone, Copy, PartialEq, Eq)]
pub struct ExpectedWorkerPeer {
    pub session_id: u32,
    pub process_id: u32,
    pub principal: PrincipalId,
}

impl ExpectedWorkerPeer {
    #[must_use]
    pub fn validate_metadata(
        self,
        session_id: u32,
        process_id: u32,
        principal: PrincipalId,
    ) -> (validation: LocalPeerValidation)
        ensures
            validation == if session_id != self.session_id {
                LocalPeerValidation::WrongSession
            } else if process_id != self.process_id {
                LocalPeerValidation::WrongProcess
            } else if principal != self.principal {
                LocalPeerValidation::WrongPrincipal
            } else {
                LocalPeerValidation::Accepted
            },
    {
        if session_id != self.session_id {
            return LocalPeerValidation::WrongSession;
        }
        if process_id != self.process_id {
            return LocalPeerValidation::WrongProcess;
        }
        if principal != self.principal {
            return LocalPeerValidation::WrongPrincipal;
        }
        LocalPeerValidation::Accepted
    }
}

/// A credential is accepted from its issue on until it expires or is revoked. Each of these
/// conditions binds by itself, and one that is being retired is still accepted.
pub proof fn law_credential_lifetime(record: CredentialRecord, now_unix_ms: u64)
    ensures
        now_unix_ms < record.issued_at_unix_ms ==> !record.spec_is_accepted_at(now_unix_ms),
        record.state == CredentialState::Revoked ==> !record.spec_is_accepted_at(now_unix_ms),
        record.revoked_at_unix_ms is Some && now_unix_ms >= record.revoked_at_unix_ms->Some_0
            ==> !record.spec_is_accepted_at(now_unix_ms),
        record.expires_at_unix_ms is Some && now_unix_ms >= record.expires_at_unix_ms->Some_0
            ==> !record.spec_is_accepted_at(now_unix_ms),
        (record.state == CredentialState::Active || record.state == CredentialState::Retiring)
            && record.issued_at_unix_ms <= now_unix_ms && (record.revoked_at_unix_ms is None
            || now_unix_ms < record.revoked_at_unix_ms->Some_0) && (record.expires_at_unix_ms
            is None || now_unix_ms < record.expires_at_unix_ms->Some_0)
            ==> record.spec_is_accepted_at(now_unix_ms),
{
}

/// Retiring a credential never revives one, and keeps what is known of it; what was rotated out
/// expires by the deadline, or earlier where it would have anyway.
pub proof fn law_retiring_keeps_the_record(record: CredentialRecord, until: u64, now: u64)
    ensures
        ({
            let retiring = record.spec_retiring();
            let out = record.spec_rotated_out(until);
            let revoked = record.spec_revoked(now);
            &&& retiring.fingerprint == record.fingerprint && out.fingerprint == record.fingerprint
                && revoked.fingerprint == record.fingerprint
            &&& retiring.issued_at_unix_ms == record.issued_at_unix_ms && out.issued_at_unix_ms
                == record.issued_at_unix_ms && revoked.issued_at_unix_ms
                == record.issued_at_unix_ms
            &&& retiring.expires_at_unix_ms == record.expires_at_unix_ms
            &&& revoked.expires_at_unix_ms == record.expires_at_unix_ms
            &&& retiring.revoked_at_unix_ms == record.revoked_at_unix_ms && out.revoked_at_unix_ms
                == record.revoked_at_unix_ms
            &&& record.state == CredentialState::Revoked ==> retiring.state
                == CredentialState::Revoked && out.state == CredentialState::Revoked
            &&& record.state != CredentialState::Revoked ==> retiring.state
                == CredentialState::Retiring && out.state == CredentialState::Retiring
            &&& out.expires_at_unix_ms is Some && out.expires_at_unix_ms->Some_0 <= until
            &&& record.expires_at_unix_ms is None ==> out.expires_at_unix_ms == Some(until)
            &&& record.expires_at_unix_ms is Some && record.expires_at_unix_ms->Some_0 <= until
                ==> out.expires_at_unix_ms == record.expires_at_unix_ms
            &&& revoked.state == CredentialState::Revoked && revoked.revoked_at_unix_ms == Some(now)
        }),
{
}

/// A rotation is possible for every active credential that is new to the principal and issued
/// before the deadline. The new one is there unchanged, no other comes or goes, and the principal
/// keeps its kind, its rights and whether it is enabled.
pub proof fn law_rotation_adds_one_credential(
    principal: PrincipalView,
    replacement: CredentialRecord,
    until: u64,
    other: CredentialFingerprint,
)
    requires
        other != replacement.fingerprint,
    ensures
        ({
            let can = principal.spec_can_rotate(replacement, until);
            let after = principal.spec_rotated(replacement, until);
            let timely = replacement.issued_at_unix_ms < until;
            let active = replacement.state == CredentialState::Active;
            let known = principal.credentials.contains_key(replacement.fingerprint);
            &&& timely && active && !known ==> can is Ok
            &&& !timely ==> can == Err::<(), _>(
                CredentialMutationError::InvalidRotationOverlapDeadline,
            )
            &&& timely && !active ==> can == Err::<(), _>(
                CredentialMutationError::ReplacementMustBeActive,
            )
            &&& timely && active && known ==> can == Err::<(), _>(
                CredentialMutationError::DuplicateCredential,
            )
            &&& after.credentials.contains_key(replacement.fingerprint)
                && after.credentials[replacement.fingerprint] == replacement
            &&& after.credentials.contains_key(other) == principal.credentials.contains_key(other)
            &&& principal.credentials.contains_key(other) ==> after.credentials[other].state
                != CredentialState::Active
            &&& after.id == principal.id && after.kind == principal.kind && after.enabled
                == principal.enabled && after.permissions == principal.permissions
        }),
{
}

/// A permission is held if and only if the principal is known and enabled and was given just
/// that one; a credential speaks for its owner as long as it is accepted.
pub proof fn law_rights_are_given_one_by_one(
    store: StoreView,
    principal: PrincipalId,
    permission: Permission,
    f: CredentialFingerprint,
    now: u64,
)
    requires
        store.is_consistent(),
    ensures
        store.spec_authorize(principal, permission) <==> {
            &&& store.principals.contains_key(principal)
            &&& store.principals[principal].enabled
            &&& store.principals[principal].permissions.contains(permission)
        },
        store.spec_principal_for(f, now) == Some(principal) <==> {
            &&& store.principals.contains_key(principal)
            &&& store.principals[principal].enabled
            &&& store.principals[principal].credentials.contains_key(f)
            &&& store.principals[principal].credentials[f].spec_is_accepted_at(now)
        },
        store.spec_principal_for(f, now) == Some(principal) ==> store.spec_authorize_credential(
            f,
            permission,
            now,
        ) == store.spec_authorize(principal, permission),
        store.spec_principal_for(f, now) is None ==> !store.spec_authorize_credential(
            f,
            permission,
            now,
        ),
{
}

/// A principal is stored unless one of its credentials is another's, and then nothing is. What is
/// stored replaces what was known of this principal and leaves all others as they are.
pub proof fn law_upsert_touches_one_principal(
    store: StoreView,
    principal: PrincipalView,
    other: PrincipalId,
    f: CredentialFingerprint,
)
    requires
        other != principal.id,
    ensures
        ({
            let after = store.spec_upserted(principal);
            &&& store.spec_upsert(principal) is Ok ==> store.spec_upsert(principal) == Ok::<
                _,
                AuthorizationStoreError,
            >(after)
            &&& store.spec_upsert(principal) is Ok && principal.credentials.contains_key(f)
                ==> !(store.owners.contains_key(f) && store.owners[f] == other)
            &&& (forall|g: CredentialFingerprint| #[trigger]
                principal.credentials.contains_key(g) ==> !store.owners.contains_key(g)
                    || store.owners[g] == principal.id) ==> store.spec_upsert(principal) is Ok
            &&& after.principals.contains_key(principal.id) && after.principals[principal.id]
                == principal
            &&& after.principals.contains_key(other) == store.principals.contains_key(other)
            &&& store.principals.contains_key(other) ==> after.principals[other]
                == store.principals[other]
            &&& principal.credentials.contains_key(f) ==> after.owners.contains_key(f)
                && after.owners[f] == principal.id
            &&& !principal.credentials.contains_key(f) ==> !(after.owners.contains_key(f)
                && after.owners[f] == principal.id)
            &&& store.spec_upsert(principal) is Ok && store.owners.contains_key(f)
                && store.owners[f] == other ==> after.owners.contains_key(f) && after.owners[f]
                == other
        }),
{
    if store.spec_upsert(principal) is Ok && principal.credentials.contains_key(f) {
        assert(!store.spec_conflicts(principal, f));
    }
}

/// Disabling a principal takes away nothing but its being enabled, and touches no other.
pub proof fn law_disabling_keeps_the_rest(
    store: StoreView,
    principal: PrincipalId,
    other: PrincipalId,
)
    requires
        other != principal,
    ensures
        ({
            let after = store.spec_disabled(principal);
            &&& after.owners == store.owners
            &&& after.principals.contains_key(other) == store.principals.contains_key(other)
            &&& after.principals.contains_key(principal) == store.principals.contains_key(principal)
            &&& store.principals.contains_key(other) ==> after.principals[other]
                == store.principals[other]
            &&& store.principals.contains_key(principal) ==> {
                &&& !after.principals[principal].enabled
                &&& after.principals[principal].id == store.principals[principal].id
                &&& after.principals[principal].kind == store.principals[principal].kind
                &&& after.principals[principal].permissions
                    == store.principals[principal].permissions
                &&& after.principals[principal].credentials
                    == store.principals[principal].credentials
            }
        }),
{
}

/// Enrollment goes from a request to its approval. A request can be repeated but not exchanged,
/// and neither an enrolled nor a revoked principal can ask again. The approval takes just the
/// credential that was asked for, and notes when.
pub proof fn law_enrollment_goes_forward(
    record: EnrollmentRecord,
    credential: CredentialFingerprint,
    now_unix_ms: u64,
)
    ensures
        ({
            let asked = record.spec_request(credential);
            let approved = record.spec_approve(now_unix_ms);
            &&& record.state == EnrollmentState::Unenrolled ==> {
                &&& asked is Ok
                &&& asked->Ok_0.state == EnrollmentState::PendingApproval
                &&& asked->Ok_0.pending_credential == Some(credential)
                &&& asked->Ok_0.principal == record.principal
                &&& asked->Ok_0.spec_request(credential) == asked
                &&& asked->Ok_0.spec_approve(now_unix_ms) is Ok
                &&& asked->Ok_0.spec_approve(now_unix_ms)->Ok_0.1 == credential
            }
            &&& record.state == EnrollmentState::PendingApproval && record.pending_credential
                == Some(credential) ==> asked == Ok::<_, EnrollmentError>(record)
            &&& record.state == EnrollmentState::PendingApproval && record.pending_credential
                != Some(credential) ==> asked == Err::<EnrollmentRecord, _>(
                EnrollmentError::PendingCredentialMismatch,
            )
            &&& record.state == EnrollmentState::Enrolled ==> asked == Err::<EnrollmentRecord, _>(
                EnrollmentError::AlreadyEnrolled,
            )
            &&& record.state == EnrollmentState::Revoked ==> asked == Err::<EnrollmentRecord, _>(
                EnrollmentError::Revoked,
            )
            &&& record.state == EnrollmentState::PendingApproval && record.pending_credential is Some
                ==> {
                &&& approved is Ok
                &&& Some(approved->Ok_0.1) == record.pending_credential
                &&& approved->Ok_0.0.state == EnrollmentState::Enrolled
                &&& approved->Ok_0.0.pending_credential is None
                &&& approved->Ok_0.0.enrolled_at_unix_ms == Some(now_unix_ms)
                &&& approved->Ok_0.0.revoked_at_unix_ms is None
                &&& approved->Ok_0.0.principal == record.principal
            }
        }),
{
}

/// A number that was not offered is accepted, whatever else was; and accepting one forgets the
/// oldest only, where there is no room.
pub proof fn law_fresh_numbers_are_accepted(window: ReplayView, sequence: u64, i: int)
    requires
        window.is_bounded(),
    ensures
        ({
            let after = window.spec_accepted(sequence);
            let lost: int = if window.order.len() == window.capacity {
                1
            } else {
                0
            };
            &&& window.spec_accepts(sequence) <==> forall|k: int|
                0 <= k < window.order.len() ==> #[trigger] window.order[k] != sequence
            &&& after.capacity == window.capacity
            &&& after.order.len() == window.order.len() + 1 - lost
            &&& after.order.last() == sequence
            &&& lost <= i < window.order.len() ==> after.order[i - lost] == window.order[i]
        }),
{
}

/// No two permissions share a number.
pub proof fn law_permissions_are_told_apart(a: Permission, b: Permission)
    ensures
        a.spec_number() == b.spec_number() <==> a == b,
        1 <= a.spec_number() <= 14,
{
}

} // verus!
