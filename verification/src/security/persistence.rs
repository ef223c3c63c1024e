//! The authorization store in the shape in which it is kept on disk.

use super::{
    AuthorizationStore, AuthorizationStoreError, CredentialFingerprint, CredentialRecord,
    CredentialState, Permission, Principal, PrincipalId, PrincipalKind, PrincipalView, StoreView,
};
use crate::ordered::{OrderedKey, OrderedMap, OrderedSet};
use vstd::prelude::*;
use vstd::string::StringExecFns;

verus! {

pub const STATE_VERSION: u32 = 1;

pub const MAX_STATE_BYTES: usize = 4_194_304;

pub const MAX_PRINCIPALS: usize = 10_000;

pub const MAX_CREDENTIALS_PER_PRINCIPAL: usize = 16;

pub const MAX_PERMISSIONS_PER_PRINCIPAL: usize = 32;

/// Why a kept state is refused.
#[derive(Debug, Clone, Copy, PartialEq, Eq)]
pub enum PersistenceError {
    StateTooLarge { bytes: usize, maximum: usize },
    UnsupportedVersion(u32),
    TooManyPrincipals(usize),
    TooManyCredentials { principal: PrincipalId, count: usize },
    TooManyPermissions { principal: PrincipalId, count: usize },
    DuplicatePrincipal(PrincipalId),
    DuplicateCredential(CredentialFingerprint),
    InvalidPrincipalKind(u8),
    InvalidPermission(u8),
    InvalidCredentialState(u8),
    InvalidCredentialTime(CredentialFingerprint),
    Authorization(AuthorizationStoreError),
}

impl From<AuthorizationStoreError> for PersistenceError {
    fn from(value: AuthorizationStoreError) -> (error: Self) {
        PersistenceError::Authorization(value)
    }
}

impl vstd::std_specs::convert::FromSpecImpl<AuthorizationStoreError> for PersistenceError {
    open spec fn obeys_from_spec() -> bool {
        true
    }

    open spec fn from_spec(value: AuthorizationStoreError) -> Self {
        PersistenceError::Authorization(value)
    }
}

impl PersistenceError {
    /// What the error says.
    pub open spec fn spec_message(self) -> Seq<char> {
        match self {
            PersistenceError::StateTooLarge { bytes, maximum } => "security state is "@
                + crate::text::decimal(bytes as nat) + " bytes; maximum is "@
                + crate::text::decimal(maximum as nat),
            PersistenceError::UnsupportedVersion(version) => "unsupported security state version "@
                + crate::text::decimal(version as nat),
            PersistenceError::TooManyPrincipals(count) => {
                "security state has too many principals: "@ + crate::text::decimal(count as nat)
            },
            PersistenceError::TooManyCredentials { principal, count } => "principal "@
                + principal.spec_debug() + " has too many persisted credentials: "@
                + crate::text::decimal(count as nat),
            PersistenceError::TooManyPermissions { principal, count } => "principal "@
                + principal.spec_debug() + " has too many persisted permissions: "@
                + crate::text::decimal(count as nat),
            PersistenceError::DuplicatePrincipal(principal) => "duplicate persisted principal "@
                + principal.spec_debug(),
            PersistenceError::DuplicateCredential(fingerprint) => "duplicate persisted credential "@
                + fingerprint.spec_debug(),
            PersistenceError::InvalidPrincipalKind(value) => "invalid persisted principal kind "@
                + crate::text::decimal(value as nat),
            PersistenceError::InvalidPermission(value) => "invalid persisted permission "@
                + crate::text::decimal(value as nat),
            PersistenceError::InvalidCredentialState(value) => {
                "invalid persisted credential state "@ + crate::text::decimal(value as nat)
            },
            PersistenceError::InvalidCredentialTime(fingerprint) => {
                "invalid persisted credential times for "@ + fingerprint.spec_debug()
            },
            PersistenceError::Authorization(error) => {
                "persisted authorization state violates invariants: "@ + error.spec_debug()
            },
        }
    }

    /// The text for people.
    #[must_use]
    pub fn message(&self) -> (text: String)
        ensures
            text@ == self.spec_message(),
    {
        match self {
            PersistenceError::StateTooLarge { bytes, maximum } => {
                let mut text: String = "security state is ".to_owned();
                crate::text::push_decimal(&mut text, *bytes as u64);
                text.append(" bytes; maximum is ");
                crate::text::push_decimal(&mut text, *maximum as u64);
                text
            },
            PersistenceError::UnsupportedVersion(version) => {
                let mut text: String = "unsupported security state version ".to_owned();
                crate::text::push_decimal(&mut text, *version as u64);
                text
            },
            PersistenceError::TooManyPrincipals(count) => {
                let mut text: String = "security state has too many principals: ".to_owned();
                crate::text::push_decimal(&mut text, *count as u64);
                text
            },
            PersistenceError::TooManyCredentials { principal, count } => {
                let mut text: String = "principal ".to_owned();
                principal.push_debug(&mut text);
                text.append(" has too many persisted credentials: ");
                crate::text::push_decimal(&mut text, *count as u64);
                text
            },
            PersistenceError::TooManyPermissions { principal, count } => {
                let mut text: String = "principal ".to_owned();
                principal.push_debug(&mut text);
                text.append(" has too many persisted permissions: ");
                crate::text::push_decimal(&mut text, *count as u64);
                text
            },
            PersistenceError::DuplicatePrincipal(principal) => {
                let mut text: String = "duplicate persisted principal ".to_owned();
                principal.push_debug(&mut text);
                text
            },
            PersistenceError::DuplicateCredential(fingerprint) => {
                let mut text: String = "duplicate persisted credential ".to_owned();
                fingerprint.push_debug(&mut text);
                text
            },
            PersistenceError::InvalidPrincipalKind(value) => {
                let mut text: String = "invalid persisted principal kind ".to_owned();
                crate::text::push_decimal(&mut text, *value as u64);
                text
            },
            PersistenceError::InvalidPermission(value) => {
                let mut text: String = "invalid persisted permission ".to_owned();
                crate::text::push_decimal(&mut text, *value as u64);
                text
            },
            PersistenceError::InvalidCredentialState(value) => {
                let mut text: String = "invalid persisted credential state ".to_owned();
                crate::text::push_decimal(&mut text, *value as u64);
                text
            },
            PersistenceError::InvalidCredentialTime(fingerprint) => {
                let mut text: String = "invalid persisted credential times for ".to_owned();
                fingerprint.push_debug(&mut text);
                text
            },
            PersistenceError::Authorization(error) => {
                let mut text: String = "persisted authorization state violates invariants: ".to_owned();
                error.push_debug(&mut text);
                text
            },
        }
    }
}

/// Refuses a state of more than four mebibytes.
pub fn check_state_size(bytes: usize) -> (result: Result<(), PersistenceError>)
    ensures
        result == if bytes > MAX_STATE_BYTES {
            Err(PersistenceError::StateTooLarge { bytes, maximum: MAX_STATE_BYTES })
        } else {
            Ok(())
        },
{
    if bytes > MAX_STATE_BYTES {
        return Err(PersistenceError::StateTooLarge { bytes, maximum: MAX_STATE_BYTES });
    }
    Ok(())
}

#[derive(Debug, Clone, Copy, PartialEq, Eq)]
pub struct PersistedCredential {
    pub fingerprint: [u8; 32],
    pub state: u8,
    pub issued_at_unix_ms: u64,
    pub expires_at_unix_ms: Option<u64>,
    pub revoked_at_unix_ms: Option<u64>,
}

#[derive(Debug, Clone, PartialEq, Eq)]
pub struct PersistedPrincipal {
    pub id: [u8; 32],
    pub kind: u8,
    pub enabled: bool,
    pub permissions: Vec<u8>,
    pub credentials: Vec<PersistedCredential>,
}

#[derive(Debug, Clone, PartialEq, Eq)]
pub struct PersistedState {
    pub version: u32,
    pub principals: Vec<PersistedPrincipal>,
}

/// The number of a kind of principal.
pub open spec fn spec_kind_number(kind: PrincipalKind) -> u8 {
    match kind {
        PrincipalKind::Teacher => 1,
        PrincipalKind::StudentDevice => 2,
        PrincipalKind::Administrator => 3,
        PrincipalKind::Service => 4,
        PrincipalKind::SessionWorker => 5,
    }
}

/// The kind of principal with a number.
pub open spec fn spec_kind(value: u8) -> Result<PrincipalKind, PersistenceError> {
    if value == 1 {
        Ok(PrincipalKind::Teacher)
    } else if value == 2 {
        Ok(PrincipalKind::StudentDevice)
    } else if value == 3 {
        Ok(PrincipalKind::Administrator)
    } else if value == 4 {
        Ok(PrincipalKind::Service)
    } else if value == 5 {
        Ok(PrincipalKind::SessionWorker)
    } else {
        Err(PersistenceError::InvalidPrincipalKind(value))
    }
}

/// The permission with a number.
pub open spec fn spec_permission(value: u8) -> Result<Permission, PersistenceError> {
    if exists|p: Permission| p.spec_number() == value {
        Ok(choose|p: Permission| p.spec_number() == value)
    } else {
        Err(PersistenceError::InvalidPermission(value))
    }
}

/// The number of a credential's state.
pub open spec fn spec_state_number(state: CredentialState) -> u8 {
    match state {
        CredentialState::Active => 1,
        CredentialState::Retiring => 2,
        CredentialState::Revoked => 3,
    }
}

/// The credential state with a number.
pub open spec fn spec_state(value: u8) -> Result<CredentialState, PersistenceError> {
    if value == 1 {
        Ok(CredentialState::Active)
    } else if value == 2 {
        Ok(CredentialState::Retiring)
    } else if value == 3 {
        Ok(CredentialState::Revoked)
    } else {
        Err(PersistenceError::InvalidCredentialState(value))
    }
}

/// Numbers and what they stand for belong together.
pub proof fn law_numbers_round_trip(
    kind: PrincipalKind,
    permission: Permission,
    state: CredentialState,
)
    ensures
        spec_kind(spec_kind_number(kind)) == Ok::<_, PersistenceError>(kind),
        spec_permission(permission.spec_number()) == Ok::<_, PersistenceError>(permission),
        spec_state(spec_state_number(state)) == Ok::<_, PersistenceError>(state),
{
    let found = choose|p: Permission| p.spec_number() == permission.spec_number();
    assert(permission.spec_number() == permission.spec_number());
    Permission::lemma_rank_injective(found, permission);
}

fn principal_kind_to_u8(kind: PrincipalKind) -> (value: u8)
    ensures
        value == spec_kind_number(kind),
{
    match kind {
        PrincipalKind::Teacher => 1,
        PrincipalKind::StudentDevice => 2,
        PrincipalKind::Administrator => 3,
        PrincipalKind::Service => 4,
        PrincipalKind::SessionWorker => 5,
    }
}

fn principal_kind_from_u8(value: u8) -> (kind: Result<PrincipalKind, PersistenceError>)
    ensures
        kind == spec_kind(value),
{
    match value {
        1 => Ok(PrincipalKind::Teacher),
        2 => Ok(PrincipalKind::StudentDevice),
        3 => Ok(PrincipalKind::Administrator),
        4 => Ok(PrincipalKind::Service),
        5 => Ok(PrincipalKind::SessionWorker),
        _ => Err(PersistenceError::InvalidPrincipalKind(value)),
    }
}

fn permission_from_u8(value: u8) -> (permission: Result<Permission, PersistenceError>)
    ensures
        permission == spec_permission(value),
{
    let permission = match value {
        1 => Permission::ViewMonitoring,
        2 => Permission::ViewInteractive,
        3 => Permission::ControlInput,
        4 => Permission::StartPresentation,
        5 => Permission::ReceivePresentation,
        6 => Permission::SendFile,
        7 => Permission::ReceiveFile,
        8 => Permission::LockDevice,
        9 => Permission::RestartDevice,
        10 => Permission::ShutdownDevice,
        11 => Permission::ManageEnrollment,
        12 => Permission::ManagePolicy,
        13 => Permission::ReadClipboard,
        14 => Permission::WriteClipboard,
        _ => return Err(PersistenceError::InvalidPermission(value)),
    };
    proof {
        assert(permission.spec_number() == value);
        law_numbers_round_trip(PrincipalKind::Teacher, permission, CredentialState::Active);
    }
    Ok(permission)
}

fn credential_state_to_u8(state: CredentialState) -> (value: u8)
    ensures
        value == spec_state_number(state),
{
    match state {
        CredentialState::Active => 1,
        CredentialState::Retiring => 2,
        CredentialState::Revoked => 3,
    }
}

fn credential_state_from_u8(value: u8) -> (state: Result<CredentialState, PersistenceError>)
    ensures
        state == spec_state(value),
{
    match value {
        1 => Ok(CredentialState::Active),
        2 => Ok(CredentialState::Retiring),
        3 => Ok(CredentialState::Revoked),
        _ => Err(PersistenceError::InvalidCredentialState(value)),
    }
}

impl PersistedCredential {
    /// A record as it is kept.
    pub open spec fn of(record: CredentialRecord) -> Self {
        PersistedCredential {
            fingerprint: record.fingerprint.0,
            state: spec_state_number(record.state),
            issued_at_unix_ms: record.issued_at_unix_ms,
            expires_at_unix_ms: record.expires_at_unix_ms,
            revoked_at_unix_ms: record.revoked_at_unix_ms,
        }
    }

    /// The credential expires behind its issue and is not revoked before it.
    pub open spec fn spec_times_in_order(self) -> bool {
        &&& (self.expires_at_unix_ms matches Some(expires) ==> expires > self.issued_at_unix_ms)
        &&& (self.revoked_at_unix_ms matches Some(revoked) ==> revoked >= self.issued_at_unix_ms)
    }

    /// The record that was kept. A revoked credential has a time of revocation, and no other
    /// credential has.
    pub open spec fn spec_into_record(self) -> Result<CredentialRecord, PersistenceError> {
        let fingerprint = CredentialFingerprint(self.fingerprint);
        if !self.spec_times_in_order() {
            Err(PersistenceError::InvalidCredentialTime(fingerprint))
        } else {
            match spec_state(self.state) {
                Err(error) => Err(error),
                Ok(state) => if (state == CredentialState::Revoked) != (self.revoked_at_unix_ms
                    is Some) {
                    Err(PersistenceError::InvalidCredentialTime(fingerprint))
                } else {
                    Ok(
                        CredentialRecord {
                            fingerprint,
                            state,
                            issued_at_unix_ms: self.issued_at_unix_ms,
                            expires_at_unix_ms: self.expires_at_unix_ms,
                            revoked_at_unix_ms: self.revoked_at_unix_ms,
                        },
                    )
                },
            }
        }
    }

    #[must_use]
    pub fn from_record(record: &CredentialRecord) -> (kept: Self)
        ensures
            kept == Self::of(*record),
    {
        PersistedCredential {
            fingerprint: record.fingerprint.0,
            state: credential_state_to_u8(record.state),
            issued_at_unix_ms: record.issued_at_unix_ms,
            expires_at_unix_ms: record.expires_at_unix_ms,
            revoked_at_unix_ms: record.revoked_at_unix_ms,
        }
    }

    pub fn into_record(self) -> (result: Result<CredentialRecord, PersistenceError>)
        ensures
            result == self.spec_into_record(),
    {
        let fingerprint = CredentialFingerprint(self.fingerprint);
        let expires_in_order = match self.expires_at_unix_ms {
            Some(expires) => expires > self.issued_at_unix_ms,
            None => true,
        };
        let revoked_in_order = match self.revoked_at_unix_ms {
            Some(revoked) => revoked >= self.issued_at_unix_ms,
            None => true,
        };
        if !expires_in_order || !revoked_in_order {
            return Err(PersistenceError::InvalidCredentialTime(fingerprint));
        }
        let state = match credential_state_from_u8(self.state) {
            Ok(state) => state,
            Err(error) => return Err(error),
        };
        if (state == CredentialState::Revoked) != self.revoked_at_unix_ms.is_some() {
            return Err(PersistenceError::InvalidCredentialTime(fingerprint));
        }
        Ok(
            CredentialRecord {
                fingerprint,
                state,
                issued_at_unix_ms: self.issued_at_unix_ms,
                expires_at_unix_ms: self.expires_at_unix_ms,
                revoked_at_unix_ms: self.revoked_at_unix_ms,
            },
        )
    }
}

/// The permissions with the given numbers, up to the first number that stands for none.
pub open spec fn spec_permissions(numbers: Seq<u8>) -> Result<Set<Permission>, PersistenceError>
    decreases numbers.len(),
{
    if numbers.len() == 0 {
        Ok(Set::empty())
    } else {
        match spec_permissions(numbers.drop_last()) {
            Err(error) => Err(error),
            Ok(front) => match spec_permission(numbers.last()) {
                Err(error) => Err(error),
                Ok(permission) => Ok(front.insert(permission)),
            },
        }
    }
}

/// The credentials that were kept, up to the first that is refused or comes twice.
pub open spec fn spec_credentials(kept: Seq<PersistedCredential>) -> Result<
    Map<CredentialFingerprint, CredentialRecord>,
    PersistenceError,
>
    decreases kept.len(),
{
    if kept.len() == 0 {
        Ok(Map::empty())
    } else {
        match spec_credentials(kept.drop_last()) {
            Err(error) => Err(error),
            Ok(front) => match kept.last().spec_into_record() {
                Err(error) => Err(error),
                Ok(record) => if front.contains_key(record.fingerprint) {
                    Err(PersistenceError::DuplicateCredential(record.fingerprint))
                } else {
                    Ok(front.insert(record.fingerprint, record))
                },
            },
        }
    }
}

impl PersistedPrincipal {
    /// The principal that was kept.
    pub open spec fn spec_into_principal(self) -> Result<PrincipalView, PersistenceError> {
        let id = PrincipalId(self.id);
        if self.permissions@.len() > MAX_PERMISSIONS_PER_PRINCIPAL {
            Err(
                PersistenceError::TooManyPermissions {
                    principal: id,
                    count: self.permissions@.len() as usize,
                },
            )
        } else if self.credentials@.len() > MAX_CREDENTIALS_PER_PRINCIPAL {
            Err(
                PersistenceError::TooManyCredentials {
                    principal: id,
                    count: self.credentials@.len() as usize,
                },
            )
        } else {
            match spec_permissions(self.permissions@) {
                Err(error) => Err(error),
                Ok(permissions) => match spec_credentials(self.credentials@) {
                    Err(error) => Err(error),
                    Ok(credentials) => match spec_kind(self.kind) {
                        Err(error) => Err(error),
                        Ok(kind) => Ok(
                            PrincipalView {
                                id,
                                kind,
                                enabled: self.enabled,
                                permissions,
                                credentials,
                            },
                        ),
                    },
                },
            }
        }
    }

    /// This is how a principal is kept: its permissions by number and its credentials, each
    /// in ascending order.
    pub open spec fn keeps(self, principal: PrincipalView) -> bool {
        &&& self.id == principal.id.0
        &&& self.kind == spec_kind_number(principal.kind)
        &&& self.enabled == principal.enabled
        &&& exists|permissions: Seq<Permission>| #[trigger]
            crate::ordered::lists(permissions, principal.permissions) && self.permissions@
                == permissions.map_values(|p: Permission| p.spec_number())
        &&& exists|keys: Seq<CredentialFingerprint>| #[trigger]
            crate::ordered::lists(keys, principal.credentials.dom()) && self.credentials@
                == keys.map_values(
                |f: CredentialFingerprint| PersistedCredential::of(principal.credentials[f]),
            )
    }

    #[must_use]
    pub fn from_principal(principal: &Principal) -> (kept: Self)
        requires
            principal.wf(),
        ensures
            kept.keeps(principal@),
    {
        let mut permissions: Vec<u8> = Vec::new();
        let ghost members = principal.permissions.spec_members();
        let ghost numbers = members.map_values(|p: Permission| p.spec_number());
        let mut i: usize = 0;
        while i < principal.permissions.len()
            invariant
                principal.wf(),
                members == principal.permissions.spec_members(),
                numbers == members.map_values(|p: Permission| p.spec_number()),
                i <= members.len(),
                permissions@ == numbers.take(i as int),
            decreases members.len() - i,
        {
            permissions.push(principal.permissions.at(i).number());
            i += 1;
            proof {
                assert(permissions@ =~= numbers.take(i as int));
            }
        }
        let mut credentials: Vec<PersistedCredential> = Vec::new();
        let ghost entries = principal.credentials.spec_entries();
        let ghost keys = crate::ordered::entry_keys(entries);
        let ghost records = keys.map_values(
            |f: CredentialFingerprint| PersistedCredential::of(principal.credentials@[f]),
        );
        proof {
            principal.permissions.lemma_view();
            principal.credentials.lemma_view();
            crate::ordered::lemma_entries_listed(entries);
        }
        let mut j: usize = 0;
        while j < principal.credentials.len()
            invariant
                principal.wf(),
                entries == principal.credentials.spec_entries(),
                keys == crate::ordered::entry_keys(entries),
                records == keys.map_values(
                    |f: CredentialFingerprint| PersistedCredential::of(principal.credentials@[f]),
                ),
                j <= entries.len(),
                credentials@ == records.take(j as int),
            decreases entries.len() - j,
        {
            credentials.push(PersistedCredential::from_record(principal.credentials.value_at(j)));
            j += 1;
            proof {
                assert(credentials@ =~= records.take(j as int));
            }
        }
        let kept = PersistedPrincipal {
            id: principal.id.0,
            kind: principal_kind_to_u8(principal.kind),
            enabled: principal.enabled,
            permissions,
            credentials,
        };
        proof {
            assert(numbers.take(i as int) =~= numbers);
            assert(records.take(j as int) =~= records);
            assert(crate::ordered::lists(members, principal@.permissions));
            assert(crate::ordered::lists(keys, principal@.credentials.dom()));
        }
        kept
    }

    pub fn into_principal(self) -> (result: Result<Principal, PersistenceError>)
        ensures
            match (result, self.spec_into_principal()) {
                (Ok(principal), Ok(expected)) => principal.wf() && principal@ == expected,
                (Err(error), Err(expected)) => error == expected,
                _ => false,
            },
    {
        let principal_id = PrincipalId(self.id);
        if self.permissions.len() > MAX_PERMISSIONS_PER_PRINCIPAL {
            return Err(
                PersistenceError::TooManyPermissions {
                    principal: principal_id,
                    count: self.permissions.len(),
                },
            );
        }
        if self.credentials.len() > MAX_CREDENTIALS_PER_PRINCIPAL {
            return Err(
                PersistenceError::TooManyCredentials {
                    principal: principal_id,
                    count: self.credentials.len(),
                },
            );
        }
        let mut permissions: OrderedSet<Permission> = OrderedSet::new();
        let mut i: usize = 0;
        while i < self.permissions.len()
            invariant
                i <= self.permissions@.len(),
                self.permissions@.len() <= MAX_PERMISSIONS_PER_PRINCIPAL,
                self.credentials@.len() <= MAX_CREDENTIALS_PER_PRINCIPAL,
                permissions.wf(),
                spec_permissions(self.permissions@.take(i as int)) == Ok::<_, PersistenceError>(
                    permissions@,
                ),
            decreases self.permissions@.len() - i,
        {
            proof {
                assert(self.permissions@.take(i + 1).drop_last() =~= self.permissions@.take(
                    i as int,
                ));
            }
            match permission_from_u8(self.permissions[i]) {
                Ok(permission) => {
                    permissions.insert(permission);
                },
                Err(error) => {
                    proof {
                        lemma_permissions_prefix(self.permissions@, i + 1);
                    }
                    return Err(error);
                },
            }
            i += 1;
        }
        proof {
            assert(self.permissions@.take(i as int) =~= self.permissions@);
        }
        let mut credentials: OrderedMap<CredentialFingerprint, CredentialRecord> =
            OrderedMap::new();
        let mut j: usize = 0;
        while j < self.credentials.len()
            invariant
                j <= self.credentials@.len(),
                credentials.wf(),
                spec_permissions(self.permissions@) is Ok,
                self.permissions@.len() <= MAX_PERMISSIONS_PER_PRINCIPAL,
                self.credentials@.len() <= MAX_CREDENTIALS_PER_PRINCIPAL,
                spec_credentials(self.credentials@.take(j as int)) == Ok::<_, PersistenceError>(
                    credentials@,
                ),
            decreases self.credentials@.len() - j,
        {
            proof {
                assert(self.credentials@.take(j + 1).drop_last() =~= self.credentials@.take(
                    j as int,
                ));
            }
            let record = match self.credentials[j].into_record() {
                Ok(record) => record,
                Err(error) => {
                    proof {
                        lemma_credentials_prefix(self.credentials@, j + 1);
                    }
                    return Err(error);
                },
            };
            let fingerprint = record.fingerprint;
            let previous = credentials.insert(fingerprint, record);
            if previous.is_some() {
                proof {
                    lemma_credentials_prefix(self.credentials@, j + 1);
                }
                return Err(PersistenceError::DuplicateCredential(fingerprint));
            }
            j += 1;
        }
        proof {
            assert(self.credentials@.take(j as int) =~= self.credentials@);
        }
        let kind = match principal_kind_from_u8(self.kind) {
            Ok(kind) => kind,
            Err(error) => return Err(error),
        };
        Ok(Principal { id: principal_id, kind, enabled: self.enabled, permissions, credentials })
    }
}

/// What refuses the first numbers refuses them all.
proof fn lemma_permissions_prefix(numbers: Seq<u8>, i: int)
    requires
        0 <= i <= numbers.len(),
        spec_permissions(numbers.take(i)) is Err,
    ensures
        spec_permissions(numbers) == spec_permissions(numbers.take(i)),
    decreases numbers.len(),
{
    if i == numbers.len() {
        assert(numbers.take(i) =~= numbers);
    } else {
        assert(numbers.drop_last().take(i) =~= numbers.take(i));
        lemma_permissions_prefix(numbers.drop_last(), i);
    }
}

/// What refuses the first credentials refuses them all.
proof fn lemma_credentials_prefix(kept: Seq<PersistedCredential>, i: int)
    requires
        0 <= i <= kept.len(),
        spec_credentials(kept.take(i)) is Err,
    ensures
        spec_credentials(kept) == spec_credentials(kept.take(i)),
    decreases kept.len(),
{
    if i == kept.len() {
        assert(kept.take(i) =~= kept);
    } else {
        assert(kept.drop_last().take(i) =~= kept.take(i));
        lemma_credentials_prefix(kept.drop_last(), i);
    }
}

/// The store that the kept principals make up, up to the first that is refused.
pub open spec fn spec_store(kept: Seq<PersistedPrincipal>) -> Result<StoreView, PersistenceError>
    decreases kept.len(),
{
    if kept.len() == 0 {
        Ok(StoreView { principals: Map::empty(), owners: Map::empty() })
    } else {
        match spec_store(kept.drop_last()) {
            Err(error) => Err(error),
            Ok(store) => {
                let id = PrincipalId(kept.last().id);
                if store.principals.contains_key(id) {
                    Err(PersistenceError::DuplicatePrincipal(id))
                } else {
                    match kept.last().spec_into_principal() {
                        Err(error) => Err(error),
                        Ok(principal) => match store.spec_upsert(principal) {
                            Err(error) => Err(PersistenceError::Authorization(error)),
                            Ok(after) => Ok(after),
                        },
                    }
                }
            },
        }
    }
}

/// What refuses the first principals refuses them all.
proof fn lemma_store_prefix(kept: Seq<PersistedPrincipal>, i: int)
    requires
        0 <= i <= kept.len(),
        spec_store(kept.take(i)) is Err,
    ensures
        spec_store(kept) == spec_store(kept.take(i)),
    decreases kept.len(),
{
    if i == kept.len() {
        assert(kept.take(i) =~= kept);
    } else {
        assert(kept.drop_last().take(i) =~= kept.take(i));
        lemma_store_prefix(kept.drop_last(), i);
    }
}

impl PersistedState {
    /// The store that was kept.
    pub open spec fn spec_into_store(self) -> Result<StoreView, PersistenceError> {
        if self.version != STATE_VERSION {
            Err(PersistenceError::UnsupportedVersion(self.version))
        } else if self.principals@.len() > MAX_PRINCIPALS {
            Err(PersistenceError::TooManyPrincipals(self.principals@.len() as usize))
        } else {
            spec_store(self.principals@)
        }
    }

    /// This is how a store is kept: its principals in ascending order.
    pub open spec fn keeps(self, store: StoreView) -> bool {
        &&& self.version == STATE_VERSION
        &&& exists|ids: Seq<PrincipalId>| #[trigger]
            crate::ordered::lists(ids, store.principals.dom()) && keeps_each(
                self.principals@,
                ids,
                store,
            )
    }

    #[must_use]
    pub fn from_store(store: &AuthorizationStore) -> (kept: Self)
        requires
            store.wf(),
        ensures
            kept.keeps(store@),
    {
        let mut principals: Vec<PersistedPrincipal> = Vec::new();
        let ghost entries = store.principals.spec_entries();
        let ghost ids = crate::ordered::entry_keys(entries);
        proof {
            store.principals.lemma_view();
            crate::ordered::lemma_entries_listed(entries);
            assert(store@.principals.dom() =~= store.principals@.dom());
        }
        let mut i: usize = 0;
        while i < store.principals.len()
            invariant
                store.wf(),
                entries == store.principals.spec_entries(),
                ids == crate::ordered::entry_keys(entries),
                i <= entries.len(),
                principals@.len() == i,
                forall|j: int|
                    0 <= j < i ==> (#[trigger] principals@[j]).keeps(store@.principals[ids[j]]),
            decreases entries.len() - i,
        {
            let ghost id = store.principals.spec_entries()[i as int].0;
            proof {
                store.principals.lemma_view();
                assert(store.principals@.contains_key(id));
                assert(ids[i as int] == id);
            }
            let principal = store.principals.value_at(i);
            principals.push(PersistedPrincipal::from_principal(principal));
            i += 1;
        }
        let kept = PersistedState { version: STATE_VERSION, principals };
        proof {
            assert(crate::ordered::lists(ids, store@.principals.dom()));
            assert(keeps_each(kept.principals@, ids, store@));
        }
        kept
    }

    pub fn into_store(self) -> (result: Result<AuthorizationStore, PersistenceError>)
        ensures
            match (result, self.spec_into_store()) {
                (Ok(store), Ok(expected)) => store.wf() && store@ == expected,
                (Err(error), Err(expected)) => error == expected,
                _ => false,
            },
    {
        if self.version != STATE_VERSION {
            return Err(PersistenceError::UnsupportedVersion(self.version));
        }
        if self.principals.len() > MAX_PRINCIPALS {
            return Err(PersistenceError::TooManyPrincipals(self.principals.len()));
        }
        let ghost kept = self.principals@;
        let mut seen: OrderedSet<PrincipalId> = OrderedSet::new();
        let mut store = AuthorizationStore::default();
        let mut remaining = self.principals;
        let mut done: usize = 0;
        let total: usize = remaining.len();
        proof {
            assert(seen@ =~= store@.principals.dom());
            assert(kept.skip(0) =~= kept);
        }
        while done < total
            invariant
                done <= total == kept.len(),
                kept == self.principals@,
                self.version == STATE_VERSION,
                total <= MAX_PRINCIPALS,
                remaining@ == kept.skip(done as int),
                seen.wf(),
                store.wf(),
                seen@ == store@.principals.dom(),
                spec_store(kept.take(done as int)) == Ok::<_, PersistenceError>(store@),
            decreases total - done,
        {
            proof {
                assert(kept.take(done + 1).drop_last() =~= kept.take(done as int));
                assert(kept.take(done + 1).last() == kept[done as int]);
            }
            let principal = remaining.remove(0);
            proof {
                assert(remaining@ =~= kept.skip(done + 1));
            }
            let id = PrincipalId(principal.id);
            if !seen.insert(id) {
                proof {
                    lemma_store_prefix(kept, done + 1);
                }
                return Err(PersistenceError::DuplicatePrincipal(id));
            }
            let restored = match principal.into_principal() {
                Ok(restored) => restored,
                Err(error) => {
                    proof {
                        lemma_store_prefix(kept, done + 1);
                    }
                    return Err(error);
                },
            };
            match store.upsert(restored) {
                Ok(()) => {},
                Err(error) => {
                    proof {
                        lemma_store_prefix(kept, done + 1);
                    }
                    return Err(PersistenceError::from(error));
                },
            }
            proof {
                assert(seen@ =~= store@.principals.dom());
            }
            done += 1;
        }
        proof {
            assert(kept.take(done as int) =~= kept);
        }
        Ok(store)
    }
}

/// Each principal is kept at the place of its identifier.
pub open spec fn keeps_each(
    kept: Seq<PersistedPrincipal>,
    ids: Seq<PrincipalId>,
    store: StoreView,
) -> bool {
    &&& kept.len() == ids.len()
    &&& forall|i: int| 0 <= i < kept.len() ==> (#[trigger] kept[i]).keeps(store.principals[ids[i]])
}

/// A credential can be kept: it is filed under its own fingerprint, its times are in order,
/// and it has a time of revocation exactly where it is revoked.
pub open spec fn is_keepable_credential(
    fingerprint: CredentialFingerprint,
    record: CredentialRecord,
) -> bool {
    &&& record.fingerprint == fingerprint
    &&& PersistedCredential::of(record).spec_times_in_order()
    &&& (record.state == CredentialState::Revoked) == (record.revoked_at_unix_ms is Some)
}

/// A store can be kept: it does not exceed the limits, and each credential can be kept.
pub open spec fn is_keepable(store: StoreView) -> bool {
    &&& store.principals.dom().len() <= MAX_PRINCIPALS
    &&& forall|id: PrincipalId| #[trigger]
        store.principals.contains_key(id) ==> store.principals[id].credentials.dom().len()
            <= MAX_CREDENTIALS_PER_PRINCIPAL
    &&& forall|id: PrincipalId, f: CredentialFingerprint|
        #![trigger store.principals[id].credentials.contains_key(f)]
        store.principals.contains_key(id) && store.principals[id].credentials.contains_key(f)
            ==> is_keepable_credential(f, store.principals[id].credentials[f])
}

/// As many permissions as there are, at most.
proof fn lemma_permission_count(permissions: Seq<Permission>)
    requires
        crate::ordered::keys_ascend(permissions),
    ensures
        permissions.len() <= 14,
        permissions.len() > 0 ==> permissions.last().spec_number() >= permissions.len(),
    decreases permissions.len(),
{
    if permissions.len() > 0 {
        let front = permissions.drop_last();
        lemma_permission_count(front);
        if front.len() > 0 {
            assert(permissions[front.len() - 1].rank() < permissions[front.len() as int].rank());
        }
    }
}

proof fn lemma_permissions_restored(permissions: Seq<Permission>)
    ensures
        spec_permissions(permissions.map_values(|p: Permission| p.spec_number())) == Ok::<
            _,
            PersistenceError,
        >(permissions.to_set()),
    decreases permissions.len(),
{
    let numbers = permissions.map_values(|p: Permission| p.spec_number());
    if permissions.len() > 0 {
        let front = permissions.drop_last();
        let last = permissions.last();
        lemma_permissions_restored(front);
        assert(numbers.drop_last() =~= front.map_values(|p: Permission| p.spec_number()));
        law_numbers_round_trip(PrincipalKind::Teacher, last, CredentialState::Active);
        lemma_to_set_push(front, last);
        assert(permissions =~= front.push(last));
    } else {
        assert(permissions.to_set() =~= Set::<Permission>::empty());
    }
}

proof fn lemma_to_set_push<T>(front: Seq<T>, last: T)
    ensures
        front.push(last).to_set() == front.to_set().insert(last),
{
    assert forall|t: T| front.push(last).to_set().contains(t) <==> front.to_set().insert(
        last,
    ).contains(t) by {
        if front.contains(t) {
            let i = choose|i: int| 0 <= i < front.len() && front[i] == t;
            assert(front.push(last)[i] == t);
        }
        assert(front.push(last)[front.len() as int] == last);
    }
    assert(front.push(last).to_set() =~= front.to_set().insert(last));
}

/// Ascending keys do not repeat.
proof fn lemma_last_is_new<K: OrderedKey>(keys: Seq<K>)
    requires
        crate::ordered::keys_ascend(keys),
        keys.len() > 0,
    ensures
        !keys.drop_last().contains(keys.last()),
        crate::ordered::keys_ascend(keys.drop_last()),
        keys.to_set() == keys.drop_last().to_set().insert(keys.last()),
{
    if keys.drop_last().contains(keys.last()) {
        let i = choose|i: int|
            0 <= i < keys.drop_last().len() && keys.drop_last()[i] == keys.last();
        assert(keys[i].rank() < keys[keys.len() - 1].rank());
    }
    let front = keys.drop_last();
    assert forall|i: int, j: int|
        #![trigger front[i], front[j]]
        0 <= i < j < front.len() implies front[i].rank() < front[j].rank() by {
        assert(keys[i].rank() < keys[j].rank());
    }
    lemma_to_set_push(keys.drop_last(), keys.last());
    assert(keys =~= keys.drop_last().push(keys.last()));
}

/// A set that is listed has as many members as the list.
proof fn lemma_listed_len<K: OrderedKey>(keys: Seq<K>)
    requires
        crate::ordered::keys_ascend(keys),
    ensures
        keys.to_set().finite(),
        keys.to_set().len() == keys.len(),
    decreases keys.len(),
{
    if keys.len() > 0 {
        lemma_last_is_new(keys);
        lemma_listed_len(keys.drop_last());
        assert(!keys.drop_last().to_set().contains(keys.last()));
    } else {
        assert(keys.to_set() =~= Set::<K>::empty());
    }
}

proof fn lemma_credentials_restored(
    keys: Seq<CredentialFingerprint>,
    credentials: Map<CredentialFingerprint, CredentialRecord>,
)
    requires
        crate::ordered::keys_ascend(keys),
        forall|f: CredentialFingerprint| #[trigger]
            keys.contains(f) ==> is_keepable_credential(f, credentials[f]),
    ensures
        spec_credentials(
            keys.map_values(|f: CredentialFingerprint| PersistedCredential::of(credentials[f])),
        ) == Ok::<_, PersistenceError>(
            Map::new(
                |f: CredentialFingerprint| keys.to_set().contains(f),
                |f: CredentialFingerprint| credentials[f],
            ),
        ),
    decreases keys.len(),
{
    let kept = keys.map_values(|f: CredentialFingerprint| PersistedCredential::of(credentials[f]));
    let all = Map::new(
        |f: CredentialFingerprint| keys.to_set().contains(f),
        |f: CredentialFingerprint| credentials[f],
    );
    if keys.len() > 0 {
        let front = keys.drop_last();
        let last = keys.last();
        lemma_last_is_new(keys);
        assert forall|f: CredentialFingerprint| #[trigger]
            front.contains(f) implies is_keepable_credential(f, credentials[f]) by {
            assert(keys.to_set().contains(f));
        }
        lemma_credentials_restored(front, credentials);
        assert(kept.drop_last() =~= front.map_values(
            |f: CredentialFingerprint| PersistedCredential::of(credentials[f]),
        ));
        let before = Map::new(
            |f: CredentialFingerprint| front.to_set().contains(f),
            |f: CredentialFingerprint| credentials[f],
        );
        assert(keys.contains(last)) by {
            assert(keys[keys.len() - 1] == last);
        }
        law_numbers_round_trip(
            PrincipalKind::Teacher,
            Permission::ViewMonitoring,
            credentials[last].state,
        );
        assert(kept.last().spec_into_record() == Ok::<_, PersistenceError>(credentials[last]));
        assert(all =~= before.insert(last, credentials[last]));
    } else {
        assert(all =~= Map::<CredentialFingerprint, CredentialRecord>::empty());
    }
}

proof fn lemma_principal_restored(kept: PersistedPrincipal, principal: PrincipalView)
    requires
        kept.keeps(principal),
        principal.credentials.dom().len() <= MAX_CREDENTIALS_PER_PRINCIPAL,
        forall|f: CredentialFingerprint| #[trigger]
            principal.credentials.contains_key(f) ==> is_keepable_credential(
                f,
                principal.credentials[f],
            ),
    ensures
        kept.spec_into_principal() == Ok::<_, PersistenceError>(principal),
{
    let permissions = choose|permissions: Seq<Permission>| #[trigger]
        crate::ordered::lists(permissions, principal.permissions) && kept.permissions@
            == permissions.map_values(|p: Permission| p.spec_number());
    let keys = choose|keys: Seq<CredentialFingerprint>| #[trigger]
        crate::ordered::lists(keys, principal.credentials.dom()) && kept.credentials@
            == keys.map_values(
            |f: CredentialFingerprint| PersistedCredential::of(principal.credentials[f]),
        );
    lemma_permission_count(permissions);
    lemma_permissions_restored(permissions);
    lemma_listed_len(keys);
    assert forall|f: CredentialFingerprint| #[trigger] keys.contains(
        f,
    ) implies is_keepable_credential(f, principal.credentials[f]) by {
        assert(keys.to_set().contains(f));
    }
    lemma_credentials_restored(keys, principal.credentials);
    law_numbers_round_trip(principal.kind, Permission::ViewMonitoring, CredentialState::Active);
    let restored = Map::new(
        |f: CredentialFingerprint| keys.to_set().contains(f),
        |f: CredentialFingerprint| principal.credentials[f],
    );
    assert(restored =~= principal.credentials);
}

/// The part of a store that belongs to some of its principals.
spec fn store_part(store: StoreView, ids: Set<PrincipalId>) -> StoreView {
    StoreView {
        principals: Map::new(
            |id: PrincipalId| store.principals.contains_key(id) && ids.contains(id),
            |id: PrincipalId| store.principals[id],
        ),
        owners: Map::new(
            |f: CredentialFingerprint| store.owners.contains_key(f) && ids.contains(store.owners[f]),
            |f: CredentialFingerprint| store.owners[f],
        ),
    }
}

proof fn lemma_store_restored(
    kept: Seq<PersistedPrincipal>,
    ids: Seq<PrincipalId>,
    store: StoreView,
)
    requires
        crate::ordered::keys_ascend(ids),
        ids.to_set().subset_of(store.principals.dom()),
        keeps_each(kept, ids, store),
        store.is_consistent(),
        is_keepable(store),
    ensures
        spec_store(kept) == Ok::<_, PersistenceError>(store_part(store, ids.to_set())),
    decreases kept.len(),
{
    let part = store_part(store, ids.to_set());
    if kept.len() > 0 {
        let front = kept.drop_last();
        let front_ids = ids.drop_last();
        let id = ids.last();
        lemma_last_is_new(ids);
        assert forall|i: int| 0 <= i < front.len() implies (#[trigger] front[i]).keeps(
            store.principals[front_ids[i]],
        ) by {
            assert(kept[i].keeps(store.principals[ids[i]]));
        }
        lemma_store_restored(front, front_ids, store);
        let before = store_part(store, front_ids.to_set());
        let principal = store.principals[id];
        assert(ids.to_set().contains(id));
        assert(store.principals.contains_key(id));
        assert(kept[kept.len() - 1].keeps(principal));
        assert(PrincipalId(kept.last().id) == id);
        assert forall|f: CredentialFingerprint| #[trigger]
            principal.credentials.contains_key(f) implies is_keepable_credential(
            f,
            principal.credentials[f],
        ) by {
            assert(store.principals[id].credentials.contains_key(f));
        }
        lemma_principal_restored(kept.last(), principal);
        assert forall|f: CredentialFingerprint| !before.spec_conflicts(principal, f) by {
            if before.spec_conflicts(principal, f) {
                assert(store.principals[id].credentials.contains_key(f));
            }
        }
        assert(before.spec_first_conflict(principal) is None);
        let after = before.spec_upserted(principal);
        assert forall|f: CredentialFingerprint| after.owners.contains_key(f)
            <==> part.owners.contains_key(f) by {
            if principal.credentials.contains_key(f) {
                assert(store.principals[id].credentials.contains_key(f));
            }
            if part.owners.contains_key(f) {
                assert(store.principals[store.owners[f]].credentials.contains_key(f));
            }
        }
        assert forall|f: CredentialFingerprint| after.owners.contains_key(
            f,
        ) implies #[trigger] after.owners[f] == part.owners[f] by {
            if principal.credentials.contains_key(f) {
                assert(store.principals[id].credentials.contains_key(f));
            }
        }
        assert(after.owners =~= part.owners);
        assert(after.principals =~= part.principals);
    } else {
        assert(ids.to_set() =~= Set::<PrincipalId>::empty());
        assert(part.principals =~= Map::<PrincipalId, PrincipalView>::empty());
        assert(part.owners =~= Map::<CredentialFingerprint, PrincipalId>::empty());
    }
}

/// What was kept of a store is restored as that store.
pub proof fn law_kept_store_is_restored(kept: PersistedState, store: StoreView)
    requires
        kept.keeps(store),
        store.is_consistent(),
        is_keepable(store),
    ensures
        kept.spec_into_store() == Ok::<_, PersistenceError>(store),
{
    let ids = choose|ids: Seq<PrincipalId>| #[trigger]
        crate::ordered::lists(ids, store.principals.dom()) && keeps_each(
            kept.principals@,
            ids,
            store,
        );
    lemma_listed_len(ids);
    lemma_store_restored(kept.principals@, ids, store);
    let part = store_part(store, ids.to_set());
    assert forall|f: CredentialFingerprint| #[trigger] store.owners.contains_key(
        f,
    ) implies ids.to_set().contains(store.owners[f]) by {}
    assert(part.principals =~= store.principals);
    assert(part.owners =~= store.owners);
}

/// The five kinds and the three states have the numbers from one on, and no other number is one.
pub proof fn law_kept_numbers(value: u8)
    ensures
        spec_kind(value) is Ok <==> 1 <= value <= 5,
        spec_state(value) is Ok <==> 1 <= value <= 3,
        spec_permission(value) is Ok <==> 1 <= value <= 14,
        spec_kind(value) matches Ok(kind) ==> spec_kind_number(kind) == value,
        spec_state(value) matches Ok(state) ==> spec_state_number(state) == value,
        spec_permission(value) matches Ok(permission) ==> permission.spec_number() == value,
{
    assert(Permission::ViewMonitoring.spec_number() == 1);
    assert(Permission::ViewInteractive.spec_number() == 2);
    assert(Permission::ControlInput.spec_number() == 3);
    assert(Permission::StartPresentation.spec_number() == 4);
    assert(Permission::ReceivePresentation.spec_number() == 5);
    assert(Permission::SendFile.spec_number() == 6);
    assert(Permission::ReceiveFile.spec_number() == 7);
    assert(Permission::LockDevice.spec_number() == 8);
    assert(Permission::RestartDevice.spec_number() == 9);
    assert(Permission::ShutdownDevice.spec_number() == 10);
    assert(Permission::ManageEnrollment.spec_number() == 11);
    assert(Permission::ManagePolicy.spec_number() == 12);
    assert(Permission::ReadClipboard.spec_number() == 13);
    assert(Permission::WriteClipboard.spec_number() == 14);
}

/// A credential is read if and only if its state is one, it expires after its issue, it was not
/// revoked before that, and it has a time of revocation if and only if it is revoked. It comes out
/// as it was kept.
pub proof fn law_sound_credentials_are_read(kept: PersistedCredential)
    ensures
        ({
            let result = kept.spec_into_record();
            let expires = kept.expires_at_unix_ms;
            let revoked = kept.revoked_at_unix_ms;
            &&& result is Ok <==> {
                &&& kept.state == 1 || kept.state == 2 || kept.state == 3
                &&& expires is Some ==> expires->Some_0 > kept.issued_at_unix_ms
                &&& revoked is Some ==> revoked->Some_0 >= kept.issued_at_unix_ms
                &&& kept.state == 3 <==> revoked is Some
            }
            &&& result matches Ok(record) ==> {
                &&& record.fingerprint.0 == kept.fingerprint
                &&& record.issued_at_unix_ms == kept.issued_at_unix_ms
                &&& record.expires_at_unix_ms == expires
                &&& record.revoked_at_unix_ms == revoked
                &&& (record.state == CredentialState::Active) == (kept.state == 1)
                &&& (record.state == CredentialState::Revoked) == (kept.state == 3)
            }
        }),
{
}

/// The permissions that are read are exactly those whose numbers were kept, and a number that is
/// none is told.
pub proof fn law_kept_permissions_are_read(numbers: Seq<u8>)
    ensures
        spec_permissions(numbers) is Ok <==> forall|i: int|
            0 <= i < numbers.len() ==> 1 <= #[trigger] numbers[i] <= 14,
        spec_permissions(numbers) matches Ok(permissions) ==> forall|p: Permission| #[trigger]
            permissions.contains(p) <==> numbers.contains(p.spec_number()),
    decreases numbers.len(),
{
    if numbers.len() > 0 {
        let front = numbers.drop_last();
        let last = numbers.last();
        law_kept_permissions_are_read(front);
        law_kept_numbers(last);
        assert(numbers =~= front.push(last));
        if spec_permissions(numbers) is Ok {
            assert forall|i: int| 0 <= i < numbers.len() implies 1 <= #[trigger] numbers[i]
                <= 14 by {
                if i < front.len() {
                    assert(front[i] == numbers[i]);
                }
            }
            let permissions = spec_permissions(numbers)->Ok_0;
            assert forall|p: Permission| #[trigger] permissions.contains(p) <==> numbers.contains(
                p.spec_number(),
            ) by {
                if front.contains(p.spec_number()) {
                    let i = choose|i: int| 0 <= i < front.len() && front[i] == p.spec_number();
                    assert(numbers[i] == p.spec_number());
                }
                if p.spec_number() == last {
                    assert(numbers[front.len() as int] == p.spec_number());
                }
                if numbers.contains(p.spec_number()) {
                    let i = choose|i: int| 0 <= i < numbers.len() && numbers[i] == p.spec_number();
                    assert(i < front.len() ==> front[i] == p.spec_number());
                }
            }
        } else if forall|i: int| 0 <= i < numbers.len() ==> 1 <= #[trigger] numbers[i] <= 14 {
            assert forall|i: int| 0 <= i < front.len() implies 1 <= #[trigger] front[i] <= 14 by {
                assert(front[i] == numbers[i]);
            }
            assert(1 <= numbers[front.len() as int] <= 14);
        }
    }
}

/// A principal comes out as it was kept, where it has at most 32 permissions and 16 credentials.
pub proof fn law_kept_principals_are_read(kept: PersistedPrincipal)
    ensures
        ({
            let result = kept.spec_into_principal();
            &&& kept.permissions@.len() > 32 ==> result is Err
            &&& kept.credentials@.len() > 16 ==> result is Err
            &&& kept.kind == 0 || kept.kind > 5 ==> result is Err
            &&& spec_permissions(kept.permissions@) is Err ==> result is Err
            &&& spec_credentials(kept.credentials@) is Err ==> result is Err
            &&& kept.permissions@.len() <= 32 && kept.credentials@.len() <= 16 && 1 <= kept.kind
                <= 5 && spec_permissions(kept.permissions@) is Ok && spec_credentials(
                kept.credentials@,
            ) is Ok ==> result is Ok
            &&& result matches Ok(principal) ==> {
                &&& principal.id.0 == kept.id
                &&& principal.enabled == kept.enabled
                &&& spec_kind_number(principal.kind) == kept.kind
                &&& Ok::<_, PersistenceError>(principal.permissions) == spec_permissions(
                    kept.permissions@,
                )
                &&& Ok::<_, PersistenceError>(principal.credentials) == spec_credentials(
                    kept.credentials@,
                )
            }
        }),
{
    law_kept_numbers(kept.kind);
}

/// Every credential that was kept is read under its own fingerprint, and no other is.
pub proof fn law_kept_credentials_are_read(kept: Seq<PersistedCredential>)
    ensures
        spec_credentials(kept) matches Ok(credentials) ==> {
            &&& forall|i: int|
                0 <= i < kept.len() ==> (#[trigger] kept[i]).spec_into_record() is Ok
                    && credentials.contains_key(CredentialFingerprint(kept[i].fingerprint))
                    && credentials[CredentialFingerprint(kept[i].fingerprint)]
                    == kept[i].spec_into_record()->Ok_0
            &&& forall|i: int, j: int|
                #![trigger kept[i], kept[j]]
                0 <= i < j < kept.len() ==> kept[i].fingerprint != kept[j].fingerprint
            &&& forall|f: CredentialFingerprint| #[trigger]
                credentials.contains_key(f) ==> exists|i: int|
                    0 <= i < kept.len() && (#[trigger] kept[i]).fingerprint == f.0
        },
    decreases kept.len(),
{
    if kept.len() > 0 && spec_credentials(kept) is Ok {
        let front = kept.drop_last();
        law_kept_credentials_are_read(front);
        let before = spec_credentials(front)->Ok_0;
        let after = spec_credentials(kept)->Ok_0;
        assert forall|i: int| 0 <= i < kept.len() implies (#[trigger] kept[i]).spec_into_record()
            is Ok && after.contains_key(CredentialFingerprint(kept[i].fingerprint))
            && after[CredentialFingerprint(kept[i].fingerprint)]
            == kept[i].spec_into_record()->Ok_0 by {
            if i < front.len() {
                assert(front[i] == kept[i]);
            }
        }
        assert forall|i: int, j: int|
            #![trigger kept[i], kept[j]]
            0 <= i < j < kept.len() implies kept[i].fingerprint != kept[j].fingerprint by {
            assert(front[i] == kept[i]);
            if j < front.len() {
                assert(front[j] == kept[j]);
            }
        }
        assert forall|f: CredentialFingerprint| #[trigger] after.contains_key(f) implies exists|
            i: int,
        |
            0 <= i < kept.len() && (#[trigger] kept[i]).fingerprint == f.0 by {
            if before.contains_key(f) {
                let i = choose|i: int| 0 <= i < front.len() && (#[trigger] front[i]).fingerprint
                    == f.0;
                assert(kept[i].fingerprint == f.0);
            } else {
                assert(kept[front.len() as int].fingerprint == f.0);
            }
        }
    }
}

/// A state of another version or with too many principals is not read; of any other, all
/// principals are.
pub proof fn law_kept_states_are_read(kept: PersistedState)
    ensures
        kept.version != 1 ==> kept.spec_into_store() == Err::<StoreView, _>(
            PersistenceError::UnsupportedVersion(kept.version),
        ),
        kept.version == 1 && kept.principals@.len() > 10_000 ==> kept.spec_into_store() == Err::<
            StoreView,
            _,
        >(PersistenceError::TooManyPrincipals(kept.principals@.len() as usize)),
        kept.version == 1 && kept.principals@.len() <= 10_000 ==> kept.spec_into_store()
            == spec_store(kept.principals@),
{
}

/// Every principal that was kept is in the store that is read, as it was kept, and no other is.
pub proof fn law_kept_principals_fill_the_store(kept: Seq<PersistedPrincipal>)
    ensures
        spec_store(kept) matches Ok(store) ==> {
            &&& forall|i: int|
                0 <= i < kept.len() ==> (#[trigger] kept[i]).spec_into_principal() is Ok
                    && store.principals.contains_key(PrincipalId(kept[i].id))
                    && store.principals[PrincipalId(kept[i].id)]
                    == kept[i].spec_into_principal()->Ok_0
            &&& forall|id: PrincipalId| #[trigger]
                store.principals.contains_key(id) ==> exists|i: int|
                    0 <= i < kept.len() && (#[trigger] kept[i]).id == id.0
        },
    decreases kept.len(),
{
    if kept.len() > 0 && spec_store(kept) is Ok {
        let front = kept.drop_last();
        law_kept_principals_fill_the_store(front);
        let before = spec_store(front)->Ok_0;
        let after = spec_store(kept)->Ok_0;
        assert forall|i: int| 0 <= i < kept.len() implies (
        #[trigger] kept[i]).spec_into_principal() is Ok && after.principals.contains_key(
            PrincipalId(kept[i].id),
        ) && after.principals[PrincipalId(kept[i].id)] == kept[i].spec_into_principal()->Ok_0 by {
            if i < front.len() {
                assert(front[i] == kept[i]);
            }
        }
        assert forall|id: PrincipalId| #[trigger] after.principals.contains_key(id) implies exists|
            i: int,
        |
            0 <= i < kept.len() && (#[trigger] kept[i]).id == id.0 by {
            if before.principals.contains_key(id) {
                let i = choose|i: int| 0 <= i < front.len() && (#[trigger] front[i]).id == id.0;
                assert(kept[i].id == id.0);
            } else {
                assert(kept[front.len() as int].id == id.0);
            }
        }
    }
}

} // verus!
