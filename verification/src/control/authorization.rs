//! What an authenticated peer may send within its session.

use super::peer_identity::AuthenticatedPeerIdentity;
use crate::protocol::control_wire::{ControlEnvelope, Payload};
use crate::protocol::ProtocolVersion;
use crate::security::{AuthorizationStore, Permission, StoreView};
use vstd::prelude::*;
use vstd::string::StringExecFns;

verus! {

#[derive(Debug, Clone, Copy, PartialEq, Eq, Structural)]
pub enum CommandAuthorizationError {
    MissingPayload,
    HandshakePayloadAfterEstablishment,
    MissingProtocolVersion,
    ProtocolVersionOutOfRange,
    WrongProtocolVersion { expected: ProtocolVersion, received: ProtocolVersion },
    WrongSession { expected: u64, received: u64 },
    NonIncreasingSequence { previous: u64, received: u64 },
    Unauthorized { permission: Permission },
}

impl CommandAuthorizationError {
    /// The value as it is written for developers.
    pub open spec fn spec_debug(self) -> Seq<char> {
        match self {
            CommandAuthorizationError::MissingPayload => "MissingPayload"@,
            CommandAuthorizationError::HandshakePayloadAfterEstablishment => {
                "HandshakePayloadAfterEstablishment"@
            },
            CommandAuthorizationError::MissingProtocolVersion => "MissingProtocolVersion"@,
            CommandAuthorizationError::ProtocolVersionOutOfRange => "ProtocolVersionOutOfRange"@,
            CommandAuthorizationError::WrongProtocolVersion { expected, received } => {
                "WrongProtocolVersion { expected: "@ + expected.spec_debug() + ", received: "@
                    + received.spec_debug() + " }"@
            },
            CommandAuthorizationError::WrongSession { expected, received } => {
                "WrongSession { expected: "@ + crate::text::decimal(expected as nat)
                    + ", received: "@ + crate::text::decimal(received as nat) + " }"@
            },
            CommandAuthorizationError::NonIncreasingSequence { previous, received } => {
                "NonIncreasingSequence { previous: "@ + crate::text::decimal(previous as nat)
                    + ", received: "@ + crate::text::decimal(received as nat) + " }"@
            },
            CommandAuthorizationError::Unauthorized { permission } => "Unauthorized { permission: "@
                + permission.spec_debug() + " }"@,
        }
    }

    /// Appends the value as it is written for developers.
    pub fn push_debug(&self, text: &mut String)
        ensures
            final(text)@ == old(text)@ + self.spec_debug(),
    {
        match self {
            CommandAuthorizationError::MissingPayload => text.append("MissingPayload"),
            CommandAuthorizationError::HandshakePayloadAfterEstablishment => {
                text.append("HandshakePayloadAfterEstablishment")
            },
            CommandAuthorizationError::MissingProtocolVersion => {
                text.append("MissingProtocolVersion")
            },
            CommandAuthorizationError::ProtocolVersionOutOfRange => {
                text.append("ProtocolVersionOutOfRange")
            },
            CommandAuthorizationError::WrongProtocolVersion { expected, received } => {
                text.append("WrongProtocolVersion { expected: ");
                expected.push_debug(text);
                text.append(", received: ");
                received.push_debug(text);
                text.append(" }");
            },
            CommandAuthorizationError::WrongSession { expected, received } => {
                text.append("WrongSession { expected: ");
                crate::text::push_decimal(text, *expected);
                text.append(", received: ");
                crate::text::push_decimal(text, *received);
                text.append(" }");
            },
            CommandAuthorizationError::NonIncreasingSequence { previous, received } => {
                text.append("NonIncreasingSequence { previous: ");
                crate::text::push_decimal(text, *previous);
                text.append(", received: ");
                crate::text::push_decimal(text, *received);
                text.append(" }");
            },
            CommandAuthorizationError::Unauthorized { permission } => {
                text.append("Unauthorized { permission: ");
                permission.push_debug(text);
                text.append(" }");
            },
        }
        proof {
            assert(text@ =~= old(text)@ + self.spec_debug());
        }
    }
}

/// Guards one authenticated session: every envelope must belong to it, in order.
#[derive(Debug, Clone, Copy, PartialEq, Eq)]
pub struct AuthenticatedControlGuard {
    peer: AuthenticatedPeerIdentity,
    control_session_id: u64,
    protocol_version: ProtocolVersion,
    last_sequence: u64,
}

/// A session: its peer, its number, its version and the last sequence number that was used.
pub struct GuardView {
    pub peer: AuthenticatedPeerIdentity,
    pub control_session_id: u64,
    pub protocol_version: ProtocolVersion,
    pub last_sequence: u64,
}

impl View for AuthenticatedControlGuard {
    type V = GuardView;

    closed spec fn view(&self) -> GuardView {
        GuardView {
            peer: self.peer,
            control_session_id: self.control_session_id,
            protocol_version: self.protocol_version,
            last_sequence: self.last_sequence,
        }
    }
}

impl GuardView {
    /// The first rule that an envelope breaks, in the order in which they are tested.
    pub open spec fn spec_validate(self, envelope: ControlEnvelope) -> Result<
        (),
        CommandAuthorizationError,
    > {
        match envelope.payload {
            None => Err(CommandAuthorizationError::MissingPayload),
            Some(payload) => if payload is Hello || payload is HelloAck {
                Err(CommandAuthorizationError::HandshakePayloadAfterEstablishment)
            } else {
                match envelope.protocol_version {
                    None => Err(CommandAuthorizationError::MissingProtocolVersion),
                    Some(wire) => if wire.major > u16::MAX || wire.minor > u16::MAX {
                        Err(CommandAuthorizationError::ProtocolVersionOutOfRange)
                    } else if wire.major != self.protocol_version.major || wire.minor
                        != self.protocol_version.minor {
                        Err(
                            CommandAuthorizationError::WrongProtocolVersion {
                                expected: self.protocol_version,
                                received: ProtocolVersion {
                                    major: wire.major as u16,
                                    minor: wire.minor as u16,
                                },
                            },
                        )
                    } else if envelope.control_session_id != self.control_session_id {
                        Err(
                            CommandAuthorizationError::WrongSession {
                                expected: self.control_session_id,
                                received: envelope.control_session_id,
                            },
                        )
                    } else if envelope.sequence == 0 || envelope.sequence <= self.last_sequence {
                        Err(
                            CommandAuthorizationError::NonIncreasingSequence {
                                previous: self.last_sequence,
                                received: envelope.sequence,
                            },
                        )
                    } else {
                        Ok(())
                    },
                }
            },
        }
    }

    /// What authorizing an envelope leads to.
    pub open spec fn spec_authorize(
        self,
        store: StoreView,
        envelope: ControlEnvelope,
        permission: Permission,
        now_unix_ms: u64,
    ) -> Result<(), CommandAuthorizationError> {
        match self.spec_validate(envelope) {
            Err(error) => Err(error),
            Ok(()) => if self.peer.spec_authorize(store, permission, now_unix_ms) {
                Ok(())
            } else {
                Err(CommandAuthorizationError::Unauthorized { permission })
            },
        }
    }

    /// The session after an envelope: a valid one uses up its sequence number, whatever else
    /// becomes of it.
    pub open spec fn spec_after(self, envelope: ControlEnvelope) -> Self {
        if self.spec_validate(envelope) is Ok {
            GuardView { last_sequence: envelope.sequence, ..self }
        } else {
            self
        }
    }
}

impl AuthenticatedControlGuard {
    #[must_use]
    pub fn new(
        peer: AuthenticatedPeerIdentity,
        control_session_id: u64,
        protocol_version: ProtocolVersion,
        last_sequence: u64,
    ) -> (guard: Self)
        ensures
            guard@ == (GuardView { peer, control_session_id, protocol_version, last_sequence }),
    {
        AuthenticatedControlGuard { peer, control_session_id, protocol_version, last_sequence }
    }

    #[must_use]
    pub fn peer(self) -> (peer: AuthenticatedPeerIdentity)
        ensures
            peer == self@.peer,
    {
        self.peer
    }

    #[must_use]
    pub fn last_sequence(self) -> (sequence: u64)
        ensures
            sequence == self@.last_sequence,
    {
        self.last_sequence
    }

    #[must_use]
    pub fn protocol_version(self) -> (version: ProtocolVersion)
        ensures
            version == self@.protocol_version,
    {
        self.protocol_version
    }

    /// Validates and consumes one post-handshake envelope for this authenticated session.
    ///
    /// Sequence monotonicity is global to the peer's control stream, not per payload type.
    /// Structurally malformed envelopes fail before consuming the sequence.
    pub fn validate_envelope(&mut self, envelope: &ControlEnvelope) -> (result: Result<
        (),
        CommandAuthorizationError,
    >)
        ensures
            result == old(self)@.spec_validate(*envelope),
            final(self)@ == old(self)@.spec_after(*envelope),
    {
        match &envelope.payload {
            None => return Err(CommandAuthorizationError::MissingPayload),
            Some(Payload::Hello(_)) => return Err(
                CommandAuthorizationError::HandshakePayloadAfterEstablishment,
            ),
            Some(Payload::HelloAck(_)) => return Err(
                CommandAuthorizationError::HandshakePayloadAfterEstablishment,
            ),
            Some(_) => {},
        }
        let wire = match envelope.protocol_version {
            Some(wire) => wire,
            None => return Err(CommandAuthorizationError::MissingProtocolVersion),
        };
        if wire.major > u16::MAX as u32 || wire.minor > u16::MAX as u32 {
            return Err(CommandAuthorizationError::ProtocolVersionOutOfRange);
        }
        let received = ProtocolVersion { major: wire.major as u16, minor: wire.minor as u16 };
        if received != self.protocol_version {
            return Err(
                CommandAuthorizationError::WrongProtocolVersion {
                    expected: self.protocol_version,
                    received,
                },
            );
        }
        if envelope.control_session_id != self.control_session_id {
            return Err(
                CommandAuthorizationError::WrongSession {
                    expected: self.control_session_id,
                    received: envelope.control_session_id,
                },
            );
        }
        if envelope.sequence == 0 || envelope.sequence <= self.last_sequence {
            return Err(
                CommandAuthorizationError::NonIncreasingSequence {
                    previous: self.last_sequence,
                    received: envelope.sequence,
                },
            );
        }
        self.last_sequence = envelope.sequence;
        Ok(())
    }

    /// Validates the authenticated session envelope and current permission.
    ///
    /// A structurally valid in-session sequence is consumed even when authorization
    /// fails. This prevents a previously denied command from being replayed later if
    /// the principal is granted the permission after the original denial.
    pub fn authorize(
        &mut self,
        authorization: &AuthorizationStore,
        envelope: &ControlEnvelope,
        permission: Permission,
        now_unix_ms: u64,
    ) -> (result: Result<(), CommandAuthorizationError>)
        requires
            authorization.wf(),
        ensures
            result == old(self)@.spec_authorize(
                authorization@,
                *envelope,
                permission,
                now_unix_ms,
            ),
            final(self)@ == old(self)@.spec_after(*envelope),
    {
        match self.validate_envelope(envelope) {
            Ok(()) => {},
            Err(error) => return Err(error),
        }
        if !self.peer.authorize(authorization, permission, now_unix_ms) {
            return Err(CommandAuthorizationError::Unauthorized { permission });
        }
        Ok(())
    }
}

impl GuardView {
    /// The session after any envelopes in turn.
    pub open spec fn spec_after_all(self, envelopes: Seq<ControlEnvelope>) -> Self
        decreases envelopes.len(),
    {
        if envelopes.len() == 0 {
            self
        } else {
            self.spec_after_all(envelopes.drop_last()).spec_after(envelopes.last())
        }
    }
}

/// The last number that was used never goes back.
proof fn lemma_last_sequence_grows(guard: GuardView, envelopes: Seq<ControlEnvelope>)
    ensures
        guard.spec_after_all(envelopes).last_sequence >= guard.last_sequence,
    decreases envelopes.len(),
{
    if envelopes.len() > 0 {
        lemma_last_sequence_grows(guard, envelopes.drop_last());
    }
}

/// A sequence number that was used, also by a command that was denied, is not accepted
/// again, whatever has come and whatever permissions were granted in between; nor is any
/// earlier one.
pub proof fn law_sequence_is_used_once(
    guard: GuardView,
    envelope: ControlEnvelope,
    between: Seq<ControlEnvelope>,
    replayed: ControlEnvelope,
    store: StoreView,
    permission: Permission,
    now_unix_ms: u64,
)
    requires
        guard.spec_validate(envelope) is Ok,
        replayed.sequence <= envelope.sequence,
    ensures
        ({
            let later = guard.spec_after(envelope).spec_after_all(between);
            &&& later.spec_authorize(store, replayed, permission, now_unix_ms) is Err
            &&& later.spec_after(replayed) == later
        }),
{
    lemma_last_sequence_grows(guard.spec_after(envelope), between);
}

/// Where the store does not know the credential as the peer's any more, no command passes.
pub proof fn law_revoked_credential_blocks_commands(
    guard: GuardView,
    envelope: ControlEnvelope,
    store: StoreView,
    permission: Permission,
    now_unix_ms: u64,
)
    requires
        store.spec_principal_for(guard.peer.credential_fingerprint, now_unix_ms) != Some(
            guard.peer.principal_id,
        ),
    ensures
        guard.spec_authorize(store, envelope, permission, now_unix_ms) is Err,
{
}

/// Completeness of acceptance: a command with a payload, the session's version and number and a
/// sequence number above the last is taken, and is authorized for a peer whose credential is
/// accepted and who holds the permission.
pub proof fn law_sound_commands_are_taken(
    guard: GuardView,
    envelope: ControlEnvelope,
    store: StoreView,
    permission: Permission,
    now_unix_ms: u64,
)
    requires
        envelope.payload is Some,
        !(envelope.payload->Some_0 is Hello),
        !(envelope.payload->Some_0 is HelloAck),
        envelope.protocol_version is Some,
        envelope.protocol_version->Some_0.major == guard.protocol_version.major,
        envelope.protocol_version->Some_0.minor == guard.protocol_version.minor,
        envelope.control_session_id == guard.control_session_id,
        envelope.sequence > guard.last_sequence,
    ensures
        guard.spec_validate(envelope) is Ok,
        guard.spec_after(envelope).last_sequence == envelope.sequence,
        store.spec_principal_for(guard.peer.credential_fingerprint, now_unix_ms) == Some(
            guard.peer.principal_id,
        ) && store.spec_authorize(guard.peer.principal_id, permission) ==> guard.spec_authorize(
            store,
            envelope,
            permission,
            now_unix_ms,
        ) is Ok,
        !store.spec_authorize(guard.peer.principal_id, permission) ==> guard.spec_authorize(
            store,
            envelope,
            permission,
            now_unix_ms,
        ) == Err::<(), _>(CommandAuthorizationError::Unauthorized { permission }),
{
}

/// Each rule binds by itself, a command that breaks one changes nothing, and none changes the
/// peer, the session or its version.
pub proof fn law_every_rule_of_a_command_binds(guard: GuardView, envelope: ControlEnvelope)
    ensures
        ({
            let result = guard.spec_validate(envelope);
            let after = guard.spec_after(envelope);
            &&& envelope.payload is None ==> result == Err::<(), _>(
                CommandAuthorizationError::MissingPayload,
            )
            &&& envelope.payload is Some && (envelope.payload->Some_0 is Hello
                || envelope.payload->Some_0 is HelloAck) ==> result == Err::<(), _>(
                CommandAuthorizationError::HandshakePayloadAfterEstablishment,
            )
            &&& envelope.protocol_version is None ==> result is Err
            &&& envelope.protocol_version is Some && (envelope.protocol_version->Some_0.major
                != guard.protocol_version.major || envelope.protocol_version->Some_0.minor
                != guard.protocol_version.minor) ==> result is Err
            &&& envelope.control_session_id != guard.control_session_id ==> result is Err
            &&& envelope.sequence <= guard.last_sequence ==> result is Err
            &&& envelope.sequence == 0 ==> result is Err
            &&& result is Err ==> after == guard
            &&& after.peer == guard.peer && after.control_session_id == guard.control_session_id
                && after.protocol_version == guard.protocol_version
        }),
{
}

/// The fault of a command is named, the first of them where there are several.
pub proof fn law_command_faults_are_named(guard: GuardView, envelope: ControlEnvelope)
    requires
        envelope.payload is Some,
        !(envelope.payload->Some_0 is Hello),
        !(envelope.payload->Some_0 is HelloAck),
    ensures
        ({
            let result = guard.spec_validate(envelope);
            let wire = envelope.protocol_version->Some_0;
            let versioned = envelope.protocol_version is Some && wire.major
                == guard.protocol_version.major && wire.minor == guard.protocol_version.minor;
            &&& envelope.protocol_version is None ==> result == Err::<(), _>(
                CommandAuthorizationError::MissingProtocolVersion,
            )
            &&& envelope.protocol_version is Some && (wire.major > 65_535 || wire.minor > 65_535)
                ==> result == Err::<(), _>(CommandAuthorizationError::ProtocolVersionOutOfRange)
            &&& envelope.protocol_version is Some && wire.major <= 65_535 && wire.minor <= 65_535
                && !versioned ==> result is Err && result->Err_0 is WrongProtocolVersion
            &&& versioned && envelope.control_session_id != guard.control_session_id ==> result
                == Err::<(), _>(
                CommandAuthorizationError::WrongSession {
                    expected: guard.control_session_id,
                    received: envelope.control_session_id,
                },
            )
            &&& versioned && envelope.control_session_id == guard.control_session_id
                && envelope.sequence <= guard.last_sequence ==> result == Err::<(), _>(
                CommandAuthorizationError::NonIncreasingSequence {
                    previous: guard.last_sequence,
                    received: envelope.sequence,
                },
            )
        }),
{
}

} // verus!
