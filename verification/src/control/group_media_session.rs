//! The server's side of a group-media key: handing it to a receiver's session and taking the
//! receiver's answer.

use super::authorization::{AuthenticatedControlGuard, CommandAuthorizationError, GuardView};
use super::handshake::{
    version_to_wire, EstablishedAuthenticatedPeer, EstablishedControlSession,
};
use crate::bytes::copy_all;
use crate::protocol::control_wire::{ControlEnvelope, Payload, PresentationKeyGrant};
use crate::protocol::group_media_control::{
    group_media_control_available, validate_key_ack, validate_key_grant, GroupMediaControlError,
};
use crate::protocol::{ControlRole, ProtocolVersion};
use crate::security::group_media::GroupMediaEpoch;
use crate::security::group_media_coordinator::{
    CoordinatorView, GroupMediaCoordinator, GroupMediaCoordinatorError,
    GroupMediaReceiverInstallState,
};
use crate::security::{AuthorizationStore, Permission, PrincipalId, StoreView};
use crate::wipe::{wipe_array, wipe_vec};
use vstd::prelude::*;
use vstd::string::StringExecFns;

verus! {

#[derive(Debug)]
pub enum GroupMediaSessionError {
    InvalidSessionId,
    SessionMismatch { negotiated: u64, authenticated: u64 },
    IdentityMismatch,
    ReceiverRoleRequired,
    ContractUnavailable,
    ZeroRequestId,
    ZeroSequence,
    InvalidGrant(GroupMediaControlError),
    Coordinator(GroupMediaCoordinatorError),
}

impl GroupMediaSessionError {
    /// What the error says.
    pub open spec fn spec_message(self) -> Seq<char> {
        match self {
            GroupMediaSessionError::InvalidSessionId => "group-media control session id is zero"@,
            GroupMediaSessionError::SessionMismatch { negotiated, authenticated } => {
                "group-media session mismatch: negotiated="@
                    + crate::text::decimal(negotiated as nat) + ", authenticated="@
                    + crate::text::decimal(authenticated as nat)
            },
            GroupMediaSessionError::IdentityMismatch => {
                "group-media authenticated receiver identity mismatch"@
            },
            GroupMediaSessionError::ReceiverRoleRequired => {
                "group-media receiver must negotiate StudentDevice role"@
            },
            GroupMediaSessionError::ContractUnavailable => {
                "group-media v0.4 capability contract is unavailable"@
            },
            GroupMediaSessionError::ZeroRequestId => {
                "group-media key grant request_id must be non-zero"@
            },
            GroupMediaSessionError::ZeroSequence => {
                "group-media key grant sequence must be non-zero"@
            },
            GroupMediaSessionError::InvalidGrant(error) => "invalid group-media key grant: "@
                + error.spec_debug(),
            GroupMediaSessionError::Coordinator(error) => "group-media coordinator: "@
                + error.spec_message(),
        }
    }

    /// The text for people.
    #[must_use]
    pub fn message(&self) -> (text: String)
        ensures
            text@ == self.spec_message(),
    {
        match self {
            GroupMediaSessionError::InvalidSessionId => {
                "group-media control session id is zero".to_owned()
            },
            GroupMediaSessionError::SessionMismatch { negotiated, authenticated } => {
                let mut text: String = "group-media session mismatch: negotiated=".to_owned();
                crate::text::push_decimal(&mut text, *negotiated);
                text.append(", authenticated=");
                crate::text::push_decimal(&mut text, *authenticated);
                text
            },
            GroupMediaSessionError::IdentityMismatch => {
                "group-media authenticated receiver identity mismatch".to_owned()
            },
            GroupMediaSessionError::ReceiverRoleRequired => {
                "group-media receiver must negotiate StudentDevice role".to_owned()
            },
            GroupMediaSessionError::ContractUnavailable => {
                "group-media v0.4 capability contract is unavailable".to_owned()
            },
            GroupMediaSessionError::ZeroRequestId => {
                "group-media key grant request_id must be non-zero".to_owned()
            },
            GroupMediaSessionError::ZeroSequence => {
                "group-media key grant sequence must be non-zero".to_owned()
            },
            GroupMediaSessionError::InvalidGrant(error) => {
                let mut text: String = "invalid group-media key grant: ".to_owned();
                error.push_debug(&mut text);
                text
            },
            GroupMediaSessionError::Coordinator(error) => {
                let mut text: String = "group-media coordinator: ".to_owned();
                text.append(error.message().as_str());
                text
            },
        }
    }
}

impl From<GroupMediaCoordinatorError> for GroupMediaSessionError {
    fn from(value: GroupMediaCoordinatorError) -> (error: Self) {
        GroupMediaSessionError::Coordinator(value)
    }
}

impl vstd::std_specs::convert::FromSpecImpl<GroupMediaCoordinatorError> for GroupMediaSessionError {
    open spec fn obeys_from_spec() -> bool {
        true
    }

    open spec fn from_spec(value: GroupMediaCoordinatorError) -> Self {
        GroupMediaSessionError::Coordinator(value)
    }
}

/// Exact authenticated receiver/session binding for key delivery.
///
/// This type can only be created from the server-side enrolled handshake result,
/// where mTLS identity has already been resolved to the stable peer PrincipalId.
/// It intentionally requires StudentDevice role and the negotiated v0.4
/// TeacherPresentation + SframeGroupMedia contract.
#[derive(Debug, Clone, Copy, PartialEq, Eq)]
pub struct BoundGroupMediaReceiverSession {
    principal: PrincipalId,
    control_session_id: u64,
    protocol_version: ProtocolVersion,
}

/// A receiver, its session and the version that is spoken there.
pub struct BoundView {
    pub principal: PrincipalId,
    pub control_session_id: u64,
    pub protocol_version: ProtocolVersion,
}

impl View for BoundGroupMediaReceiverSession {
    type V = BoundView;

    closed spec fn view(&self) -> BoundView {
        BoundView {
            principal: self.principal,
            control_session_id: self.control_session_id,
            protocol_version: self.protocol_version,
        }
    }
}

/// What binding a session to its peer leads to.
pub open spec fn spec_bind(
    session: super::handshake::EstablishedView,
    peer: EstablishedAuthenticatedPeer,
) -> Result<BoundView, GroupMediaSessionError> {
    if session.control_session_id == 0 || peer.control_session_id == 0 {
        Err(GroupMediaSessionError::InvalidSessionId)
    } else if session.control_session_id != peer.control_session_id {
        Err(
            GroupMediaSessionError::SessionMismatch {
                negotiated: session.control_session_id,
                authenticated: peer.control_session_id,
            },
        )
    } else if session.negotiated.principal_id != peer.identity.principal_id {
        Err(GroupMediaSessionError::IdentityMismatch)
    } else if session.negotiated.role != ControlRole::StudentDevice {
        Err(GroupMediaSessionError::ReceiverRoleRequired)
    } else if !crate::protocol::group_media_control::has_group_media(
        session.negotiated.version,
        session.negotiated.capabilities,
    ) {
        Err(GroupMediaSessionError::ContractUnavailable)
    } else {
        Ok(
            BoundView {
                principal: peer.identity.principal_id,
                control_session_id: session.control_session_id,
                protocol_version: session.negotiated.version,
            },
        )
    }
}

/// `envelope` delivers a key within a session.
pub open spec fn is_key_delivery(
    envelope: ControlEnvelope,
    bound: BoundView,
    presentation_id: u64,
    stream_id: u64,
    request_id: u64,
    sequence: u64,
    epoch: GroupMediaEpoch,
    material: Seq<u8>,
) -> bool {
    &&& envelope.control_session_id == bound.control_session_id
    &&& envelope.sequence == sequence
    &&& envelope.protocol_version == Some(
        super::handshake::spec_version_to_wire(bound.protocol_version),
    )
    &&& envelope.request_id == request_id
    &&& envelope.payload matches Some(Payload::PresentationKeyGrant(grant))
    &&& grant.presentation_id == presentation_id
    &&& grant.stream_id == stream_id
    &&& grant.epoch == epoch.spec_get()
    &&& grant.key_material@ == material
}

impl BoundGroupMediaReceiverSession {
    pub fn bind(session: &EstablishedControlSession, peer: EstablishedAuthenticatedPeer) -> (result:
        Result<Self, GroupMediaSessionError>)
        requires
            session.negotiated.capabilities.wf(),
        ensures
            match result {
                Ok(bound) => spec_bind(session@, peer) == Ok::<BoundView, GroupMediaSessionError>(
                    bound@,
                ),
                Err(error) => spec_bind(session@, peer) == Err::<BoundView, GroupMediaSessionError>(
                    error,
                ),
            },
    {
        if session.control_session_id == 0 || peer.control_session_id == 0 {
            return Err(GroupMediaSessionError::InvalidSessionId);
        }
        if session.control_session_id != peer.control_session_id {
            return Err(
                GroupMediaSessionError::SessionMismatch {
                    negotiated: session.control_session_id,
                    authenticated: peer.control_session_id,
                },
            );
        }
        let principal = peer.identity.principal_id();
        if session.negotiated.principal_id != principal {
            return Err(GroupMediaSessionError::IdentityMismatch);
        }
        if session.negotiated.role != ControlRole::StudentDevice {
            return Err(GroupMediaSessionError::ReceiverRoleRequired);
        }
        if !group_media_control_available(
            session.negotiated.version,
            &session.negotiated.capabilities,
        ) {
            return Err(GroupMediaSessionError::ContractUnavailable);
        }
        Ok(
            BoundGroupMediaReceiverSession {
                principal,
                control_session_id: session.control_session_id,
                protocol_version: session.negotiated.version,
            },
        )
    }

    #[must_use]
    pub fn principal(self) -> (principal: PrincipalId)
        ensures
            principal == self@.principal,
    {
        self.principal
    }

    #[must_use]
    pub fn control_session_id(self) -> (id: u64)
        ensures
            id == self@.control_session_id,
    {
        self.control_session_id
    }

    /// Issues the active epoch's key to the receiver, in a message for its session, and notes
    /// the answer that is due. A request without a number or a sequence fails before any key
    /// is issued.
    pub fn issue_key_grant(
        self,
        coordinator: &mut GroupMediaCoordinator,
        authorization: &AuthorizationStore,
        presentation_id: u64,
        stream_id: u64,
        request_id: u64,
        sequence: u64,
    ) -> (result: Result<
        (SensitivePresentationKeyEnvelope, PendingPresentationKeyAck),
        GroupMediaSessionError,
    >)
        requires
            old(coordinator).wf(),
            authorization.wf(),
        ensures
            final(coordinator).wf(),
            ({
                let reconciled = old(coordinator)@.spec_reconciled(authorization@);
                let refusal = reconciled.spec_issue_refusal(authorization@, self@.principal);
                let issued = reconciled.spec_with_state(
                    self@.principal,
                    GroupMediaReceiverInstallState::KeyIssued(reconciled.active->Some_0.epoch),
                );
                match result {
                    Ok((sensitive, pending)) => {
                        &&& request_id != 0 && sequence != 0
                        &&& refusal is None
                        &&& reconciled.active matches Some(sender)
                        &&& final(coordinator)@ == issued
                        &&& crate::protocol::group_media_control::spec_validate_key_grant(
                            presentation_id,
                            stream_id,
                            sender.epoch.spec_get(),
                            32,
                        ) is Ok
                        &&& is_key_delivery(
                            sensitive@,
                            self@,
                            presentation_id,
                            stream_id,
                            request_id,
                            sequence,
                            sender.epoch,
                            sender.material,
                        )
                        &&& pending@ == (PendingView {
                            principal: self@.principal,
                            control_session_id: self@.control_session_id,
                            request_id,
                            presentation_id,
                            stream_id,
                            epoch: sender.epoch,
                            acknowledged: false,
                        })
                    },
                    Err(GroupMediaSessionError::ZeroRequestId) => request_id == 0
                        && final(coordinator)@ == old(coordinator)@,
                    Err(GroupMediaSessionError::ZeroSequence) => request_id != 0 && sequence == 0
                        && final(coordinator)@ == old(coordinator)@,
                    Err(GroupMediaSessionError::Coordinator(error)) => request_id != 0 && sequence
                        != 0 && refusal == Some(error) && final(coordinator)@ == reconciled,
                    Err(GroupMediaSessionError::InvalidGrant(error)) => {
                        &&& request_id != 0 && sequence != 0
                        &&& refusal is None
                        &&& reconciled.active matches Some(sender)
                        &&& final(coordinator)@ == issued
                        &&& crate::protocol::group_media_control::spec_validate_key_grant(
                            presentation_id,
                            stream_id,
                            sender.epoch.spec_get(),
                            32,
                        ) == Err::<(), GroupMediaControlError>(error)
                    },
                    Err(_) => false,
                }
            }),
    {
        if request_id == 0 {
            return Err(GroupMediaSessionError::ZeroRequestId);
        }
        if sequence == 0 {
            return Err(GroupMediaSessionError::ZeroSequence);
        }
        let grant = match coordinator.issue_key(authorization, self.principal) {
            Ok(grant) => grant,
            Err(error) => return Err(GroupMediaSessionError::from(error)),
        };
        let epoch = grant.epoch();
        let mut key_bytes = grant.copy_key_material_for_delivery();
        let mut wire_grant = PresentationKeyGrant {
            presentation_id,
            stream_id,
            epoch: epoch.get(),
            key_material: copy_all(key_bytes.as_slice()),
        };
        wipe_array(&mut key_bytes);
        match validate_key_grant(&wire_grant) {
            Ok(()) => {},
            Err(error) => {
                wipe_vec(&mut wire_grant.key_material);
                return Err(GroupMediaSessionError::InvalidGrant(error));
            },
        }
        let sensitive = SensitivePresentationKeyEnvelope::new(
            ControlEnvelope {
                control_session_id: self.control_session_id,
                sequence,
                protocol_version: Some(version_to_wire(self.protocol_version)),
                request_id,
                payload: Some(Payload::PresentationKeyGrant(wire_grant)),
            },
        );
        let pending = PendingPresentationKeyAck {
            principal: self.principal,
            control_session_id: self.control_session_id,
            request_id,
            presentation_id,
            stream_id,
            epoch,
            acknowledged: false,
        };
        Ok((sensitive, pending))
    }
}

/// A message with a key in it. The key is cleared when the message is dropped.
pub struct SensitivePresentationKeyEnvelope {
    envelope: ControlEnvelope,
}

impl View for SensitivePresentationKeyEnvelope {
    type V = ControlEnvelope;

    closed spec fn view(&self) -> ControlEnvelope {
        self.envelope
    }
}

/// A message with a key as it is written for developers: of the key itself nothing.
pub open spec fn spec_sensitive_debug(envelope: ControlEnvelope) -> Seq<char> {
    let (presentation_id, stream_id, epoch) = match envelope.payload {
        Some(Payload::PresentationKeyGrant(grant)) => (
            grant.presentation_id,
            grant.stream_id,
            grant.epoch,
        ),
        _ => (0u64, 0u64, 0u32),
    };
    "SensitivePresentationKeyEnvelope { control_session_id: "@ + crate::text::decimal(
        envelope.control_session_id as nat,
    ) + ", sequence: "@ + crate::text::decimal(envelope.sequence as nat) + ", request_id: "@
        + crate::text::decimal(envelope.request_id as nat) + ", presentation_id: "@
        + crate::text::decimal(presentation_id as nat) + ", stream_id: "@ + crate::text::decimal(
        stream_id as nat,
    ) + ", epoch: "@ + crate::text::decimal(epoch as nat) + ", .. }"@
}

impl SensitivePresentationKeyEnvelope {
    fn new(envelope: ControlEnvelope) -> (sensitive: Self)
        ensures
            sensitive@ == envelope,
    {
        SensitivePresentationKeyEnvelope { envelope }
    }

    #[must_use]
    pub fn envelope(&self) -> (envelope: &ControlEnvelope)
        ensures
            *envelope == self@,
    {
        &self.envelope
    }

    /// The message as it is written for developers: of the key itself nothing.
    #[must_use]
    pub fn debug_text(&self) -> (text: String)
        ensures
            text@ == spec_sensitive_debug(self@),
    {
        let (presentation_id, stream_id, epoch): (u64, u64, u32) = match &self.envelope.payload {
            Some(Payload::PresentationKeyGrant(grant)) => (
                grant.presentation_id,
                grant.stream_id,
                grant.epoch,
            ),
            _ => (0, 0, 0),
        };
        let mut text: String =
            "SensitivePresentationKeyEnvelope { control_session_id: ".to_owned();
        crate::text::push_decimal(&mut text, self.envelope.control_session_id);
        text.append(", sequence: ");
        crate::text::push_decimal(&mut text, self.envelope.sequence);
        text.append(", request_id: ");
        crate::text::push_decimal(&mut text, self.envelope.request_id);
        text.append(", presentation_id: ");
        crate::text::push_decimal(&mut text, presentation_id);
        text.append(", stream_id: ");
        crate::text::push_decimal(&mut text, stream_id);
        text.append(", epoch: ");
        crate::text::push_decimal(&mut text, epoch as u64);
        text.append(", .. }");
        text
    }
}

impl Drop for SensitivePresentationKeyEnvelope {
    fn drop(&mut self)
        opens_invariants none
        no_unwind
    {
        if let Some(Payload::PresentationKeyGrant(grant)) = &mut self.envelope.payload {
            wipe_vec(&mut grant.key_material);
        }
    }
}

#[derive(Debug)]
pub enum PresentationKeyAckError {
    AlreadyAcknowledged,
    UnexpectedPayload,
    InvalidAck(GroupMediaControlError),
    PeerMismatch,
    SessionMismatch { expected: u64, received: u64 },
    Authorization(CommandAuthorizationError),
    RequestMismatch { expected: u64, received: u64 },
    PresentationMismatch { expected: u64, received: u64 },
    StreamMismatch { expected: u64, received: u64 },
    EpochMismatch { expected: u32, received: u32 },
    Coordinator(GroupMediaCoordinatorError),
}

impl PresentationKeyAckError {
    /// What the error says.
    pub open spec fn spec_message(self) -> Seq<char> {
        match self {
            PresentationKeyAckError::AlreadyAcknowledged => {
                "presentation key already acknowledged"@
            },
            PresentationKeyAckError::UnexpectedPayload => "expected PresentationKeyAck payload"@,
            PresentationKeyAckError::InvalidAck(error) => "invalid PresentationKeyAck: "@
                + error.spec_debug(),
            PresentationKeyAckError::PeerMismatch => "presentation key ACK peer mismatch"@,
            PresentationKeyAckError::SessionMismatch { expected, received } => {
                "presentation key ACK session mismatch: expected="@
                    + crate::text::decimal(expected as nat) + ", received="@
                    + crate::text::decimal(received as nat)
            },
            PresentationKeyAckError::Authorization(error) => "presentation key ACK authorization: "@
                + error.spec_debug(),
            PresentationKeyAckError::RequestMismatch { expected, received } => {
                "presentation key ACK request mismatch: expected="@
                    + crate::text::decimal(expected as nat) + ", received="@
                    + crate::text::decimal(received as nat)
            },
            PresentationKeyAckError::PresentationMismatch { expected, received } => {
                "presentation key ACK presentation mismatch: expected="@
                    + crate::text::decimal(expected as nat) + ", received="@
                    + crate::text::decimal(received as nat)
            },
            PresentationKeyAckError::StreamMismatch { expected, received } => {
                "presentation key ACK stream mismatch: expected="@
                    + crate::text::decimal(expected as nat) + ", received="@
                    + crate::text::decimal(received as nat)
            },
            PresentationKeyAckError::EpochMismatch { expected, received } => {
                "presentation key ACK epoch mismatch: expected="@
                    + crate::text::decimal(expected as nat) + ", received="@
                    + crate::text::decimal(received as nat)
            },
            PresentationKeyAckError::Coordinator(error) => "presentation key ACK coordinator: "@
                + error.spec_message(),
        }
    }

    /// The text for people.
    #[must_use]
    pub fn message(&self) -> (text: String)
        ensures
            text@ == self.spec_message(),
    {
        match self {
            PresentationKeyAckError::AlreadyAcknowledged => {
                "presentation key already acknowledged".to_owned()
            },
            PresentationKeyAckError::UnexpectedPayload => {
                "expected PresentationKeyAck payload".to_owned()
            },
            PresentationKeyAckError::InvalidAck(error) => {
                let mut text: String = "invalid PresentationKeyAck: ".to_owned();
                error.push_debug(&mut text);
                text
            },
            PresentationKeyAckError::PeerMismatch => {
                "presentation key ACK peer mismatch".to_owned()
            },
            PresentationKeyAckError::SessionMismatch { expected, received } => {
                let mut text: String = "presentation key ACK session mismatch: expected=".to_owned();
                crate::text::push_decimal(&mut text, *expected as u64);
                text.append(", received=");
                crate::text::push_decimal(&mut text, *received as u64);
                text
            },
            PresentationKeyAckError::Authorization(error) => {
                let mut text: String = "presentation key ACK authorization: ".to_owned();
                error.push_debug(&mut text);
                text
            },
            PresentationKeyAckError::RequestMismatch { expected, received } => {
                let mut text: String = "presentation key ACK request mismatch: expected=".to_owned();
                crate::text::push_decimal(&mut text, *expected as u64);
                text.append(", received=");
                crate::text::push_decimal(&mut text, *received as u64);
                text
            },
            PresentationKeyAckError::PresentationMismatch { expected, received } => {
                let mut text: String = "presentation key ACK presentation mismatch: expected=".to_owned();
                crate::text::push_decimal(&mut text, *expected as u64);
                text.append(", received=");
                crate::text::push_decimal(&mut text, *received as u64);
                text
            },
            PresentationKeyAckError::StreamMismatch { expected, received } => {
                let mut text: String = "presentation key ACK stream mismatch: expected=".to_owned();
                crate::text::push_decimal(&mut text, *expected as u64);
                text.append(", received=");
                crate::text::push_decimal(&mut text, *received as u64);
                text
            },
            PresentationKeyAckError::EpochMismatch { expected, received } => {
                let mut text: String = "presentation key ACK epoch mismatch: expected=".to_owned();
                crate::text::push_decimal(&mut text, *expected as u64);
                text.append(", received=");
                crate::text::push_decimal(&mut text, *received as u64);
                text
            },
            PresentationKeyAckError::Coordinator(error) => {
                let mut text: String = "presentation key ACK coordinator: ".to_owned();
                text.append(error.message().as_str());
                text
            },
        }
    }
}

/// One bounded, one-shot key acknowledgement correlation record.
///
/// Callers own at most the pending records for their bounded receiver set.
/// No request history or unbounded queue is retained here.
#[derive(Debug)]
pub struct PendingPresentationKeyAck {
    principal: PrincipalId,
    control_session_id: u64,
    request_id: u64,
    presentation_id: u64,
    stream_id: u64,
    epoch: GroupMediaEpoch,
    acknowledged: bool,
}

/// The answer that is due, and whether it has come.
pub struct PendingView {
    pub principal: PrincipalId,
    pub control_session_id: u64,
    pub request_id: u64,
    pub presentation_id: u64,
    pub stream_id: u64,
    pub epoch: GroupMediaEpoch,
    pub acknowledged: bool,
}

impl View for PendingPresentationKeyAck {
    type V = PendingView;

    closed spec fn view(&self) -> PendingView {
        PendingView {
            principal: self.principal,
            control_session_id: self.control_session_id,
            request_id: self.request_id,
            presentation_id: self.presentation_id,
            stream_id: self.stream_id,
            epoch: self.epoch,
            acknowledged: self.acknowledged,
        }
    }
}

impl PendingView {
    /// What is wrong with a message before its session is asked, if anything is: such a
    /// message uses up no sequence number.
    pub open spec fn spec_early_refusal(
        self,
        guard: GuardView,
        envelope: ControlEnvelope,
    ) -> Option<PresentationKeyAckError> {
        if self.acknowledged {
            Some(PresentationKeyAckError::AlreadyAcknowledged)
        } else {
            match envelope.payload {
                Some(Payload::PresentationKeyAck(ack)) =>
                    match crate::protocol::group_media_control::spec_validate_binding(
                    ack.presentation_id,
                    ack.stream_id,
                    ack.epoch,
                ) {
                    Err(error) => Some(PresentationKeyAckError::InvalidAck(error)),
                    Ok(()) => if guard.peer.principal_id != self.principal {
                        Some(PresentationKeyAckError::PeerMismatch)
                    } else if envelope.control_session_id != self.control_session_id {
                        Some(
                            PresentationKeyAckError::SessionMismatch {
                                expected: self.control_session_id,
                                received: envelope.control_session_id,
                            },
                        )
                    } else {
                        None
                    },
                },
                _ => Some(PresentationKeyAckError::UnexpectedPayload),
            }
        }
    }

    /// What differs between a message and the answer that is due, if anything does.
    pub open spec fn spec_mismatch(self, envelope: ControlEnvelope) -> Option<
        PresentationKeyAckError,
    > {
        match envelope.payload {
            Some(Payload::PresentationKeyAck(ack)) => if envelope.request_id != self.request_id {
                Some(
                    PresentationKeyAckError::RequestMismatch {
                        expected: self.request_id,
                        received: envelope.request_id,
                    },
                )
            } else if ack.presentation_id != self.presentation_id {
                Some(
                    PresentationKeyAckError::PresentationMismatch {
                        expected: self.presentation_id,
                        received: ack.presentation_id,
                    },
                )
            } else if ack.stream_id != self.stream_id {
                Some(
                    PresentationKeyAckError::StreamMismatch {
                        expected: self.stream_id,
                        received: ack.stream_id,
                    },
                )
            } else if ack.epoch != self.epoch.spec_get() {
                Some(
                    PresentationKeyAckError::EpochMismatch {
                        expected: self.epoch.spec_get(),
                        received: ack.epoch,
                    },
                )
            } else {
                None
            },
            _ => None,
        }
    }

    /// Why a message is not taken as the answer, if it is not.
    pub open spec fn spec_refusal(
        self,
        guard: GuardView,
        store: StoreView,
        coordinator: CoordinatorView,
        envelope: ControlEnvelope,
        now_unix_ms: u64,
    ) -> Option<PresentationKeyAckError> {
        if self.spec_early_refusal(guard, envelope) is Some {
            self.spec_early_refusal(guard, envelope)
        } else {
            match guard.spec_authorize(
                store,
                envelope,
                Permission::ReceivePresentation,
                now_unix_ms,
            ) {
                Err(error) => Some(PresentationKeyAckError::Authorization(error)),
                Ok(()) => if self.spec_mismatch(envelope) is Some {
                    self.spec_mismatch(envelope)
                } else {
                    match coordinator.spec_reconciled(store).spec_install_refusal(
                        store,
                        self.principal,
                        self.epoch,
                    ) {
                        Some(error) => Some(PresentationKeyAckError::Coordinator(error)),
                        None => None,
                    }
                },
            }
        }
    }

    /// The coordinator is asked: nothing else is wrong.
    pub open spec fn spec_reaches_coordinator(
        self,
        guard: GuardView,
        store: StoreView,
        envelope: ControlEnvelope,
        now_unix_ms: u64,
    ) -> bool {
        &&& self.spec_early_refusal(guard, envelope) is None
        &&& guard.spec_authorize(store, envelope, Permission::ReceivePresentation, now_unix_ms)
            is Ok
        &&& self.spec_mismatch(envelope) is None
    }
}

impl PendingPresentationKeyAck {
    #[must_use]
    pub fn principal(&self) -> (principal: PrincipalId)
        ensures
            principal == self@.principal,
    {
        self.principal
    }

    #[must_use]
    pub fn request_id(&self) -> (id: u64)
        ensures
            id == self@.request_id,
    {
        self.request_id
    }

    #[must_use]
    pub fn epoch(&self) -> (epoch: GroupMediaEpoch)
        ensures
            epoch == self@.epoch,
    {
        self.epoch
    }

    #[must_use]
    pub fn is_acknowledged(&self) -> (acknowledged: bool)
        ensures
            acknowledged == self@.acknowledged,
    {
        self.acknowledged
    }

    /// Takes a message as the answer that is due, where it is: then the receiver has
    /// installed the key.
    pub fn accept(
        &mut self,
        guard: &mut AuthenticatedControlGuard,
        authorization: &AuthorizationStore,
        coordinator: &mut GroupMediaCoordinator,
        envelope: &ControlEnvelope,
        now_unix_ms: u64,
    ) -> (result: Result<(), PresentationKeyAckError>)
        requires
            authorization.wf(),
            old(coordinator).wf(),
        ensures
            final(coordinator).wf(),
            match result {
                Ok(()) => old(self)@.spec_refusal(
                    old(guard)@,
                    authorization@,
                    old(coordinator)@,
                    *envelope,
                    now_unix_ms,
                ) is None,
                Err(error) => old(self)@.spec_refusal(
                    old(guard)@,
                    authorization@,
                    old(coordinator)@,
                    *envelope,
                    now_unix_ms,
                ) == Some(error),
            },
            final(self)@ == (PendingView {
                acknowledged: old(self)@.acknowledged || result is Ok,
                ..old(self)@
            }),
            final(guard)@ == if old(self)@.spec_early_refusal(old(guard)@, *envelope) is None {
                old(guard)@.spec_after(*envelope)
            } else {
                old(guard)@
            },
            final(coordinator)@ == if old(self)@.spec_reaches_coordinator(
                old(guard)@,
                authorization@,
                *envelope,
                now_unix_ms,
            ) {
                let reconciled = old(coordinator)@.spec_reconciled(authorization@);
                if result is Ok {
                    reconciled.spec_with_state(
                        old(self)@.principal,
                        GroupMediaReceiverInstallState::Installed(old(self)@.epoch),
                    )
                } else {
                    reconciled
                }
            } else {
                old(coordinator)@
            },
    {
        if self.acknowledged {
            return Err(PresentationKeyAckError::AlreadyAcknowledged);
        }
        let ack = match &envelope.payload {
            Some(Payload::PresentationKeyAck(ack)) => ack,
            _ => return Err(PresentationKeyAckError::UnexpectedPayload),
        };
        match validate_key_ack(ack) {
            Ok(()) => {},
            Err(error) => return Err(PresentationKeyAckError::InvalidAck(error)),
        }
        if guard.peer().principal_id() != self.principal {
            return Err(PresentationKeyAckError::PeerMismatch);
        }
        if envelope.control_session_id != self.control_session_id {
            return Err(
                PresentationKeyAckError::SessionMismatch {
                    expected: self.control_session_id,
                    received: envelope.control_session_id,
                },
            );
        }
        match guard.authorize(
            authorization,
            envelope,
            Permission::ReceivePresentation,
            now_unix_ms,
        ) {
            Ok(()) => {},
            Err(error) => return Err(PresentationKeyAckError::Authorization(error)),
        }
        if envelope.request_id != self.request_id {
            return Err(
                PresentationKeyAckError::RequestMismatch {
                    expected: self.request_id,
                    received: envelope.request_id,
                },
            );
        }
        if ack.presentation_id != self.presentation_id {
            return Err(
                PresentationKeyAckError::PresentationMismatch {
                    expected: self.presentation_id,
                    received: ack.presentation_id,
                },
            );
        }
        if ack.stream_id != self.stream_id {
            return Err(
                PresentationKeyAckError::StreamMismatch {
                    expected: self.stream_id,
                    received: ack.stream_id,
                },
            );
        }
        if ack.epoch != self.epoch.get() {
            return Err(
                PresentationKeyAckError::EpochMismatch {
                    expected: self.epoch.get(),
                    received: ack.epoch,
                },
            );
        }
        match coordinator.mark_installed(authorization, self.principal, self.epoch) {
            Ok(()) => {},
            Err(error) => return Err(PresentationKeyAckError::Coordinator(error)),
        }
        self.acknowledged = true;
        Ok(())
    }
}

/// A receiver that installs the key that it was handed and answers for it is taken at its
/// word: the answer that it builds is the one that is due, unless its session, its right or
/// the epoch has changed in between.
pub proof fn law_answer_of_an_installed_key_is_due(
    bound: BoundView,
    delivery: ControlEnvelope,
    pending: PendingView,
    installed: super::group_media_key::InstalledView,
    guard: GuardView,
    sequence: u64,
    material: Seq<u8>,
)
    requires
        bound.control_session_id != 0,
        pending.request_id != 0,
        sequence != 0,
        !pending.acknowledged,
        pending.principal == bound.principal,
        pending.control_session_id == bound.control_session_id,
        is_key_delivery(
            delivery,
            bound,
            pending.presentation_id,
            pending.stream_id,
            pending.request_id,
            sequence,
            pending.epoch,
            material,
        ),
        crate::protocol::group_media_control::spec_validate_binding(
            pending.presentation_id,
            pending.stream_id,
            pending.epoch.spec_get(),
        ) is Ok,
        installed.presentation_id == pending.presentation_id,
        installed.stream_id == pending.stream_id,
        installed.epoch.spec_get() == pending.epoch.spec_get(),
        guard.peer.principal_id == pending.principal,
    ensures
        ({
            let answer = super::group_media_key::spec_build_ack(delivery, installed, sequence);
            &&& answer is Ok
            &&& pending.spec_early_refusal(guard, answer->Ok_0) is None
            &&& pending.spec_mismatch(answer->Ok_0) is None
        }),
{
}

/// A receiver is bound to its session if and only if the session is one that both sides name, the
/// peer is who said hello, it is a student's device, and group media was negotiated. Each of these
/// binds by itself, and the binding names that peer, session and version.
pub proof fn law_only_receivers_are_bound(
    session: super::handshake::EstablishedView,
    peer: EstablishedAuthenticatedPeer,
)
    ensures
        ({
            let result = spec_bind(session, peer);
            let available = crate::protocol::group_media_control::has_group_media(
                session.negotiated.version,
                session.negotiated.capabilities,
            );
            &&& session.control_session_id == 0 ==> result is Err
            &&& peer.control_session_id != session.control_session_id ==> result is Err
            &&& session.negotiated.principal_id != peer.identity.principal_id ==> result is Err
            &&& session.negotiated.role != ControlRole::StudentDevice ==> result is Err
            &&& !available ==> result is Err
            &&& session.control_session_id != 0 && peer.control_session_id
                == session.control_session_id && session.negotiated.principal_id
                == peer.identity.principal_id && session.negotiated.role
                == ControlRole::StudentDevice && available ==> result is Ok
            &&& result matches Ok(bound) ==> bound.principal == peer.identity.principal_id
                && bound.control_session_id == session.control_session_id && bound.protocol_version
                == session.negotiated.version
        }),
{
}

/// An answer counts only once, from the peer and in the session that it is due from, and for the
/// request, presentation, stream and epoch that it is due for. Each of these binds by itself.
pub proof fn law_answers_bind_everything(
    pending: PendingView,
    guard: GuardView,
    store: StoreView,
    coordinator: CoordinatorView,
    envelope: ControlEnvelope,
    now_unix_ms: u64,
)
    ensures
        ({
            let refusal = pending.spec_refusal(guard, store, coordinator, envelope, now_unix_ms);
            let authorized = guard.spec_authorize(
                store,
                envelope,
                Permission::ReceivePresentation,
                now_unix_ms,
            );
            &&& pending.acknowledged ==> refusal == Some(
                PresentationKeyAckError::AlreadyAcknowledged,
            )
            &&& !(envelope.payload is Some && envelope.payload->Some_0 is PresentationKeyAck)
                ==> refusal is Some
            &&& guard.peer.principal_id != pending.principal ==> refusal is Some
            &&& envelope.control_session_id != pending.control_session_id ==> refusal is Some
            &&& envelope.request_id != pending.request_id ==> refusal is Some
            &&& authorized is Err ==> refusal is Some
            &&& envelope.payload matches Some(Payload::PresentationKeyAck(ack)) ==> {
                &&& ack.presentation_id != pending.presentation_id ==> refusal is Some
                &&& ack.stream_id != pending.stream_id ==> refusal is Some
                &&& ack.epoch != pending.epoch.spec_get() ==> refusal is Some
                &&& !pending.acknowledged && guard.peer.principal_id == pending.principal
                    && envelope.control_session_id == pending.control_session_id
                    && envelope.request_id == pending.request_id && authorized is Ok
                    && ack.presentation_id == pending.presentation_id && ack.stream_id
                    == pending.stream_id && ack.epoch == pending.epoch.spec_get()
                    && ack.presentation_id != 0 && 1 <= ack.stream_id <= 0xFFFF_FFFF && ack.epoch
                    != 0 ==> match coordinator.spec_reconciled(store).spec_install_refusal(
                    store,
                    pending.principal,
                    pending.epoch,
                ) {
                    Some(error) => refusal == Some(PresentationKeyAckError::Coordinator(error)),
                    None => refusal is None,
                }
            }
        }),
{
}

/// What delivers a key goes to the receiver's own session, in its version and under its request,
/// and carries the key of the epoch for the presentation and the stream.
pub proof fn law_delivery_carries_the_key(
    envelope: ControlEnvelope,
    bound: BoundView,
    presentation_id: u64,
    stream_id: u64,
    request_id: u64,
    sequence: u64,
    epoch: GroupMediaEpoch,
    material: Seq<u8>,
)
    requires
        is_key_delivery(
            envelope,
            bound,
            presentation_id,
            stream_id,
            request_id,
            sequence,
            epoch,
            material,
        ),
    ensures
        envelope.control_session_id == bound.control_session_id,
        envelope.sequence == sequence,
        envelope.request_id == request_id,
        envelope.protocol_version is Some,
        envelope.protocol_version->Some_0.major == bound.protocol_version.major,
        envelope.protocol_version->Some_0.minor == bound.protocol_version.minor,
        envelope.payload is Some && envelope.payload->Some_0 is PresentationKeyGrant,
        ({
            let grant = envelope.payload->Some_0->PresentationKeyGrant_0;
            &&& grant.presentation_id == presentation_id
            &&& grant.stream_id == stream_id
            &&& grant.epoch == epoch.spec_get()
            &&& grant.key_material@ == material
        }),
{
}

} // verus!
