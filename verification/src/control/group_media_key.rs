//! A receiver's side of a group-media key: installing it and answering for it.

use crate::protocol::control_wire::{
    ControlEnvelope, Payload, PresentationKeyAck, PresentationKeyGrant,
};
use crate::protocol::group_media_control::{
    validate_key_ack, validate_key_grant, GroupMediaControlError,
};
use crate::security::group_media::{
    GroupMediaEpoch, GroupMediaError, GroupMediaKeyMaterial, GroupMediaReceiver, MediaReceiverView,
    OpenOutcome,
};
use crate::wipe::wipe_vec;
use vstd::prelude::*;
use vstd::string::StringExecFns;

verus! {

/// A key that was installed, with what it is for.
pub struct InstalledPresentationKey {
    presentation_id: u64,
    stream_id: u32,
    epoch: GroupMediaEpoch,
    receiver: GroupMediaReceiver,
}

/// What an installed key is for, and the state of its receiver.
pub struct InstalledView {
    pub presentation_id: u64,
    pub stream_id: u32,
    pub epoch: GroupMediaEpoch,
    pub receiver: MediaReceiverView,
}

impl View for InstalledPresentationKey {
    type V = InstalledView;

    closed spec fn view(&self) -> InstalledView {
        InstalledView {
            presentation_id: self.presentation_id,
            stream_id: self.stream_id,
            epoch: self.epoch,
            receiver: self.receiver@,
        }
    }
}

impl InstalledView {
    /// What the key is for as it is written for developers: of the key itself nothing.
    pub open spec fn spec_debug(self) -> Seq<char> {
        "InstalledPresentationKey { presentation_id: "@ + crate::text::decimal(
            self.presentation_id as nat,
        ) + ", stream_id: "@ + crate::text::decimal(self.stream_id as nat) + ", epoch: "@
            + self.epoch.spec_debug() + ", .. }"@
    }
}

impl InstalledPresentationKey {
    /// The receiver is sound.
    pub closed spec fn wf(self) -> bool {
        self.receiver.wf()
    }

    #[must_use]
    pub fn presentation_id(&self) -> (id: u64)
        ensures
            id == self@.presentation_id,
    {
        self.presentation_id
    }

    #[must_use]
    pub fn stream_id(&self) -> (id: u32)
        ensures
            id == self@.stream_id,
    {
        self.stream_id
    }

    #[must_use]
    pub fn epoch(&self) -> (epoch: GroupMediaEpoch)
        ensures
            epoch == self@.epoch,
    {
        self.epoch
    }

    /// What the key is for as it is written for developers: of the key itself nothing.
    #[must_use]
    pub fn debug_text(&self) -> (text: String)
        ensures
            text@ == self@.spec_debug(),
    {
        let mut text: String = "InstalledPresentationKey { presentation_id: ".to_owned();
        crate::text::push_decimal(&mut text, self.presentation_id);
        text.append(", stream_id: ");
        crate::text::push_decimal(&mut text, self.stream_id as u64);
        text.append(", epoch: ");
        self.epoch.push_debug(&mut text);
        text.append(", .. }");
        text
    }

    /// Opens a sealed frame of the presentation.
    pub fn open_frame(&mut self, sealed: &[u8], associated_data: &[u8]) -> (result: Result<
        Vec<u8>,
        GroupMediaError,
    >)
        requires
            old(self).wf(),
        ensures
            final(self).wf(),
            ({
                let outcome = old(self)@.receiver.spec_open(sealed@, associated_data@);
                &&& final(self)@ == InstalledView {
                    receiver: old(self)@.receiver.spec_after_open(outcome),
                    ..old(self)@
                }
                &&& crate::security::group_media::is_open_result(
                    result,
                    outcome,
                    sealed@,
                    associated_data@,
                )
            }),
    {
        self.receiver.open_frame(sealed, associated_data)
    }
}

#[derive(Debug)]
pub enum PresentationKeyInstallError {
    InvalidWire(GroupMediaControlError),
    Security(GroupMediaError),
}

impl PresentationKeyInstallError {
    /// What the error says.
    pub open spec fn spec_message(self) -> Seq<char> {
        match self {
            PresentationKeyInstallError::InvalidWire(error) => "invalid presentation key grant: "@
                + error.spec_debug(),
            PresentationKeyInstallError::Security(error) => "presentation key install failed: "@
                + error.spec_message(),
        }
    }

    /// The text for people.
    #[must_use]
    pub fn message(&self) -> (text: String)
        ensures
            text@ == self.spec_message(),
    {
        match self {
            PresentationKeyInstallError::InvalidWire(error) => {
                let mut text: String = "invalid presentation key grant: ".to_owned();
                error.push_debug(&mut text);
                text
            },
            PresentationKeyInstallError::Security(error) => {
                let mut text: String = "presentation key install failed: ".to_owned();
                text.append(error.message().as_str());
                text
            },
        }
    }
}

/// What validating a grant leads to.
pub open spec fn spec_validate_grant(grant: PresentationKeyGrant) -> Result<
    (),
    GroupMediaControlError,
> {
    crate::protocol::group_media_control::spec_validate_key_grant(
        grant.presentation_id,
        grant.stream_id,
        grant.epoch,
        grant.key_material@.len() as usize,
    )
}

/// Validates and installs one received v0.4 group-media key grant.
///
/// The raw protobuf key bytes are zeroized before this function returns on both
/// success and validation/security failure. On success only the derived SFrame
/// decryption/replay state remains; raw base-key bytes are not retained here.
pub fn install_received_presentation_key(grant: &mut PresentationKeyGrant) -> (result: Result<
    InstalledPresentationKey,
    PresentationKeyInstallError,
>)
    ensures
        final(grant).key_material@ == Seq::<u8>::empty(),
        final(grant).presentation_id == old(grant).presentation_id,
        final(grant).stream_id == old(grant).stream_id,
        final(grant).epoch == old(grant).epoch,
        match result {
            Ok(installed) => {
                &&& spec_validate_grant(*old(grant)) is Ok
                &&& installed.wf()
                &&& installed@.presentation_id == old(grant).presentation_id
                &&& installed@.stream_id == old(grant).stream_id
                &&& installed@.epoch.spec_get() == old(grant).epoch
                &&& installed@.receiver == crate::security::group_media::fresh_receiver(
                    installed@.epoch,
                    old(grant).key_material@,
                    crate::security::group_media::DEFAULT_GROUP_MEDIA_REPLAY_TOLERANCE_FRAMES as int,
                )
            },
            Err(PresentationKeyInstallError::InvalidWire(error)) => spec_validate_grant(*old(grant))
                == Err::<(), GroupMediaControlError>(error),
            Err(PresentationKeyInstallError::Security(_)) => false,
        },
{
    match validate_key_grant(grant) {
        Ok(()) => {},
        Err(error) => {
            wipe_vec(&mut grant.key_material);
            return Err(PresentationKeyInstallError::InvalidWire(error));
        },
    }
    let key_material = match GroupMediaKeyMaterial::import_received_wire(
        &mut grant.key_material,
    ) {
        Ok(material) => material,
        Err(error) => return Err(PresentationKeyInstallError::Security(error)),
    };
    let epoch = match GroupMediaEpoch::new(grant.epoch) {
        Ok(epoch) => epoch,
        Err(error) => return Err(PresentationKeyInstallError::Security(error)),
    };
    let stream_id: u32 = grant.stream_id as u32;
    let receiver = match GroupMediaReceiver::with_default_replay_tolerance(epoch, &key_material) {
        Ok(receiver) => receiver,
        Err(error) => return Err(PresentationKeyInstallError::Security(error)),
    };
    Ok(
        InstalledPresentationKey {
            presentation_id: grant.presentation_id,
            stream_id,
            epoch,
            receiver,
        },
    )
}

#[derive(Debug)]
pub enum PresentationKeyAckBuildError {
    UnexpectedPayload,
    InvalidSessionId,
    ZeroRequestId,
    ZeroSequence,
    MissingProtocolVersion,
    BindingMismatch,
    InvalidAck(GroupMediaControlError),
}

impl PresentationKeyAckBuildError {
    /// What the error says.
    pub open spec fn spec_message(self) -> Seq<char> {
        match self {
            PresentationKeyAckBuildError::UnexpectedPayload => {
                "expected PresentationKeyGrant payload"@
            },
            PresentationKeyAckBuildError::InvalidSessionId => {
                "presentation key grant control_session_id is zero"@
            },
            PresentationKeyAckBuildError::ZeroRequestId => {
                "presentation key grant request_id is zero"@
            },
            PresentationKeyAckBuildError::ZeroSequence => "presentation key ACK sequence is zero"@,
            PresentationKeyAckBuildError::MissingProtocolVersion => {
                "presentation key grant is missing protocol_version"@
            },
            PresentationKeyAckBuildError::BindingMismatch => {
                "installed presentation key does not match the received grant binding"@
            },
            PresentationKeyAckBuildError::InvalidAck(error) => "invalid presentation key ACK: "@
                + error.spec_debug(),
        }
    }

    /// The text for people.
    #[must_use]
    pub fn message(&self) -> (text: String)
        ensures
            text@ == self.spec_message(),
    {
        match self {
            PresentationKeyAckBuildError::UnexpectedPayload => {
                "expected PresentationKeyGrant payload".to_owned()
            },
            PresentationKeyAckBuildError::InvalidSessionId => {
                "presentation key grant control_session_id is zero".to_owned()
            },
            PresentationKeyAckBuildError::ZeroRequestId => {
                "presentation key grant request_id is zero".to_owned()
            },
            PresentationKeyAckBuildError::ZeroSequence => {
                "presentation key ACK sequence is zero".to_owned()
            },
            PresentationKeyAckBuildError::MissingProtocolVersion => {
                "presentation key grant is missing protocol_version".to_owned()
            },
            PresentationKeyAckBuildError::BindingMismatch => {
                "installed presentation key does not match the received grant binding".to_owned()
            },
            PresentationKeyAckBuildError::InvalidAck(error) => {
                let mut text: String = "invalid presentation key ACK: ".to_owned();
                error.push_debug(&mut text);
                text
            },
        }
    }
}

/// What answering a grant leads to: the answer repeats the grant's session, version, request,
/// presentation, stream and epoch.
pub open spec fn spec_build_ack(
    received: ControlEnvelope,
    installed: InstalledView,
    sequence: u64,
) -> Result<ControlEnvelope, PresentationKeyAckBuildError> {
    let ack = PresentationKeyAck {
        presentation_id: installed.presentation_id,
        stream_id: installed.stream_id as u64,
        epoch: installed.epoch.spec_get(),
    };
    if received.control_session_id == 0 {
        Err(PresentationKeyAckBuildError::InvalidSessionId)
    } else if received.request_id == 0 {
        Err(PresentationKeyAckBuildError::ZeroRequestId)
    } else if sequence == 0 {
        Err(PresentationKeyAckBuildError::ZeroSequence)
    } else if received.protocol_version is None {
        Err(PresentationKeyAckBuildError::MissingProtocolVersion)
    } else {
        match received.payload {
            Some(Payload::PresentationKeyGrant(grant)) => if grant.presentation_id
                != ack.presentation_id || grant.stream_id != ack.stream_id || grant.epoch
                != ack.epoch {
                Err(PresentationKeyAckBuildError::BindingMismatch)
            } else {
                match crate::protocol::group_media_control::spec_validate_binding(
                    ack.presentation_id,
                    ack.stream_id,
                    ack.epoch,
                ) {
                    Err(error) => Err(PresentationKeyAckBuildError::InvalidAck(error)),
                    Ok(()) => Ok(
                        ControlEnvelope {
                            control_session_id: received.control_session_id,
                            sequence,
                            protocol_version: received.protocol_version,
                            request_id: received.request_id,
                            payload: Some(Payload::PresentationKeyAck(ack)),
                        },
                    ),
                }
            },
            _ => Err(PresentationKeyAckBuildError::UnexpectedPayload),
        }
    }
}

/// Builds the receiver ACK for an already-installed key grant.
///
/// The caller must perform authenticated-session, replay/sequence and presentation-ownership
/// checks before installing the grant. This helper only preserves the exact wire correlation:
/// same control session, protocol version, request ID, presentation, stream and epoch. Because
/// installation zeroizes the raw grant bytes, constructing the ACK does not require retaining
/// or re-exposing the group key.
pub fn build_presentation_key_ack(
    received: &ControlEnvelope,
    installed: &InstalledPresentationKey,
    sequence: u64,
) -> (result: Result<ControlEnvelope, PresentationKeyAckBuildError>)
    ensures
        result == spec_build_ack(*received, installed@, sequence),
{
    if received.control_session_id == 0 {
        return Err(PresentationKeyAckBuildError::InvalidSessionId);
    }
    if received.request_id == 0 {
        return Err(PresentationKeyAckBuildError::ZeroRequestId);
    }
    if sequence == 0 {
        return Err(PresentationKeyAckBuildError::ZeroSequence);
    }
    let protocol_version = match received.protocol_version {
        Some(version) => version,
        None => return Err(PresentationKeyAckBuildError::MissingProtocolVersion),
    };
    let grant = match &received.payload {
        Some(Payload::PresentationKeyGrant(grant)) => grant,
        _ => return Err(PresentationKeyAckBuildError::UnexpectedPayload),
    };
    if grant.presentation_id != installed.presentation_id() || grant.stream_id
        != installed.stream_id() as u64 || grant.epoch != installed.epoch().get() {
        return Err(PresentationKeyAckBuildError::BindingMismatch);
    }
    let ack = PresentationKeyAck {
        presentation_id: installed.presentation_id(),
        stream_id: installed.stream_id() as u64,
        epoch: installed.epoch().get(),
    };
    match validate_key_ack(&ack) {
        Ok(()) => {},
        Err(error) => return Err(PresentationKeyAckBuildError::InvalidAck(error)),
    }
    Ok(
        ControlEnvelope {
            control_session_id: received.control_session_id,
            sequence,
            protocol_version: Some(protocol_version),
            request_id: received.request_id,
            payload: Some(Payload::PresentationKeyAck(ack)),
        },
    )
}

/// A receiver answers for the key that it has installed, and for no other: in the session, under
/// the request and in the version of the message that brought it, with its own number. Each of the
/// rules binds by itself.
pub proof fn law_answer_names_the_installed_key(
    received: ControlEnvelope,
    installed: InstalledView,
    sequence: u64,
)
    ensures
        ({
            let result = spec_build_ack(received, installed, sequence);
            &&& received.control_session_id == 0 ==> result == Err::<ControlEnvelope, _>(
                PresentationKeyAckBuildError::InvalidSessionId,
            )
            &&& received.request_id == 0 ==> result is Err
            &&& sequence == 0 ==> result is Err
            &&& received.protocol_version is None ==> result is Err
            &&& !(received.payload is Some && received.payload->Some_0 is PresentationKeyGrant)
                ==> result is Err
            &&& received.payload matches Some(Payload::PresentationKeyGrant(grant)) ==> {
                &&& grant.presentation_id != installed.presentation_id ==> result is Err
                &&& grant.stream_id != installed.stream_id ==> result is Err
                &&& grant.epoch != installed.epoch.spec_get() ==> result is Err
                &&& received.control_session_id != 0 && received.request_id != 0 && sequence != 0
                    && received.protocol_version is Some && grant.presentation_id
                    == installed.presentation_id && grant.stream_id == installed.stream_id
                    && grant.epoch == installed.epoch.spec_get() && grant.presentation_id != 0
                    && grant.stream_id != 0 && grant.epoch != 0 ==> result is Ok
            }
            &&& result matches Ok(answer) ==> {
                &&& answer.control_session_id == received.control_session_id
                &&& answer.request_id == received.request_id
                &&& answer.protocol_version == received.protocol_version
                &&& answer.sequence == sequence
                &&& answer.payload is Some && answer.payload->Some_0 is PresentationKeyAck
                &&& answer.payload->Some_0->PresentationKeyAck_0.presentation_id
                    == installed.presentation_id
                &&& answer.payload->Some_0->PresentationKeyAck_0.stream_id == installed.stream_id
                &&& answer.payload->Some_0->PresentationKeyAck_0.epoch
                    == installed.epoch.spec_get()
            }
        }),
{
}

} // verus!
