//! When group-media keys may be exchanged, and which exchanges are well-formed.

use super::control_wire::{PresentationKeyAck, PresentationKeyGrant};
use super::{Capability, ProtocolVersion};
use crate::ordered::OrderedSet;
use vstd::prelude::*;
use vstd::string::StringExecFns;

verus! {

pub const PRESENTATION_GROUP_KEY_BYTES: usize = 32;

/// The first version that has group-media keys, by its parts.
pub const GROUP_MEDIA_CONTROL_MIN_MAJOR: u16 = 0;

pub const GROUP_MEDIA_CONTROL_MIN_MINOR: u16 = 4;

#[derive(Debug, Clone, Copy, PartialEq, Eq, Structural)]
pub enum GroupMediaControlError {
    InvalidPresentationId,
    InvalidStreamId,
    StreamIdOutOfRange,
    InvalidEpoch,
    InvalidKeyLength { actual: usize },
}

impl GroupMediaControlError {
    /// The value as it is written for developers.
    pub open spec fn spec_debug(self) -> Seq<char> {
        match self {
            GroupMediaControlError::InvalidPresentationId => "InvalidPresentationId"@,
            GroupMediaControlError::InvalidStreamId => "InvalidStreamId"@,
            GroupMediaControlError::StreamIdOutOfRange => "StreamIdOutOfRange"@,
            GroupMediaControlError::InvalidEpoch => "InvalidEpoch"@,
            GroupMediaControlError::InvalidKeyLength { actual } => "InvalidKeyLength { actual: "@
                + crate::text::decimal(actual as nat) + " }"@,
        }
    }

    /// Appends the value as it is written for developers.
    pub fn push_debug(&self, text: &mut String)
        ensures
            final(text)@ == old(text)@ + self.spec_debug(),
    {
        match self {
            GroupMediaControlError::InvalidPresentationId => text.append("InvalidPresentationId"),
            GroupMediaControlError::InvalidStreamId => text.append("InvalidStreamId"),
            GroupMediaControlError::StreamIdOutOfRange => text.append("StreamIdOutOfRange"),
            GroupMediaControlError::InvalidEpoch => text.append("InvalidEpoch"),
            GroupMediaControlError::InvalidKeyLength { actual } => {
                text.append("InvalidKeyLength { actual: ");
                crate::text::push_decimal(text, *actual as u64);
                text.append(" }");
            },
        }
        proof {
            assert(text@ =~= old(text)@ + self.spec_debug());
        }
    }
}

/// The first version that has group-media keys.
#[must_use]
pub fn group_media_control_min_version() -> (version: ProtocolVersion)
    ensures
        version.major == GROUP_MEDIA_CONTROL_MIN_MAJOR,
        version.minor == GROUP_MEDIA_CONTROL_MIN_MINOR,
{
    ProtocolVersion { major: GROUP_MEDIA_CONTROL_MIN_MAJOR, minor: GROUP_MEDIA_CONTROL_MIN_MINOR }
}

/// The version has group-media keys, and both sides have what they are for.
pub open spec fn has_group_media(version: ProtocolVersion, capabilities: Set<Capability>) -> bool {
    &&& version.major == GROUP_MEDIA_CONTROL_MIN_MAJOR
    &&& version.minor >= GROUP_MEDIA_CONTROL_MIN_MINOR
    &&& capabilities.contains(Capability::TeacherPresentation)
    &&& capabilities.contains(Capability::SframeGroupMedia)
}

#[must_use]
pub fn group_media_control_available(
    version: ProtocolVersion,
    capabilities: &OrderedSet<Capability>,
) -> (available: bool)
    requires
        capabilities.wf(),
    ensures
        available == has_group_media(version, capabilities@),
{
    version.major == GROUP_MEDIA_CONTROL_MIN_MAJOR && version.minor
        >= GROUP_MEDIA_CONTROL_MIN_MINOR && capabilities.contains(
        &Capability::TeacherPresentation,
    ) && capabilities.contains(&Capability::SframeGroupMedia)
}

/// The first rule that a presentation, stream and epoch break, in the order in which they are
/// tested.
pub open spec fn spec_validate_binding(presentation_id: u64, stream_id: u64, epoch: u32) -> Result<
    (),
    GroupMediaControlError,
> {
    if presentation_id == 0 {
        Err(GroupMediaControlError::InvalidPresentationId)
    } else if stream_id == 0 {
        Err(GroupMediaControlError::InvalidStreamId)
    } else if stream_id > u32::MAX {
        Err(GroupMediaControlError::StreamIdOutOfRange)
    } else if epoch == 0 {
        Err(GroupMediaControlError::InvalidEpoch)
    } else {
        Ok(())
    }
}

/// What validating a grant with a key of some length leads to.
pub open spec fn spec_validate_key_grant(
    presentation_id: u64,
    stream_id: u64,
    epoch: u32,
    key_length: usize,
) -> Result<(), GroupMediaControlError> {
    match spec_validate_binding(presentation_id, stream_id, epoch) {
        Err(error) => Err(error),
        Ok(()) => if key_length != PRESENTATION_GROUP_KEY_BYTES {
            Err(GroupMediaControlError::InvalidKeyLength { actual: key_length })
        } else {
            Ok(())
        },
    }
}

pub fn validate_key_grant(grant: &PresentationKeyGrant) -> (result: Result<
    (),
    GroupMediaControlError,
>)
    ensures
        result == spec_validate_key_grant(
            grant.presentation_id,
            grant.stream_id,
            grant.epoch,
            grant.key_material@.len() as usize,
        ),
        result is Ok ==> grant.key_material@.len() == PRESENTATION_GROUP_KEY_BYTES,
{
    match validate_binding(grant.presentation_id, grant.stream_id, grant.epoch) {
        Ok(()) => {},
        Err(error) => return Err(error),
    }
    if grant.key_material.len() != PRESENTATION_GROUP_KEY_BYTES {
        return Err(GroupMediaControlError::InvalidKeyLength { actual: grant.key_material.len() });
    }
    Ok(())
}

pub fn validate_key_ack(ack: &PresentationKeyAck) -> (result: Result<(), GroupMediaControlError>)
    ensures
        result == spec_validate_binding(ack.presentation_id, ack.stream_id, ack.epoch),
{
    validate_binding(ack.presentation_id, ack.stream_id, ack.epoch)
}

fn validate_binding(presentation_id: u64, stream_id: u64, epoch: u32) -> (result: Result<
    (),
    GroupMediaControlError,
>)
    ensures
        result == spec_validate_binding(presentation_id, stream_id, epoch),
{
    if presentation_id == 0 {
        return Err(GroupMediaControlError::InvalidPresentationId);
    }
    if stream_id == 0 {
        return Err(GroupMediaControlError::InvalidStreamId);
    }
    if stream_id > u32::MAX as u64 {
        return Err(GroupMediaControlError::StreamIdOutOfRange);
    }
    if epoch == 0 {
        return Err(GroupMediaControlError::InvalidEpoch);
    }
    Ok(())
}

/// Keys are exchanged from version 0.4 of the protocol on and within its major number, where both
/// capabilities were negotiated. Each of these conditions binds by itself.
pub proof fn law_group_media_needs_everything(
    version: ProtocolVersion,
    capabilities: Set<Capability>,
)
    ensures
        version.major != 0 ==> !has_group_media(version, capabilities),
        version.minor < 4 ==> !has_group_media(version, capabilities),
        !capabilities.contains(Capability::TeacherPresentation) ==> !has_group_media(
            version,
            capabilities,
        ),
        !capabilities.contains(Capability::SframeGroupMedia) ==> !has_group_media(
            version,
            capabilities,
        ),
        version.major == 0 && version.minor >= 4 && capabilities.contains(
            Capability::TeacherPresentation,
        ) && capabilities.contains(Capability::SframeGroupMedia) ==> has_group_media(
            version,
            capabilities,
        ),
{
}

/// A key belongs to a presentation, a stream and an epoch, none of them zero, and has 32 bytes.
/// The first rule that is broken is the one that is told.
pub proof fn law_key_grants_are_complete(
    presentation_id: u64,
    stream_id: u64,
    epoch: u32,
    key_length: usize,
)
    ensures
        ({
            let bound = spec_validate_binding(presentation_id, stream_id, epoch);
            let granted = spec_validate_key_grant(presentation_id, stream_id, epoch, key_length);
            &&& bound is Ok <==> presentation_id != 0 && 1 <= stream_id <= 0xFFFF_FFFF && epoch
                != 0
            &&& presentation_id == 0 ==> bound == Err::<(), _>(
                GroupMediaControlError::InvalidPresentationId,
            )
            &&& presentation_id != 0 && stream_id == 0 ==> bound == Err::<(), _>(
                GroupMediaControlError::InvalidStreamId,
            )
            &&& presentation_id != 0 && stream_id > 0xFFFF_FFFF ==> bound == Err::<(), _>(
                GroupMediaControlError::StreamIdOutOfRange,
            )
            &&& presentation_id != 0 && 1 <= stream_id <= 0xFFFF_FFFF && epoch == 0 ==> bound
                == Err::<(), _>(GroupMediaControlError::InvalidEpoch)
            &&& bound is Err ==> granted == bound
            &&& bound is Ok && key_length == 32 ==> granted is Ok
            &&& bound is Ok && key_length != 32 ==> granted == Err::<(), _>(
                GroupMediaControlError::InvalidKeyLength { actual: key_length },
            )
        }),
{
}

} // verus!
