//! Which messages about presentations are well-formed.

use super::control_wire::{
    PresentationStart, PresentationState, PresentationStatus, PresentationStop,
};
use crate::text::byte_length;
use vstd::prelude::*;

verus! {

pub const MAX_PRESENTATION_DIAGNOSTIC_BYTES: usize = 1024;

#[derive(Debug, Clone, Copy, PartialEq, Eq, Structural)]
pub enum PresentationControlError {
    InvalidPresentationId,
    InvalidStreamId,
    StreamIdOutOfRange,
    InvalidState,
    DiagnosticTooLarge,
}

/// The first rule that a presentation and its stream break, in the order in which they are
/// tested.
pub open spec fn spec_validate_ids(presentation_id: u64, stream_id: u64) -> Result<
    (),
    PresentationControlError,
> {
    if presentation_id == 0 {
        Err(PresentationControlError::InvalidPresentationId)
    } else if stream_id == 0 {
        Err(PresentationControlError::InvalidStreamId)
    } else if stream_id > u32::MAX {
        Err(PresentationControlError::StreamIdOutOfRange)
    } else {
        Ok(())
    }
}

fn validate_ids(presentation_id: u64, stream_id: u64) -> (result: Result<
    (),
    PresentationControlError,
>)
    ensures
        result == spec_validate_ids(presentation_id, stream_id),
{
    if presentation_id == 0 {
        return Err(PresentationControlError::InvalidPresentationId);
    }
    if stream_id == 0 {
        return Err(PresentationControlError::InvalidStreamId);
    }
    if stream_id > u32::MAX as u64 {
        return Err(PresentationControlError::StreamIdOutOfRange);
    }
    Ok(())
}

pub fn validate_start(start: &PresentationStart) -> (result: Result<(), PresentationControlError>)
    ensures
        result == spec_validate_ids(start.presentation_id, start.stream_id),
{
    validate_ids(start.presentation_id, start.stream_id)
}

pub fn validate_stop(stop: &PresentationStop) -> (result: Result<(), PresentationControlError>)
    ensures
        match result {
            Ok(()) => stop.presentation_id != 0,
            Err(error) => stop.presentation_id == 0 && error
                == PresentationControlError::InvalidPresentationId,
        },
{
    if stop.presentation_id == 0 {
        return Err(PresentationControlError::InvalidPresentationId);
    }
    Ok(())
}

/// A state is named by a number that some state other than `Unspecified` has.
pub open spec fn is_specified_state(number: i32) -> bool {
    exists|state: PresentationState| #[trigger]
        state.spec_number() == number && state != PresentationState::Unspecified
}

pub fn validate_status(status: &PresentationStatus) -> (result: Result<
    (),
    PresentationControlError,
>)
    ensures
        result == match spec_validate_ids(status.presentation_id, status.stream_id) {
            Err(error) => Err(error),
            Ok(()) => if !is_specified_state(status.state) {
                Err(PresentationControlError::InvalidState)
            } else if crate::text::byte_len(status.diagnostic@)
                > MAX_PRESENTATION_DIAGNOSTIC_BYTES {
                Err(PresentationControlError::DiagnosticTooLarge)
            } else {
                Ok(())
            },
        },
{
    match validate_ids(status.presentation_id, status.stream_id) {
        Ok(()) => {},
        Err(error) => return Err(error),
    }
    match PresentationState::from_number(status.state) {
        None => return Err(PresentationControlError::InvalidState),
        Some(state) => {
            if state == PresentationState::Unspecified {
                return Err(PresentationControlError::InvalidState);
            }
        },
    }
    if byte_length(status.diagnostic.as_str()) > MAX_PRESENTATION_DIAGNOSTIC_BYTES {
        return Err(PresentationControlError::DiagnosticTooLarge);
    }
    Ok(())
}

/// A presentation and its stream have numbers other than zero, and that of the stream fits the
/// packets; each rule binds by itself, and nothing else is asked.
pub proof fn law_presentation_numbers(presentation_id: u64, stream_id: u64)
    ensures
        ({
            let result = spec_validate_ids(presentation_id, stream_id);
            &&& result is Ok <==> presentation_id >= 1 && 1 <= stream_id <= 0xFFFF_FFFF
            &&& presentation_id == 0 ==> result == Err::<(), _>(
                PresentationControlError::InvalidPresentationId,
            )
            &&& presentation_id >= 1 && stream_id == 0 ==> result == Err::<(), _>(
                PresentationControlError::InvalidStreamId,
            )
            &&& presentation_id >= 1 && stream_id > 0xFFFF_FFFF ==> result == Err::<(), _>(
                PresentationControlError::StreamIdOutOfRange,
            )
        }),
{
}

/// Active and rejected are the states that can be told, and no other number is one.
pub proof fn law_specified_states(number: i32)
    ensures
        is_specified_state(number) <==> number == 1 || number == 2,
{
    assert(PresentationState::Active.spec_number() == 1);
    assert(PresentationState::Rejected.spec_number() == 2);
}

} // verus!
