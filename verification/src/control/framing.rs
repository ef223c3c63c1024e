//! Control messages on a byte stream: each behind its length.

use crate::bytes::{copy_range, push_all, push_be, read_u32};
use crate::wipe::wipe_vec;
use vstd::prelude::*;
use vstd::string::StringExecFns;

verus! {

pub const CONTROL_LENGTH_PREFIX_BYTES: usize = 4;

pub const MAX_CONTROL_MESSAGE_BYTES: usize = 262_144;

#[verifier::external_type_specification]
#[verifier::external_body]
pub struct ExDecodeError(prost::DecodeError);

#[derive(Debug)]
pub enum FrameError {
    EmptyMessage,
    MessageTooLarge { length: usize, maximum: usize },
    LengthMismatch { declared: usize, actual: usize },
    /// The payload is no message.
    Decode(prost::DecodeError),
}

/// What a failure to decode a message says.
pub uninterp spec fn decode_error_text(error: prost::DecodeError) -> Seq<char>;

/// Formats a `prost::DecodeError` with its `Display`: the text is a function of the error.
#[verifier::external_body]
fn decode_error_message(error: &prost::DecodeError) -> (text: String)
    ensures
        text@ == decode_error_text(*error),
{
    format!("{error}")
}

impl FrameError {
    /// What the error says.
    pub open spec fn spec_message(self) -> Seq<char> {
        match self {
            FrameError::EmptyMessage => "control message payload must not be empty"@,
            FrameError::MessageTooLarge { length, maximum } => "control message payload is "@
                + crate::text::decimal(length as nat) + " bytes; maximum is "@
                + crate::text::decimal(maximum as nat),
            FrameError::LengthMismatch { declared, actual } => "control frame declares "@
                + crate::text::decimal(declared as nat) + " payload bytes but contains "@
                + crate::text::decimal(actual as nat),
            FrameError::Decode(error) => "invalid control protobuf: "@ + decode_error_text(error),
        }
    }

    /// The text for people.
    #[must_use]
    pub fn message(&self) -> (text: String)
        ensures
            text@ == self.spec_message(),
    {
        match self {
            FrameError::EmptyMessage => "control message payload must not be empty".to_owned(),
            FrameError::MessageTooLarge { length, maximum } => {
                let mut text: String = "control message payload is ".to_owned();
                crate::text::push_decimal(&mut text, *length as u64);
                text.append(" bytes; maximum is ");
                crate::text::push_decimal(&mut text, *maximum as u64);
                text
            },
            FrameError::LengthMismatch { declared, actual } => {
                let mut text: String = "control frame declares ".to_owned();
                crate::text::push_decimal(&mut text, *declared as u64);
                text.append(" payload bytes but contains ");
                crate::text::push_decimal(&mut text, *actual as u64);
                text
            },
            FrameError::Decode(error) => {
                let mut text: String = "invalid control protobuf: ".to_owned();
                text.append(decode_error_message(error).as_str());
                text
            },
        }
    }
}

impl From<prost::DecodeError> for FrameError {
    fn from(error: prost::DecodeError) -> (mapped: Self) {
        FrameError::Decode(error)
    }
}

impl vstd::std_specs::convert::FromSpecImpl<prost::DecodeError> for FrameError {
    open spec fn obeys_from_spec() -> bool {
        true
    }

    open spec fn from_spec(error: prost::DecodeError) -> Self {
        FrameError::Decode(error)
    }
}

/// What validating a payload's length leads to.
pub open spec fn spec_validate_len(length: usize) -> Result<(), FrameError> {
    if length == 0 {
        Err(FrameError::EmptyMessage)
    } else if length > MAX_CONTROL_MESSAGE_BYTES {
        Err(FrameError::MessageTooLarge { length, maximum: MAX_CONTROL_MESSAGE_BYTES })
    } else {
        Ok(())
    }
}

pub fn validate_payload_len(length: usize) -> (result: Result<(), FrameError>)
    ensures
        result == spec_validate_len(length),
{
    if length == 0 {
        return Err(FrameError::EmptyMessage);
    }
    if length > MAX_CONTROL_MESSAGE_BYTES {
        return Err(FrameError::MessageTooLarge { length, maximum: MAX_CONTROL_MESSAGE_BYTES });
    }
    Ok(())
}

/// A payload behind its length.
pub open spec fn spec_frame(payload: Seq<u8>) -> Seq<u8> {
    crate::bytes::be_bytes(payload.len(), 4) + payload
}

/// Frames an encoded message.
///
/// Payloads can contain transient secrets (for example group-media key grants), so the
/// intermediate encoding is cleared here; the returned frame remains caller-owned.
pub fn encode_frame(payload: Vec<u8>) -> (result: Result<Vec<u8>, FrameError>)
    ensures
        match result {
            Ok(frame) => spec_validate_len(payload@.len() as usize) is Ok && frame@ == spec_frame(
                payload@,
            ),
            Err(error) => spec_validate_len(payload@.len() as usize) == Err::<(), FrameError>(
                error,
            ),
        },
{
    let ghost encoded = payload@;
    let mut payload = payload;
    let length: usize = payload.len();
    match validate_payload_len(length) {
        Ok(()) => {},
        Err(error) => {
            wipe_vec(&mut payload);
            return Err(error);
        },
    }
    let mut frame: Vec<u8> = Vec::new();
    push_be(&mut frame, length as u64, CONTROL_LENGTH_PREFIX_BYTES);
    push_all(&mut frame, payload.as_slice());
    proof {
        assert(frame@ =~= spec_frame(encoded));
    }
    wipe_vec(&mut payload);
    Ok(frame)
}

/// The length that a prefix declares.
pub open spec fn spec_declared_len(prefix: Seq<u8>) -> usize {
    crate::bytes::be_value(prefix) as usize
}

pub fn declared_payload_len(prefix: [u8; CONTROL_LENGTH_PREFIX_BYTES]) -> (result: Result<
    usize,
    FrameError,
>)
    ensures
        match result {
            Ok(length) => length == spec_declared_len(prefix@) && spec_validate_len(length) is Ok,
            Err(error) => spec_validate_len(spec_declared_len(prefix@)) == Err::<(), FrameError>(
                error,
            ),
        },
{
    proof {
        assert(crate::bytes::field(prefix@, 0, 4) =~= prefix@);
    }
    let length: usize = read_u32(prefix.as_slice(), 0) as usize;
    match validate_payload_len(length) {
        Ok(()) => Ok(length),
        Err(error) => Err(error),
    }
}

/// Why a frame is refused, if it is.
pub open spec fn spec_frame_refusal(frame: Seq<u8>) -> Option<FrameError> {
    if frame.len() < CONTROL_LENGTH_PREFIX_BYTES {
        Some(
            FrameError::LengthMismatch {
                declared: CONTROL_LENGTH_PREFIX_BYTES,
                actual: frame.len() as usize,
            },
        )
    } else {
        let declared = spec_declared_len(frame.take(4));
        match spec_validate_len(declared) {
            Err(error) => Some(error),
            Ok(()) => if frame.len() - 4 != declared {
                Some(
                    FrameError::LengthMismatch { declared, actual: (frame.len() - 4) as usize },
                )
            } else {
                None
            },
        }
    }
}

/// Takes the encoded message out of a frame.
pub fn decode_frame(frame: &[u8]) -> (result: Result<Vec<u8>, FrameError>)
    ensures
        match result {
            Ok(payload) => spec_frame_refusal(frame@) is None && payload@ == frame@.skip(4),
            Err(error) => spec_frame_refusal(frame@) == Some(error),
        },
{
    let total: usize = frame.len();
    if total < CONTROL_LENGTH_PREFIX_BYTES {
        return Err(
            FrameError::LengthMismatch { declared: CONTROL_LENGTH_PREFIX_BYTES, actual: total },
        );
    }
    let prefix: [u8; 4] = [frame[0], frame[1], frame[2], frame[3]];
    proof {
        assert(prefix@ =~= frame@.take(4));
    }
    let declared: usize = match declared_payload_len(prefix) {
        Ok(declared) => declared,
        Err(error) => return Err(error),
    };
    let actual: usize = total - CONTROL_LENGTH_PREFIX_BYTES;
    if actual != declared {
        return Err(FrameError::LengthMismatch { declared, actual });
    }
    let payload = copy_range(frame, CONTROL_LENGTH_PREFIX_BYTES, total);
    proof {
        assert(payload@ =~= frame@.skip(4));
    }
    Ok(payload)
}

/// A framed message comes out of its frame again, and its prefix tells how much there is to
/// read.
pub proof fn law_frame_round_trip(payload: Seq<u8>)
    requires
        0 < payload.len() <= MAX_CONTROL_MESSAGE_BYTES,
    ensures
        spec_declared_len(spec_frame(payload).take(4)) == payload.len(),
        spec_frame_refusal(spec_frame(payload)) is None,
        spec_frame(payload).skip(4) == payload,
{
    let frame = spec_frame(payload);
    crate::bytes::lemma_be_bytes_len(payload.len(), 4);
    crate::bytes::lemma_pow256_values();
    crate::bytes::lemma_be_round_trip(payload.len(), 4);
    assert(frame.take(4) =~= crate::bytes::be_bytes(payload.len(), 4));
    assert(frame.skip(4) =~= payload);
}

/// A length is taken from one byte up to the limit, and told where it is beyond.
pub proof fn law_message_lengths(length: usize)
    ensures
        1 <= length <= 262_144 ==> spec_validate_len(length) is Ok,
        length == 0 ==> spec_validate_len(length) == Err::<(), _>(FrameError::EmptyMessage),
        length > 262_144 ==> spec_validate_len(length) == Err::<(), _>(
            FrameError::MessageTooLarge { length, maximum: 262_144 },
        ),
{
}

/// A frame is taken if and only if it is its length, most significant byte first, and just as many
/// bytes; a frame is never longer than what it carries by more than these four.
pub proof fn law_frame_layout(frame: Seq<u8>)
    requires
        frame.len() >= 4,
    ensures
        ({
            let declared = 0x100_0000 * frame[0] + 0x1_0000 * frame[1] + 256 * frame[2] + frame[3];
            &&& spec_declared_len(frame.take(4)) == declared
            &&& spec_frame_refusal(frame) is None <==> 1 <= declared <= 262_144 && frame.len()
                == 4 + declared
            &&& 1 <= declared <= 262_144 && frame.len() <= usize::MAX && frame.len() != 4
                + declared ==> spec_frame_refusal(frame) == Some(
                FrameError::LengthMismatch {
                    declared: declared as usize,
                    actual: (frame.len() - 4) as usize,
                },
            )
        }),
{
    crate::bytes::law_fields_are_big_endian(frame, 0);
    assert(frame.take(4) =~= crate::bytes::field(frame, 0, 4));
}

/// What is shorter than a length is no frame.
pub proof fn law_short_frames_are_refused(frame: Seq<u8>)
    requires
        frame.len() < 4,
    ensures
        spec_frame_refusal(frame) == Some(
            FrameError::LengthMismatch { declared: 4, actual: frame.len() as usize },
        ),
{
}

} // verus!
