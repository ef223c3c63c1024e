//! Feedback datagrams from a receiver of media to its sender.

use super::{ProtocolVersion, PROTOCOL_MAJOR, PROTOCOL_MINOR};
use crate::bytes::{push_be, read_u16, read_u32, read_u64};
use vstd::prelude::*;
use vstd::string::StringExecFns;

verus! {

/// "CMF1" in ASCII.
pub const FEEDBACK_MAGIC: u32 = 0x434D_4631;

pub const FEEDBACK_HEADER_LEN: usize = 24;

pub const MAX_NACK_PACKET_INDICES: usize = 64;

pub const KIND_NACK: u8 = 1;

pub const KIND_REQUEST_KEYFRAME: u8 = 2;

/// What a receiver tells the sender.
#[derive(Debug, Clone, PartialEq, Eq)]
pub enum FeedbackMessage {
    Nack { stream_id: u32, frame_id: u64, missing_packet_indices: Vec<u16> },
    RequestKeyframe { stream_id: u32, after_frame_id: u64 },
}

#[derive(Debug, Clone, Copy, PartialEq, Eq, Structural)]
pub enum FeedbackCodecError {
    Truncated,
    BadMagic,
    VersionOutOfRange,
    IncompatibleMajorVersion { received: u8, expected: u8 },
    UnknownKind(u8),
    EmptyNack,
    TooManyMissingPackets,
    LengthMismatch,
}

impl FeedbackCodecError {
    /// What the error says.
    pub open spec fn spec_message(self) -> Seq<char> {
        match self {
            FeedbackCodecError::Truncated => "feedback datagram is truncated"@,
            FeedbackCodecError::BadMagic => "feedback datagram magic is invalid"@,
            FeedbackCodecError::VersionOutOfRange => {
                "protocol version does not fit feedback wire format"@
            },
            FeedbackCodecError::IncompatibleMajorVersion { received, expected } => {
                "feedback protocol major version "@ + crate::text::decimal(received as nat)
                    + " is incompatible with "@ + crate::text::decimal(expected as nat)
            },
            FeedbackCodecError::UnknownKind(value) => "unknown feedback message kind "@
                + crate::text::decimal(value as nat),
            FeedbackCodecError::EmptyNack => "NACK must contain at least one packet index"@,
            FeedbackCodecError::TooManyMissingPackets => "NACK packet-index list is too large"@,
            FeedbackCodecError::LengthMismatch => "feedback datagram length is inconsistent"@,
        }
    }

    /// The text for people.
    #[must_use]
    pub fn message(&self) -> (text: String)
        ensures
            text@ == self.spec_message(),
    {
        match self {
            FeedbackCodecError::Truncated => "feedback datagram is truncated".to_owned(),
            FeedbackCodecError::BadMagic => "feedback datagram magic is invalid".to_owned(),
            FeedbackCodecError::VersionOutOfRange => {
                "protocol version does not fit feedback wire format".to_owned()
            },
            FeedbackCodecError::IncompatibleMajorVersion { received, expected } => {
                let mut text: String = "feedback protocol major version ".to_owned();
                crate::text::push_decimal(&mut text, *received as u64);
                text.append(" is incompatible with ");
                crate::text::push_decimal(&mut text, *expected as u64);
                text
            },
            FeedbackCodecError::UnknownKind(value) => {
                let mut text: String = "unknown feedback message kind ".to_owned();
                crate::text::push_decimal(&mut text, *value as u64);
                text
            },
            FeedbackCodecError::EmptyNack => {
                "NACK must contain at least one packet index".to_owned()
            },
            FeedbackCodecError::TooManyMissingPackets => {
                "NACK packet-index list is too large".to_owned()
            },
            FeedbackCodecError::LengthMismatch => {
                "feedback datagram length is inconsistent".to_owned()
            },
        }
    }
}

/// A feedback message as a value of its own: the indices as a sequence.
pub enum FeedbackView {
    Nack { stream_id: u32, frame_id: u64, missing: Seq<u16> },
    RequestKeyframe { stream_id: u32, after_frame_id: u64 },
}

/// The packet indices on the wire, two bytes each.
pub open spec fn index_bytes(indices: Seq<u16>) -> Seq<u8>
    decreases indices.len(),
{
    if indices.len() == 0 {
        Seq::empty()
    } else {
        index_bytes(indices.drop_last()) + crate::bytes::be_bytes(indices.last() as nat, 2)
    }
}

impl FeedbackView {
    pub open spec fn kind(self) -> u8 {
        match self {
            FeedbackView::Nack { .. } => KIND_NACK,
            FeedbackView::RequestKeyframe { .. } => KIND_REQUEST_KEYFRAME,
        }
    }

    pub open spec fn stream_id(self) -> u32 {
        match self {
            FeedbackView::Nack { stream_id, .. } => stream_id,
            FeedbackView::RequestKeyframe { stream_id, .. } => stream_id,
        }
    }

    /// The frame that the message is about.
    pub open spec fn frame_id(self) -> u64 {
        match self {
            FeedbackView::Nack { frame_id, .. } => frame_id,
            FeedbackView::RequestKeyframe { after_frame_id, .. } => after_frame_id,
        }
    }

    pub open spec fn missing(self) -> Seq<u16> {
        match self {
            FeedbackView::Nack { missing, .. } => missing,
            FeedbackView::RequestKeyframe { .. } => Seq::empty(),
        }
    }

    /// Why the message cannot be sent, if it cannot.
    pub open spec fn spec_sendable(self) -> Result<(), FeedbackCodecError> {
        if self is Nack && self.missing().len() == 0 {
            Err(FeedbackCodecError::EmptyNack)
        } else if self.missing().len() > MAX_NACK_PACKET_INDICES {
            Err(FeedbackCodecError::TooManyMissingPackets)
        } else {
            Ok(())
        }
    }

    /// The message on the wire.
    pub open spec fn spec_bytes(self) -> Seq<u8> {
        crate::bytes::be_bytes(FEEDBACK_MAGIC as nat, 4)
            + seq![PROTOCOL_MAJOR as u8, PROTOCOL_MINOR as u8, self.kind(), 0u8]
            + crate::bytes::be_bytes(self.stream_id() as nat, 4)
            + crate::bytes::be_bytes(self.frame_id() as nat, 8)
            + crate::bytes::be_bytes(self.missing().len(), 2)
            + seq![0u8, 0u8]
            + index_bytes(self.missing())
    }

    /// The `count` packet indices that stand behind the header in `data`.
    pub open spec fn spec_indices(data: Seq<u8>, count: nat) -> Seq<u16> {
        Seq::new(
            count,
            |i: int| crate::bytes::be_field(data, FEEDBACK_HEADER_LEN + i * 2, 2) as u16,
        )
    }

    /// What `data` is read as.
    pub open spec fn spec_decode(data: Seq<u8>) -> Result<Self, FeedbackCodecError> {
        let count = crate::bytes::be_field(data, 20, 2);
        let stream_id = crate::bytes::be_field(data, 8, 4) as u32;
        let frame_id = crate::bytes::be_field(data, 12, 8) as u64;
        if data.len() < FEEDBACK_HEADER_LEN {
            Err(FeedbackCodecError::Truncated)
        } else if crate::bytes::be_field(data, 0, 4) != FEEDBACK_MAGIC {
            Err(FeedbackCodecError::BadMagic)
        } else if data[4] != PROTOCOL_MAJOR {
            Err(
                FeedbackCodecError::IncompatibleMajorVersion {
                    received: data[4],
                    expected: PROTOCOL_MAJOR as u8,
                },
            )
        } else if count > MAX_NACK_PACKET_INDICES {
            Err(FeedbackCodecError::TooManyMissingPackets)
        } else if data.len() != FEEDBACK_HEADER_LEN + count * 2 {
            Err(FeedbackCodecError::LengthMismatch)
        } else if data[6] == KIND_NACK {
            if count == 0 {
                Err(FeedbackCodecError::EmptyNack)
            } else {
                Ok(
                    FeedbackView::Nack {
                        stream_id,
                        frame_id,
                        missing: Self::spec_indices(data, count),
                    },
                )
            }
        } else if data[6] == KIND_REQUEST_KEYFRAME {
            if count != 0 {
                Err(FeedbackCodecError::LengthMismatch)
            } else {
                Ok(FeedbackView::RequestKeyframe { stream_id, after_frame_id: frame_id })
            }
        } else {
            Err(FeedbackCodecError::UnknownKind(data[6]))
        }
    }
}

impl View for FeedbackMessage {
    type V = FeedbackView;

    open spec fn view(&self) -> FeedbackView {
        match *self {
            FeedbackMessage::Nack { stream_id, frame_id, missing_packet_indices } =>
                FeedbackView::Nack { stream_id, frame_id, missing: missing_packet_indices@ },
            FeedbackMessage::RequestKeyframe { stream_id, after_frame_id } =>
                FeedbackView::RequestKeyframe { stream_id, after_frame_id },
        }
    }
}

proof fn lemma_index_bytes_push(indices: Seq<u16>, last: u16)
    ensures
        index_bytes(indices.push(last)) == index_bytes(indices) + crate::bytes::be_bytes(
            last as nat,
            2,
        ),
{
    assert(indices.push(last).drop_last() =~= indices);
}

/// Each packet index stands in two bytes of its own.
proof fn lemma_index_bytes_at(indices: Seq<u16>, i: int)
    ensures
        index_bytes(indices).len() == 2 * indices.len(),
        0 <= i < indices.len() ==> crate::bytes::field(index_bytes(indices), 2 * i, 2)
            == crate::bytes::be_bytes(indices[i] as nat, 2),
    decreases indices.len(),
{
    broadcast use crate::bytes::lemma_be_bytes_len;

    if indices.len() > 0 {
        lemma_index_bytes_at(indices.drop_last(), i);
        if 0 <= i < indices.len() {
            assert(crate::bytes::field(index_bytes(indices), 2 * i, 2)
                =~= if i == indices.len() - 1 {
                crate::bytes::be_bytes(indices[i] as nat, 2)
            } else {
                crate::bytes::field(index_bytes(indices.drop_last()), 2 * i, 2)
            });
        }
    }
}

impl FeedbackMessage {
    /// The stream that the message is about.
    #[must_use]
    pub fn stream_id(&self) -> (stream_id: u32)
        ensures
            stream_id == self@.stream_id(),
    {
        match self {
            FeedbackMessage::Nack { stream_id, .. } => *stream_id,
            FeedbackMessage::RequestKeyframe { stream_id, .. } => *stream_id,
        }
    }

    /// The message's bytes, where it names at least one and at most 64 missing packets or
    /// asks for a keyframe.
    pub fn encode(&self) -> (result: Result<Vec<u8>, FeedbackCodecError>)
        ensures
            match result {
                Ok(bytes) => self@.spec_sendable() is Ok && bytes@ == self@.spec_bytes(),
                Err(error) => self@.spec_sendable() == Err::<(), _>(error),
            },
    {
        let version = ProtocolVersion::current();
        let none: Vec<u16> = Vec::new();
        let (kind, stream_id, frame_id, missing): (u8, u32, u64, &Vec<u16>) = match self {
            FeedbackMessage::Nack { stream_id, frame_id, missing_packet_indices } => {
                if missing_packet_indices.is_empty() {
                    return Err(FeedbackCodecError::EmptyNack);
                }
                if missing_packet_indices.len() > MAX_NACK_PACKET_INDICES {
                    return Err(FeedbackCodecError::TooManyMissingPackets);
                }
                (KIND_NACK, *stream_id, *frame_id, missing_packet_indices)
            },
            FeedbackMessage::RequestKeyframe { stream_id, after_frame_id } => (
                KIND_REQUEST_KEYFRAME,
                *stream_id,
                *after_frame_id,
                &none,
            ),
        };
        assert(missing@ =~= self@.missing());
        let mut encoded: Vec<u8> = Vec::with_capacity(FEEDBACK_HEADER_LEN + missing.len() * 2);
        push_be(&mut encoded, FEEDBACK_MAGIC as u64, 4);
        encoded.push(version.major as u8);
        encoded.push(version.minor as u8);
        encoded.push(kind);
        encoded.push(0);
        push_be(&mut encoded, stream_id as u64, 4);
        push_be(&mut encoded, frame_id, 8);
        push_be(&mut encoded, missing.len() as u64, 2);
        encoded.push(0);
        encoded.push(0);
        let ghost header = encoded@;
        let mut index: usize = 0;
        while index < missing.len()
            invariant
                index <= missing@.len(),
                encoded@ == header + index_bytes(missing@.take(index as int)),
            decreases missing@.len() - index,
        {
            push_be(&mut encoded, missing[index] as u64, 2);
            proof {
                lemma_index_bytes_push(missing@.take(index as int), missing@[index as int]);
                assert(missing@.take(index + 1) =~= missing@.take(index as int).push(
                    missing@[index as int],
                ));
                assert(encoded@ =~= header + index_bytes(missing@.take(index + 1)));
            }
            index += 1;
        }
        proof {
            broadcast use crate::bytes::lemma_be_bytes_len;

            assert(missing@.take(index as int) =~= missing@);
            assert(encoded@ =~= self@.spec_bytes());
        }
        Ok(encoded)
    }

    /// Reads a feedback datagram.
    pub fn decode(data: &[u8]) -> (result: Result<Self, FeedbackCodecError>)
        ensures
            match (result, FeedbackView::spec_decode(data@)) {
                (Ok(message), Ok(view)) => message@ == view,
                (Err(error), Err(expected)) => error == expected,
                _ => false,
            },
    {
        if data.len() < FEEDBACK_HEADER_LEN {
            return Err(FeedbackCodecError::Truncated);
        }
        if read_u32(data, 0) != FEEDBACK_MAGIC {
            return Err(FeedbackCodecError::BadMagic);
        }
        let expected_major: u8 = ProtocolVersion::current().major as u8;
        if data[4] != expected_major {
            return Err(
                FeedbackCodecError::IncompatibleMajorVersion {
                    received: data[4],
                    expected: expected_major,
                },
            );
        }
        let kind: u8 = data[6];
        let stream_id: u32 = read_u32(data, 8);
        let frame_id: u64 = read_u64(data, 12);
        let count: usize = read_u16(data, 20) as usize;
        if count > MAX_NACK_PACKET_INDICES {
            return Err(FeedbackCodecError::TooManyMissingPackets);
        }
        if data.len() != FEEDBACK_HEADER_LEN + count * 2 {
            return Err(FeedbackCodecError::LengthMismatch);
        }
        if kind == KIND_NACK {
            if count == 0 {
                return Err(FeedbackCodecError::EmptyNack);
            }
            let mut missing_packet_indices: Vec<u16> = Vec::with_capacity(count);
            let mut index: usize = 0;
            while index < count
                invariant
                    index <= count <= MAX_NACK_PACKET_INDICES,
                    data@.len() == FEEDBACK_HEADER_LEN + count * 2,
                    missing_packet_indices@ == FeedbackView::spec_indices(data@, index as nat),
                decreases count - index,
            {
                missing_packet_indices.push(read_u16(data, FEEDBACK_HEADER_LEN + index * 2));
                index += 1;
                proof {
                    assert(missing_packet_indices@ =~= FeedbackView::spec_indices(
                        data@,
                        index as nat,
                    ));
                }
            }
            Ok(FeedbackMessage::Nack { stream_id, frame_id, missing_packet_indices })
        } else if kind == KIND_REQUEST_KEYFRAME {
            if count != 0 {
                return Err(FeedbackCodecError::LengthMismatch);
            }
            Ok(FeedbackMessage::RequestKeyframe { stream_id, after_frame_id: frame_id })
        } else {
            Err(FeedbackCodecError::UnknownKind(kind))
        }
    }
}

/// Decoding an encoded message gives the message back.
pub proof fn law_feedback_round_trip(message: FeedbackView)
    requires
        message.spec_sendable() is Ok,
    ensures
        FeedbackView::spec_decode(message.spec_bytes()) == Ok::<_, FeedbackCodecError>(message),
{
    broadcast use crate::bytes::lemma_be_bytes_len;

    let data = message.spec_bytes();
    let missing = message.missing();
    crate::bytes::lemma_pow256_values();
    lemma_index_bytes_at(missing, 0);
    crate::bytes::lemma_field_read(data, 0, 4, FEEDBACK_MAGIC as nat);
    crate::bytes::lemma_field_read(data, 8, 4, message.stream_id() as nat);
    crate::bytes::lemma_field_read(data, 12, 8, message.frame_id() as nat);
    crate::bytes::lemma_field_read(data, 20, 2, missing.len());
    assert forall|i: int| 0 <= i < missing.len() implies crate::bytes::be_field(
        data,
        FEEDBACK_HEADER_LEN + i * 2,
        2,
    ) == missing[i] by {
        lemma_index_bytes_at(missing, i);
        assert(crate::bytes::field(data, FEEDBACK_HEADER_LEN + i * 2, 2) =~= crate::bytes::field(
            index_bytes(missing),
            2 * i,
            2,
        ));
        crate::bytes::lemma_field_read(
            data,
            FEEDBACK_HEADER_LEN + i * 2,
            2,
            missing[i] as nat,
        );
    }
    assert(FeedbackView::spec_indices(data, missing.len()) =~= missing);
}

/// Feedback is read from these bytes: twenty-four that begin with the letters CMF1 and the major
/// version, and two for each packet that is asked for, of which there are 64 at most. A request
/// for packets has some, a request for a key frame has none.
pub proof fn law_feedback_layout(data: Seq<u8>, i: int)
    ensures
        ({
            let result = FeedbackView::spec_decode(data);
            let marked = data[0] == 0x43 && data[1] == 0x4D && data[2] == 0x46 && data[3] == 0x31;
            let count = 256 * data[20] + data[21];
            let sized = data.len() == 24 + 2 * count;
            let stream_id = 0x100_0000 * data[8] + 0x1_0000 * data[9] + 256 * data[10] + data[11];
            let frame_id = 0x1_0000_0000 * (0x100_0000 * data[12] + 0x1_0000 * data[13] + 256
                * data[14] + data[15]) + 0x100_0000 * data[16] + 0x1_0000 * data[17] + 256
                * data[18] + data[19];
            &&& data.len() < 24 ==> result == Err::<FeedbackView, _>(FeedbackCodecError::Truncated)
            &&& data.len() >= 24 && !marked ==> result == Err::<FeedbackView, _>(
                FeedbackCodecError::BadMagic,
            )
            &&& data.len() >= 24 && marked && data[4] != 0 ==> result == Err::<FeedbackView, _>(
                FeedbackCodecError::IncompatibleMajorVersion { received: data[4], expected: 0 },
            )
            &&& data.len() >= 24 && marked && data[4] == 0 && count > 64 ==> result == Err::<
                FeedbackView,
                _,
            >(FeedbackCodecError::TooManyMissingPackets)
            &&& data.len() >= 24 && marked && data[4] == 0 && count <= 64 && !sized ==> result
                == Err::<FeedbackView, _>(FeedbackCodecError::LengthMismatch)
            &&& data.len() >= 24 && marked && data[4] == 0 && count <= 64 && sized ==> {
                &&& data[6] == 1 && count == 0 ==> result == Err::<FeedbackView, _>(
                    FeedbackCodecError::EmptyNack,
                )
                &&& data[6] == 2 && count != 0 ==> result == Err::<FeedbackView, _>(
                    FeedbackCodecError::LengthMismatch,
                )
                &&& data[6] != 1 && data[6] != 2 ==> result == Err::<FeedbackView, _>(
                    FeedbackCodecError::UnknownKind(data[6]),
                )
                &&& data[6] == 2 && count == 0 ==> result == Ok::<_, FeedbackCodecError>(
                    FeedbackView::RequestKeyframe {
                        stream_id: stream_id as u32,
                        after_frame_id: frame_id as u64,
                    },
                )
                &&& data[6] == 1 && count > 0 ==> {
                    &&& result is Ok && result->Ok_0 is Nack
                    &&& result->Ok_0.stream_id() == stream_id
                    &&& result->Ok_0.frame_id() == frame_id
                    &&& result->Ok_0.missing().len() == count
                    &&& 0 <= i < count ==> result->Ok_0.missing()[i] == 256 * data[24 + 2 * i]
                        + data[25 + 2 * i]
                }
            }
        }),
{
    if data.len() >= 24 {
        crate::bytes::law_fields_are_big_endian(data, 0);
        crate::bytes::law_fields_are_big_endian(data, 8);
        crate::bytes::law_fields_are_big_endian(data, 12);
        crate::bytes::law_fields_are_big_endian(data, 16);
        crate::bytes::law_fields_are_big_endian(data, 20);
        let count = crate::bytes::be_field(data, 20, 2);
        if data.len() == 24 + 2 * count && 0 <= i < count {
            crate::bytes::law_fields_are_big_endian(data, 24 + i * 2);
        }
    }
}

/// A request for packets names at least one and at most 64; a request for a key frame can always
/// be sent.
pub proof fn law_sendable_feedback(message: FeedbackView)
    ensures
        message is RequestKeyframe ==> message.spec_sendable() is Ok,
        message matches FeedbackView::Nack { missing, .. } ==> {
            &&& missing.len() == 0 ==> message.spec_sendable() == Err::<(), _>(
                FeedbackCodecError::EmptyNack,
            )
            &&& 1 <= missing.len() <= 64 ==> message.spec_sendable() is Ok
            &&& missing.len() > 64 ==> message.spec_sendable() == Err::<(), _>(
                FeedbackCodecError::TooManyMissingPackets,
            )
        },
{
}

} // verus!
