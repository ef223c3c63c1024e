//! The fixed header that precedes each media packet's payload.

use crate::bytes::{push_be, read_u16, read_u32, read_u64};
use vstd::prelude::*;

verus! {

/// "CMV1" in ASCII.
pub const MEDIA_MAGIC: u32 = 0x434D_5631;

pub const MEDIA_HEADER_LEN: usize = 40;

pub const MAX_PACKET_PAYLOAD: usize = 1_200;

const FLAG_KEYFRAME: u16 = 0x01;

const FLAG_FRAME_START: u16 = 0x02;

const FLAG_FRAME_END: u16 = 0x04;

const FLAG_RETRANSMIT: u16 = 0x08;

const FLAG_FEC: u16 = 0x10;

/// A set of bit flags of a media packet.
#[derive(Debug, Clone, Copy, PartialEq, Eq, Structural)]
pub struct MediaFlags {
    bits: u16,
}

impl MediaFlags {
    /// The flags as a number.
    pub closed spec fn spec_bits(self) -> u16 {
        self.bits
    }

    /// The flags with a given number.
    pub closed spec fn spec_from_bits(bits: u16) -> Self {
        MediaFlags { bits }
    }

    /// Flags and their numbers stand for each other.
    pub broadcast proof fn lemma_bits(flags: Self, bits: u16)
        ensures
            (#[trigger] Self::spec_from_bits(bits)).spec_bits() == bits,
            Self::spec_from_bits(#[trigger] flags.spec_bits()) == flags,
    {
    }

    /// No flag.
    #[must_use]
    pub fn none() -> (flags: Self)
        ensures
            flags.spec_bits() == 0,
    {
        MediaFlags { bits: 0 }
    }

    /// The packet belongs to a frame that can be decoded on its own.
    #[must_use]
    pub fn keyframe() -> (flags: Self)
        ensures
            flags.spec_bits() == 0x01,
    {
        MediaFlags { bits: FLAG_KEYFRAME }
    }

    /// The packet is the first of its frame.
    #[must_use]
    pub fn frame_start() -> (flags: Self)
        ensures
            flags.spec_bits() == 0x02,
    {
        MediaFlags { bits: FLAG_FRAME_START }
    }

    /// The packet is the last of its frame.
    #[must_use]
    pub fn frame_end() -> (flags: Self)
        ensures
            flags.spec_bits() == 0x04,
    {
        MediaFlags { bits: FLAG_FRAME_END }
    }

    /// The packet was sent before.
    #[must_use]
    pub fn retransmit() -> (flags: Self)
        ensures
            flags.spec_bits() == 0x08,
    {
        MediaFlags { bits: FLAG_RETRANSMIT }
    }

    /// The packet carries forward error correction.
    #[must_use]
    pub fn fec() -> (flags: Self)
        ensures
            flags.spec_bits() == 0x10,
    {
        MediaFlags { bits: FLAG_FEC }
    }

    #[must_use]
    pub fn bits(self) -> (bits: u16)
        ensures
            bits == self.spec_bits(),
    {
        self.bits
    }

    #[must_use]
    pub fn from_bits(bits: u16) -> (flags: Self)
        ensures
            flags == Self::spec_from_bits(bits),
            flags.spec_bits() == bits,
    {
        MediaFlags { bits }
    }

    /// Every bit of `flag` is set in these flags.
    pub open spec fn spec_contains(self, flag: Self) -> bool {
        self.spec_bits() & flag.spec_bits() == flag.spec_bits()
    }

    #[must_use]
    pub fn contains(self, flag: Self) -> (contained: bool)
        ensures
            contained == self.spec_contains(flag),
    {
        self.bits & flag.bits == flag.bits
    }
}

impl core::ops::BitOr for MediaFlags {
    type Output = Self;

    /// The flags that are set on either side.
    fn bitor(self, rhs: Self) -> (both: Self)
        ensures
            both.spec_bits() == self.spec_bits() | rhs.spec_bits(),
    {
        MediaFlags { bits: self.bits | rhs.bits }
    }
}

impl vstd::std_specs::ops::BitOrSpecImpl for MediaFlags {
    open spec fn obeys_bitor_spec() -> bool {
        true
    }

    open spec fn bitor_req(self, rhs: Self) -> bool {
        true
    }

    closed spec fn bitor_spec(self, rhs: Self) -> Self {
        MediaFlags { bits: self.bits | rhs.bits }
    }
}

/// A flag that was joined to others is contained in the result, and flags contain themselves.
pub proof fn law_joined_flags_are_contained(a: MediaFlags, b: MediaFlags, joined: MediaFlags)
    requires
        joined.spec_bits() == a.spec_bits() | b.spec_bits(),
    ensures
        joined.spec_contains(a),
        joined.spec_contains(b),
        a.spec_contains(a),
{
    let x = a.spec_bits();
    let y = b.spec_bits();
    assert((x | y) & x == x && (x | y) & y == y && x & x == x) by (bit_vector);
}

/// What stands in front of the payload of each media packet.
#[derive(Debug, Clone, Copy, PartialEq, Eq, Structural)]
pub struct MediaPacketHeader {
    pub protocol_major: u8,
    pub protocol_minor: u8,
    pub flags: MediaFlags,
    pub stream_id: u32,
    pub frame_id: u64,
    pub sequence: u32,
    pub packet_index: u16,
    pub packet_count: u16,
    pub timestamp_us: u64,
    pub payload_len: u16,
}

#[derive(Debug, Clone, Copy, PartialEq, Eq, Structural)]
pub enum MediaHeaderError {
    Truncated,
    BadMagic,
    InvalidPacketCount,
    InvalidPacketIndex,
    PayloadTooLarge,
}

impl MediaHeaderError {
    /// What the error says.
    pub open spec fn spec_message(self) -> Seq<char> {
        match self {
            MediaHeaderError::Truncated => "media header is truncated"@,
            MediaHeaderError::BadMagic => "media header magic is invalid"@,
            MediaHeaderError::InvalidPacketCount => "packet count must be non-zero"@,
            MediaHeaderError::InvalidPacketIndex => "packet index is outside packet count"@,
            MediaHeaderError::PayloadTooLarge => "packet payload exceeds ClassMesh MTU budget"@,
        }
    }

    /// The text for people.
    #[must_use]
    pub fn message(&self) -> (text: String)
        ensures
            text@ == self.spec_message(),
    {
        let text: &str = match self {
            MediaHeaderError::Truncated => "media header is truncated",
            MediaHeaderError::BadMagic => "media header magic is invalid",
            MediaHeaderError::InvalidPacketCount => "packet count must be non-zero",
            MediaHeaderError::InvalidPacketIndex => "packet index is outside packet count",
            MediaHeaderError::PayloadTooLarge => "packet payload exceeds ClassMesh MTU budget",
        };
        text.to_owned()
    }
}

impl MediaPacketHeader {
    /// The first rule that the header breaks, in the order in which they are tested.
    pub open spec fn spec_validate(self) -> Result<(), MediaHeaderError> {
        if self.packet_count == 0 {
            Err(MediaHeaderError::InvalidPacketCount)
        } else if self.packet_index >= self.packet_count {
            Err(MediaHeaderError::InvalidPacketIndex)
        } else if self.payload_len > MAX_PACKET_PAYLOAD {
            Err(MediaHeaderError::PayloadTooLarge)
        } else {
            Ok(())
        }
    }

    /// The header on the wire.
    pub open spec fn spec_bytes(self) -> Seq<u8> {
        crate::bytes::be_bytes(MEDIA_MAGIC as nat, 4)
            + seq![self.protocol_major, self.protocol_minor]
            + crate::bytes::be_bytes(self.flags.spec_bits() as nat, 2)
            + crate::bytes::be_bytes(self.stream_id as nat, 4)
            + crate::bytes::be_bytes(self.frame_id as nat, 8)
            + crate::bytes::be_bytes(self.sequence as nat, 4)
            + crate::bytes::be_bytes(self.packet_index as nat, 2)
            + crate::bytes::be_bytes(self.packet_count as nat, 2)
            + crate::bytes::be_bytes(self.timestamp_us as nat, 8)
            + crate::bytes::be_bytes(self.payload_len as nat, 2)
            + seq![0u8, 0u8]
    }

    /// The fields that stand in the first 40 bytes of `data`. The two bytes at the end of
    /// them are reserved and not read.
    pub open spec fn spec_fields(data: Seq<u8>) -> Self {
        MediaPacketHeader {
            protocol_major: data[4],
            protocol_minor: data[5],
            flags: MediaFlags::spec_from_bits(crate::bytes::be_field(data, 6, 2) as u16),
            stream_id: crate::bytes::be_field(data, 8, 4) as u32,
            frame_id: crate::bytes::be_field(data, 12, 8) as u64,
            sequence: crate::bytes::be_field(data, 20, 4) as u32,
            packet_index: crate::bytes::be_field(data, 24, 2) as u16,
            packet_count: crate::bytes::be_field(data, 26, 2) as u16,
            timestamp_us: crate::bytes::be_field(data, 28, 8) as u64,
            payload_len: crate::bytes::be_field(data, 36, 2) as u16,
        }
    }

    /// What `data` is read as.
    pub open spec fn spec_decode(data: Seq<u8>) -> Result<Self, MediaHeaderError> {
        if data.len() < MEDIA_HEADER_LEN {
            Err(MediaHeaderError::Truncated)
        } else if crate::bytes::be_field(data, 0, 4) != MEDIA_MAGIC {
            Err(MediaHeaderError::BadMagic)
        } else {
            match Self::spec_fields(data).spec_validate() {
                Ok(()) => Ok(Self::spec_fields(data)),
                Err(error) => Err(error),
            }
        }
    }

    pub fn validate(self) -> (result: Result<(), MediaHeaderError>)
        ensures
            result == self.spec_validate(),
    {
        if self.packet_count == 0 {
            return Err(MediaHeaderError::InvalidPacketCount);
        }
        if self.packet_index >= self.packet_count {
            return Err(MediaHeaderError::InvalidPacketIndex);
        }
        if self.payload_len as usize > MAX_PACKET_PAYLOAD {
            return Err(MediaHeaderError::PayloadTooLarge);
        }
        Ok(())
    }

    /// The header's bytes, where it breaks no rule.
    pub fn encode(self) -> (result: Result<[u8; MEDIA_HEADER_LEN], MediaHeaderError>)
        ensures
            match result {
                Ok(bytes) => self.spec_validate() is Ok && bytes@ == self.spec_bytes(),
                Err(error) => self.spec_validate() == Err::<(), _>(error),
            },
    {
        match self.validate() {
            Ok(()) => {},
            Err(error) => return Err(error),
        }
        let mut out: Vec<u8> = Vec::with_capacity(MEDIA_HEADER_LEN);
        push_be(&mut out, MEDIA_MAGIC as u64, 4);
        out.push(self.protocol_major);
        out.push(self.protocol_minor);
        push_be(&mut out, self.flags.bits() as u64, 2);
        push_be(&mut out, self.stream_id as u64, 4);
        push_be(&mut out, self.frame_id, 8);
        push_be(&mut out, self.sequence as u64, 4);
        push_be(&mut out, self.packet_index as u64, 2);
        push_be(&mut out, self.packet_count as u64, 2);
        push_be(&mut out, self.timestamp_us, 8);
        push_be(&mut out, self.payload_len as u64, 2);
        // Reserved for a later extension of the header; senders leave it zero.
        out.push(0);
        out.push(0);
        proof {
            broadcast use crate::bytes::lemma_be_bytes_len;

            assert(out@ =~= self.spec_bytes());
        }
        let mut bytes: [u8; MEDIA_HEADER_LEN] = [0u8; 40];
        let mut i: usize = 0;
        while i < MEDIA_HEADER_LEN
            invariant
                i <= MEDIA_HEADER_LEN == out@.len(),
                forall|j: int| 0 <= j < i ==> bytes@[j] == out@[j],
            decreases MEDIA_HEADER_LEN - i,
        {
            bytes[i] = out[i];
            i += 1;
        }
        proof {
            assert(bytes@ =~= out@);
        }
        Ok(bytes)
    }

    /// Reads the header in the first 40 bytes of `data`, and refuses one that breaks a rule.
    pub fn decode(data: &[u8]) -> (result: Result<Self, MediaHeaderError>)
        ensures
            result == Self::spec_decode(data@),
    {
        if data.len() < MEDIA_HEADER_LEN {
            return Err(MediaHeaderError::Truncated);
        }
        if read_u32(data, 0) != MEDIA_MAGIC {
            return Err(MediaHeaderError::BadMagic);
        }
        let header = MediaPacketHeader {
            protocol_major: data[4],
            protocol_minor: data[5],
            flags: MediaFlags::from_bits(read_u16(data, 6)),
            stream_id: read_u32(data, 8),
            frame_id: read_u64(data, 12),
            sequence: read_u32(data, 20),
            packet_index: read_u16(data, 24),
            packet_count: read_u16(data, 26),
            timestamp_us: read_u64(data, 28),
            payload_len: read_u16(data, 36),
        };
        match header.validate() {
            Ok(()) => Ok(header),
            Err(error) => Err(error),
        }
    }
}

/// Decoding an encoded header, whatever follows it, gives the header back.
pub proof fn law_header_round_trip(header: MediaPacketHeader, rest: Seq<u8>)
    requires
        header.spec_validate() is Ok,
    ensures
        MediaPacketHeader::spec_decode(header.spec_bytes() + rest) == Ok::<_, MediaHeaderError>(
            header,
        ),
{
    broadcast use crate::bytes::lemma_be_bytes_len;
    broadcast use MediaFlags::lemma_bits;

    let data = header.spec_bytes() + rest;
    crate::bytes::lemma_pow256_values();
    crate::bytes::lemma_field_read(data, 0, 4, MEDIA_MAGIC as nat);
    crate::bytes::lemma_field_read(data, 6, 2, header.flags.spec_bits() as nat);
    crate::bytes::lemma_field_read(data, 8, 4, header.stream_id as nat);
    crate::bytes::lemma_field_read(data, 12, 8, header.frame_id as nat);
    crate::bytes::lemma_field_read(data, 20, 4, header.sequence as nat);
    crate::bytes::lemma_field_read(data, 24, 2, header.packet_index as nat);
    crate::bytes::lemma_field_read(data, 26, 2, header.packet_count as nat);
    crate::bytes::lemma_field_read(data, 28, 8, header.timestamp_us as nat);
    crate::bytes::lemma_field_read(data, 36, 2, header.payload_len as nat);
}

/// A header is read from these bytes, whatever follows it: forty that begin with the letters
/// CMV1, with a packet count other than zero, an index below it and a payload of at most 1200
/// bytes. The fields stand one after the other, the most significant byte first.
pub proof fn law_header_layout(data: Seq<u8>)
    ensures
        ({
            let result = MediaPacketHeader::spec_decode(data);
            let marked = data[0] == 0x43 && data[1] == 0x4D && data[2] == 0x56 && data[3] == 0x31;
            let index = 256 * data[24] + data[25];
            let count = 256 * data[26] + data[27];
            let payload = 256 * data[36] + data[37];
            &&& data.len() < 40 ==> result == Err::<MediaPacketHeader, _>(
                MediaHeaderError::Truncated,
            )
            &&& data.len() >= 40 && !marked ==> result == Err::<MediaPacketHeader, _>(
                MediaHeaderError::BadMagic,
            )
            &&& data.len() >= 40 && marked && count == 0 ==> result == Err::<MediaPacketHeader, _>(
                MediaHeaderError::InvalidPacketCount,
            )
            &&& data.len() >= 40 && marked && 0 < count <= index ==> result == Err::<
                MediaPacketHeader,
                _,
            >(MediaHeaderError::InvalidPacketIndex)
            &&& data.len() >= 40 && marked && index < count && payload > 1200 ==> result == Err::<
                MediaPacketHeader,
                _,
            >(MediaHeaderError::PayloadTooLarge)
            &&& data.len() >= 40 && marked && index < count && payload <= 1200 ==> {
                &&& result matches Ok(header)
                &&& header.protocol_major == data[4]
                &&& header.protocol_minor == data[5]
                &&& header.flags.spec_bits() == 256 * data[6] + data[7]
                &&& header.stream_id == 0x100_0000 * data[8] + 0x1_0000 * data[9] + 256 * data[10]
                    + data[11]
                &&& header.frame_id == 0x1_0000_0000 * (0x100_0000 * data[12] + 0x1_0000 * data[13]
                    + 256 * data[14] + data[15]) + 0x100_0000 * data[16] + 0x1_0000 * data[17] + 256
                    * data[18] + data[19]
                &&& header.sequence == 0x100_0000 * data[20] + 0x1_0000 * data[21] + 256 * data[22]
                    + data[23]
                &&& header.packet_index == index
                &&& header.packet_count == count
                &&& header.timestamp_us == 0x1_0000_0000 * (0x100_0000 * data[28] + 0x1_0000
                    * data[29] + 256 * data[30] + data[31]) + 0x100_0000 * data[32] + 0x1_0000
                    * data[33] + 256 * data[34] + data[35]
                &&& header.payload_len == payload
            }
        }),
{
    broadcast use MediaFlags::lemma_bits;

    if data.len() >= 40 {
        crate::bytes::law_fields_are_big_endian(data, 0);
        crate::bytes::law_fields_are_big_endian(data, 6);
        crate::bytes::law_fields_are_big_endian(data, 8);
        crate::bytes::law_fields_are_big_endian(data, 12);
        crate::bytes::law_fields_are_big_endian(data, 16);
        crate::bytes::law_fields_are_big_endian(data, 20);
        crate::bytes::law_fields_are_big_endian(data, 24);
        crate::bytes::law_fields_are_big_endian(data, 26);
        crate::bytes::law_fields_are_big_endian(data, 28);
        crate::bytes::law_fields_are_big_endian(data, 32);
        crate::bytes::law_fields_are_big_endian(data, 36);
    }
}

/// Flags are a set: one is contained where all its bits are, and not where one of them lacks.
pub proof fn law_flags_are_told_apart(flags: MediaFlags)
    ensures
        flags.spec_bits() == 0 ==> forall|flag: MediaFlags|
            flag.spec_bits() != 0 ==> !#[trigger] flags.spec_contains(flag),
        flags.spec_bits() == 0xFFFF ==> forall|flag: MediaFlags| #[trigger]
            flags.spec_contains(flag),
{
    assert forall|flag: MediaFlags|
        flags.spec_bits() == 0 && flag.spec_bits() != 0 implies !#[trigger] flags.spec_contains(
        flag,
    ) by {
        let bits = flag.spec_bits();
        assert(0u16 & bits == 0u16) by (bit_vector);
    }
    assert forall|flag: MediaFlags|
        flags.spec_bits() == 0xFFFF implies #[trigger] flags.spec_contains(flag) by {
        let bits = flag.spec_bits();
        assert(0xFFFFu16 & bits == bits) by (bit_vector);
    }
}

} // verus!
