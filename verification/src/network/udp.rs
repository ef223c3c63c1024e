//! Media packets as datagrams.

use super::address::IpAddress;
use super::{AssembleError, MediaPacket, PacketView};
use crate::bytes::{copy_range, push_all};
use crate::protocol::media::{
    MediaHeaderError, MediaPacketHeader, MAX_PACKET_PAYLOAD, MEDIA_HEADER_LEN,
};
use vstd::prelude::*;

verus! {

pub const MAX_MEDIA_DATAGRAM: usize = MEDIA_HEADER_LEN + MAX_PACKET_PAYLOAD;

/// What kind of failure is reported in the form of an input or output error.
#[derive(Debug, Clone, Copy, PartialEq, Eq, Structural)]
pub enum IoErrorKind {
    InvalidData,
}

/// A failure that is reported in the form of an input or output error.
#[derive(Debug, Clone, PartialEq, Eq)]
pub struct IoFailure {
    pub kind: IoErrorKind,
    pub message: String,
}

impl IoFailure {
    /// The failure is that of a packet which its frame refuses.
    pub open spec fn is_assembly_failure(self, error: AssembleError) -> bool {
        &&& self.kind == IoErrorKind::InvalidData
        &&& self.message@ == "frame assembly failed: "@ + error.spec_debug()
    }
}

/// Why a datagram cannot be made, read or used.
#[derive(Debug, Clone, PartialEq, Eq)]
pub enum DatagramError {
    Io(IoFailure),
    Header(MediaHeaderError),
    PayloadLengthMismatch,
    DatagramTooLarge,
}

impl From<MediaHeaderError> for DatagramError {
    fn from(value: MediaHeaderError) -> (error: Self) {
        DatagramError::Header(value)
    }
}

impl vstd::std_specs::convert::FromSpecImpl<MediaHeaderError> for DatagramError {
    open spec fn obeys_from_spec() -> bool {
        true
    }

    open spec fn from_spec(value: MediaHeaderError) -> Self {
        DatagramError::Header(value)
    }
}

/// Reports that a frame refused its packet: the data are invalid.
#[must_use]
pub fn assembly_failure(error: AssembleError) -> (failure: IoFailure)
    ensures
        failure.is_assembly_failure(error),
{
    let mut message: String = "frame assembly failed: ".to_owned();
    error.push_debug(&mut message);
    IoFailure { kind: IoErrorKind::InvalidData, message }
}

/// Whether a packet can be sent, and why not.
pub open spec fn spec_encodable(packet: PacketView) -> Result<(), DatagramError> {
    if packet.payload.len() != packet.header.payload_len {
        Err(DatagramError::PayloadLengthMismatch)
    } else if packet.payload.len() > MAX_PACKET_PAYLOAD {
        Err(DatagramError::DatagramTooLarge)
    } else {
        match packet.header.spec_validate() {
            Ok(()) => Ok(()),
            Err(error) => Err(DatagramError::Header(error)),
        }
    }
}

/// A packet on the wire: its header, then its payload.
pub open spec fn spec_datagram(packet: PacketView) -> Seq<u8> {
    packet.header.spec_bytes() + packet.payload
}

/// What a datagram is read as.
pub open spec fn spec_decode_datagram(data: Seq<u8>) -> Result<PacketView, DatagramError> {
    if data.len() < MEDIA_HEADER_LEN {
        Err(DatagramError::Header(MediaHeaderError::Truncated))
    } else if data.len() > MAX_MEDIA_DATAGRAM {
        Err(DatagramError::DatagramTooLarge)
    } else {
        match MediaPacketHeader::spec_decode(data) {
            Err(error) => Err(DatagramError::Header(error)),
            Ok(header) => {
                let payload = data.skip(MEDIA_HEADER_LEN as int);
                if payload.len() != header.payload_len {
                    Err(DatagramError::PayloadLengthMismatch)
                } else {
                    Ok(PacketView { header, payload })
                }
            },
        }
    }
}

pub fn encode_datagram(packet: &MediaPacket) -> (result: Result<Vec<u8>, DatagramError>)
    ensures
        match result {
            Ok(bytes) => spec_encodable(packet@) is Ok && bytes@ == spec_datagram(packet@),
            Err(error) => spec_encodable(packet@) == Err::<(), _>(error),
        },
{
    if packet.payload.len() != packet.header.payload_len as usize {
        return Err(DatagramError::PayloadLengthMismatch);
    }
    if packet.payload.len() > MAX_PACKET_PAYLOAD {
        return Err(DatagramError::DatagramTooLarge);
    }
    let header = match packet.header.encode() {
        Ok(header) => header,
        Err(error) => return Err(DatagramError::from(error)),
    };
    let mut output: Vec<u8> = Vec::with_capacity(MEDIA_HEADER_LEN + packet.payload.len());
    push_all(&mut output, header.as_slice());
    push_all(&mut output, packet.payload.as_slice());
    proof {
        assert(output@ =~= spec_datagram(packet@));
    }
    Ok(output)
}

pub fn decode_datagram(data: &[u8]) -> (result: Result<MediaPacket, DatagramError>)
    ensures
        match (result, spec_decode_datagram(data@)) {
            (Ok(packet), Ok(expected)) => packet@ == expected,
            (Err(error), Err(expected)) => error == expected,
            _ => false,
        },
{
    if data.len() < MEDIA_HEADER_LEN {
        return Err(DatagramError::from(MediaHeaderError::Truncated));
    }
    if data.len() > MAX_MEDIA_DATAGRAM {
        return Err(DatagramError::DatagramTooLarge);
    }
    let header = match MediaPacketHeader::decode(data) {
        Ok(header) => header,
        Err(error) => return Err(DatagramError::from(error)),
    };
    let payload = copy_range(data, MEDIA_HEADER_LEN, data.len());
    if payload.len() != header.payload_len as usize {
        return Err(DatagramError::PayloadLengthMismatch);
    }
    proof {
        assert(payload@ =~= data@.skip(MEDIA_HEADER_LEN as int));
    }
    Ok(MediaPacket { header, payload })
}

/// Decoding an encoded packet gives the packet back, and no datagram exceeds the largest size.
pub proof fn law_datagram_round_trip(packet: PacketView)
    requires
        spec_encodable(packet) is Ok,
    ensures
        spec_datagram(packet).len() <= MAX_MEDIA_DATAGRAM,
        spec_decode_datagram(spec_datagram(packet)) == Ok::<_, DatagramError>(packet),
{
    broadcast use crate::bytes::lemma_be_bytes_len;

    let data = spec_datagram(packet);
    assert(packet.header.spec_bytes().len() == MEDIA_HEADER_LEN);
    crate::protocol::media::law_header_round_trip(packet.header, packet.payload);
    assert(data.skip(MEDIA_HEADER_LEN as int) =~= packet.payload);
}

/// A packet that was read from a datagram has an index that its frame has.
pub proof fn law_decoded_index_fits(data: Seq<u8>)
    ensures
        spec_decode_datagram(data) matches Ok(packet) ==> packet.header.packet_index
            < packet.header.packet_count,
{
}

/// Whether an address is an IPv4 multicast address.
#[must_use]
pub fn is_ipv4_multicast(address: IpAddress) -> (multicast: bool)
    ensures
        multicast == (address matches IpAddress::V4(v4) && v4.spec_is_multicast()),
{
    match address {
        IpAddress::V4(address) => address.is_multicast(),
        IpAddress::V6 { .. } => false,
    }
}

/// A datagram is a header and just the payload that it announces. What is too short, too long, not
/// marked or not as long as it says is refused.
pub proof fn law_datagram_layout(data: Seq<u8>)
    ensures
        ({
            let result = spec_decode_datagram(data);
            let announced = 256 * data[36] + data[37];
            &&& data.len() < 40 ==> result == Err::<PacketView, _>(
                DatagramError::Header(MediaHeaderError::Truncated),
            )
            &&& data.len() > 1240 ==> result == Err::<PacketView, _>(
                DatagramError::DatagramTooLarge,
            )
            &&& 40 <= data.len() <= 1240 && MediaPacketHeader::spec_decode(data) is Err ==> result
                is Err && result->Err_0 is Header
            &&& 40 <= data.len() <= 1240 && MediaPacketHeader::spec_decode(data) is Ok
                && data.len() != 40 + announced ==> result == Err::<PacketView, _>(
                DatagramError::PayloadLengthMismatch,
            )
            &&& 40 <= data.len() <= 1240 && MediaPacketHeader::spec_decode(data) is Ok
                && data.len() == 40 + announced ==> {
                &&& result matches Ok(packet)
                &&& MediaPacketHeader::spec_decode(data) == Ok::<_, MediaHeaderError>(packet.header)
                &&& packet.payload == data.subrange(40, data.len() as int)
            }
        }),
{
    crate::protocol::media::law_header_layout(data);
}

/// A packet can be sent if and only if its payload is as long as its header says, no longer than
/// allowed, and its header is sound. Its datagram is its header's forty bytes and its payload.
pub proof fn law_sendable_packets(packet: PacketView)
    ensures
        spec_encodable(packet) is Ok <==> {
            &&& packet.payload.len() == packet.header.payload_len
            &&& packet.payload.len() <= 1200
            &&& packet.header.packet_index < packet.header.packet_count
        },
        spec_datagram(packet).len() == 40 + packet.payload.len(),
        spec_datagram(packet).skip(40) == packet.payload,
{
    broadcast use crate::bytes::lemma_be_bytes_len;

    assert(packet.header.spec_bytes().len() == 40);
    assert(spec_datagram(packet).skip(40) =~= packet.payload);
}

} // verus!
