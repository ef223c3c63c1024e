//! Carrying frames over datagrams: splitting, reassembly, loss recovery and policy.

use crate::bytes::{bytes_equal, copy_all, copy_range, push_all};
use crate::protocol::media::{MediaFlags, MediaHeaderError, MediaPacketHeader, MAX_PACKET_PAYLOAD};
use vstd::prelude::*;

pub mod address;
pub mod feedback;
pub mod impairment;
pub mod multicast;
pub mod receiver;
pub mod reliability;
pub mod transport;
pub mod udp;

verus! {

/// A media packet: its header and its part of the frame.
#[derive(Debug, Clone, PartialEq, Eq)]
pub struct MediaPacket {
    pub header: MediaPacketHeader,
    pub payload: Vec<u8>,
}

/// A media packet with its payload as a sequence.
pub struct PacketView {
    pub header: MediaPacketHeader,
    pub payload: Seq<u8>,
}

impl View for MediaPacket {
    type V = PacketView;

    open spec fn view(&self) -> PacketView {
        PacketView { header: self.header, payload: self.payload@ }
    }
}

impl MediaPacket {
    /// A copy of the packet.
    #[must_use]
    pub fn duplicate(&self) -> (copy: Self)
        ensures
            copy@ == self@,
    {
        MediaPacket {
            header: self.header,
            payload: copy_all(self.payload.as_slice()),
        }
    }
}

/// What the packets of a frame have in common.
#[derive(Debug, Clone, Copy, PartialEq, Eq, Structural)]
pub struct PacketizeMeta {
    pub protocol_major: u8,
    pub protocol_minor: u8,
    pub stream_id: u32,
    pub frame_id: u64,
    pub first_sequence: u32,
    pub timestamp_us: u64,
    pub keyframe: bool,
}

#[derive(Debug, Clone, Copy, PartialEq, Eq, Structural)]
pub enum PacketizeError {
    EmptyFrame,
    TooManyPackets,
    Header(MediaHeaderError),
}

impl From<MediaHeaderError> for PacketizeError {
    fn from(value: MediaHeaderError) -> (error: Self) {
        PacketizeError::Header(value)
    }
}

impl vstd::std_specs::convert::FromSpecImpl<MediaHeaderError> for PacketizeError {
    open spec fn obeys_from_spec() -> bool {
        true
    }

    open spec fn from_spec(value: MediaHeaderError) -> Self {
        PacketizeError::Header(value)
    }
}

/// The number of packets that a frame of `len` bytes takes.
pub open spec fn packet_count(len: nat) -> nat {
    ((len + MAX_PACKET_PAYLOAD - 1) / (MAX_PACKET_PAYLOAD as int)) as nat
}

/// Where the payload of packet `i` starts in a frame of `len` bytes: at most at its end.
pub open spec fn chunk_start(len: nat, i: int) -> int {
    if i * MAX_PACKET_PAYLOAD < len {
        i * MAX_PACKET_PAYLOAD
    } else {
        len as int
    }
}

/// The payload of packet `i`: the next 1200 bytes of the frame, or what is left of it.
pub open spec fn chunk(frame: Seq<u8>, i: int) -> Seq<u8> {
    frame.subrange(chunk_start(frame.len(), i), chunk_start(frame.len(), i + 1))
}

/// The flags of packet `i` of `count`.
pub open spec fn packet_flag_bits(keyframe: bool, i: int, count: nat) -> u16 {
    (if keyframe {
        0x01u16
    } else {
        0x00u16
    }) | (if i == 0 {
        0x02u16
    } else {
        0x00u16
    }) | (if i + 1 == count {
        0x04u16
    } else {
        0x00u16
    })
}

/// Packet `i` of a frame.
pub open spec fn packet_of(frame: Seq<u8>, meta: PacketizeMeta, i: int) -> PacketView {
    PacketView {
        header: MediaPacketHeader {
            protocol_major: meta.protocol_major,
            protocol_minor: meta.protocol_minor,
            flags: MediaFlags::spec_from_bits(
                packet_flag_bits(meta.keyframe, i, packet_count(frame.len())),
            ),
            stream_id: meta.stream_id,
            frame_id: meta.frame_id,
            sequence: ((meta.first_sequence + i) % 0x1_0000_0000) as u32,
            packet_index: i as u16,
            packet_count: packet_count(frame.len()) as u16,
            timestamp_us: meta.timestamp_us,
            payload_len: chunk(frame, i).len() as u16,
        },
        payload: chunk(frame, i),
    }
}

/// Whether a frame of `len` bytes can be sent, and why not.
pub open spec fn spec_packetizable(len: nat) -> Result<(), PacketizeError> {
    if len == 0 {
        Err(PacketizeError::EmptyFrame)
    } else if packet_count(len) > 0xFFFF {
        Err(PacketizeError::TooManyPackets)
    } else {
        Ok(())
    }
}

/// Every packet before the last is full, and the last one is not empty.
proof fn lemma_chunk_bounds(len: nat, i: int)
    requires
        0 < len,
        0 <= i < packet_count(len),
    ensures
        i * MAX_PACKET_PAYLOAD < len,
        chunk_start(len, i) == i * MAX_PACKET_PAYLOAD,
        chunk_start(len, i) < chunk_start(len, i + 1) <= len,
        chunk_start(len, i + 1) - chunk_start(len, i) <= MAX_PACKET_PAYLOAD,
        chunk_start(len, packet_count(len) as int) == len,
{
}

/// The first `i` payloads make up the frame up to where payload `i` starts.
pub proof fn lemma_chunks_prefix(frame: Seq<u8>, i: nat)
    requires
        i <= packet_count(frame.len()),
    ensures
        concat_payloads(Seq::new(i, |j: int| Some(chunk(frame, j)))) == frame.take(
            chunk_start(frame.len(), i as int),
        ),
    decreases i,
{
    let parts = Seq::new(i, |j: int| Some(chunk(frame, j)));
    if i == 0 {
        assert(frame.take(0) =~= Seq::<u8>::empty());
    } else {
        lemma_chunks_prefix(frame, (i - 1) as nat);
        lemma_chunk_bounds(frame.len(), i - 1);
        assert(parts.drop_last() =~= Seq::new((i - 1) as nat, |j: int| Some(chunk(frame, j))));
        assert(frame.take(chunk_start(frame.len(), i - 1)) + chunk(frame, i - 1) =~= frame.take(
            chunk_start(frame.len(), i as int),
        ));
    }
}

/// Splits a frame into packets of at most 1200 bytes.
pub fn packetize_frame(frame: &[u8], meta: PacketizeMeta) -> (result: Result<
    Vec<MediaPacket>,
    PacketizeError,
>)
    ensures
        match result {
            Ok(packets) => spec_packetizable(frame@.len()) is Ok && packets@.len() == packet_count(
                frame@.len(),
            ) && forall|i: int|
                0 <= i < packets@.len() ==> (#[trigger] packets@[i])@ == packet_of(frame@, meta, i),
            Err(error) => spec_packetizable(frame@.len()) == Err::<(), _>(error),
        },
{
    if frame.is_empty() {
        return Err(PacketizeError::EmptyFrame);
    }
    let whole: usize = frame.len() / MAX_PACKET_PAYLOAD;
    let count: usize = if frame.len() % MAX_PACKET_PAYLOAD == 0 {
        whole
    } else {
        whole + 1
    };
    assert(count == packet_count(frame@.len()));
    if count > 0xFFFF {
        return Err(PacketizeError::TooManyPackets);
    }
    let packet_count_u16: u16 = count as u16;
    let mut packets: Vec<MediaPacket> = Vec::with_capacity(count);
    let mut index: u16 = 0;
    while index < packet_count_u16
        invariant
            index <= packet_count_u16 == packet_count(frame@.len()),
            frame@.len() > 0,
            packets@.len() == index,
            spec_packetizable(frame@.len()) is Ok,
            forall|i: int|
                0 <= i < index ==> (#[trigger] packets@[i])@ == packet_of(frame@, meta, i),
        decreases packet_count_u16 - index,
    {
        proof {
            lemma_chunk_bounds(frame@.len(), index as int);
        }
        let mut flags = MediaFlags::none();
        if meta.keyframe {
            flags = flags | MediaFlags::keyframe();
        }
        if index == 0 {
            flags = flags | MediaFlags::frame_start();
        }
        if index + 1 == packet_count_u16 {
            flags = flags | MediaFlags::frame_end();
        }
        let start: usize = index as usize * MAX_PACKET_PAYLOAD;
        let end: usize = if frame.len() - start > MAX_PACKET_PAYLOAD {
            start + MAX_PACKET_PAYLOAD
        } else {
            frame.len()
        };
        let payload = copy_range(frame, start, end);
        let header = MediaPacketHeader {
            protocol_major: meta.protocol_major,
            protocol_minor: meta.protocol_minor,
            flags,
            stream_id: meta.stream_id,
            frame_id: meta.frame_id,
            sequence: meta.first_sequence.wrapping_add(index as u32),
            packet_index: index,
            packet_count: packet_count_u16,
            timestamp_us: meta.timestamp_us,
            payload_len: (end - start) as u16,
        };
        proof {
            broadcast use MediaFlags::lemma_bits;

            assert((0u16 | 1u16) == 1u16 && (0u16 | 0u16) == 0u16 && (0u16 | 2u16) == 2u16
                && (0u16 | 4u16) == 4u16 && (1u16 | 0u16) == 1u16 && (2u16 | 0u16) == 2u16
                && ((1u16 | 2u16) | 0u16) == (1u16 | 2u16)) by (bit_vector);
            assert(flags.spec_bits() == packet_flag_bits(
                meta.keyframe,
                index as int,
                packet_count_u16 as nat,
            ));
        }
        match header.validate() {
            Ok(()) => {},
            Err(error) => return Err(PacketizeError::from(error)),
        }
        packets.push(MediaPacket { header, payload });
        index += 1;
    }
    Ok(packets)
}

#[derive(Debug, Clone, Copy, PartialEq, Eq, Structural)]
pub enum AssembleError {
    WrongFrame,
    WrongStream,
    PacketCountChanged,
    PayloadLengthMismatch,
    DuplicatePacketConflict,
}

impl AssembleError {
    /// The value as it is written for developers.
    pub open spec fn spec_debug(self) -> Seq<char> {
        match self {
            AssembleError::WrongFrame => "WrongFrame"@,
            AssembleError::WrongStream => "WrongStream"@,
            AssembleError::PacketCountChanged => "PacketCountChanged"@,
            AssembleError::PayloadLengthMismatch => "PayloadLengthMismatch"@,
            AssembleError::DuplicatePacketConflict => "DuplicatePacketConflict"@,
        }
    }

    /// Appends the value as it is written for developers.
    pub fn push_debug(&self, text: &mut String)
        ensures
            final(text)@ == old(text)@ + self.spec_debug(),
    {
        match self {
            AssembleError::WrongFrame => text.append("WrongFrame"),
            AssembleError::WrongStream => text.append("WrongStream"),
            AssembleError::PacketCountChanged => text.append("PacketCountChanged"),
            AssembleError::PayloadLengthMismatch => text.append("PayloadLengthMismatch"),
            AssembleError::DuplicatePacketConflict => text.append("DuplicatePacketConflict"),
        }
    }
}

/// The payloads that are there, one after the other.
pub open spec fn concat_payloads(slots: Seq<Option<Seq<u8>>>) -> Seq<u8>
    decreases slots.len(),
{
    if slots.len() == 0 {
        Seq::empty()
    } else {
        concat_payloads(slots.drop_last()) + match slots.last() {
            Some(payload) => payload,
            None => Seq::empty(),
        }
    }
}

/// The places that are still empty, in order.
pub open spec fn missing_of(slots: Seq<Option<Seq<u8>>>) -> Seq<u16>
    decreases slots.len(),
{
    if slots.len() == 0 {
        Seq::empty()
    } else if slots.last() is None {
        missing_of(slots.drop_last()).push((slots.len() - 1) as u16)
    } else {
        missing_of(slots.drop_last())
    }
}

/// Every place is filled.
pub open spec fn all_filled(slots: Seq<Option<Seq<u8>>>) -> bool {
    forall|i: int| 0 <= i < slots.len() ==> (#[trigger] slots[i]) is Some
}

/// The number of places that are filled.
pub open spec fn filled_count(slots: Seq<Option<Seq<u8>>>) -> nat
    decreases slots.len(),
{
    if slots.len() == 0 {
        0
    } else {
        filled_count(slots.drop_last()) + if slots.last() is Some {
            1nat
        } else {
            0nat
        }
    }
}

proof fn lemma_filled_count(slots: Seq<Option<Seq<u8>>>)
    ensures
        filled_count(slots) <= slots.len(),
        filled_count(slots) == slots.len() <==> all_filled(slots),
    decreases slots.len(),
{
    if slots.len() > 0 {
        let front = slots.drop_last();
        lemma_filled_count(front);
        if all_filled(slots) {
            assert forall|i: int| 0 <= i < front.len() implies (#[trigger] front[i]) is Some by {
                assert(slots[i] is Some);
            }
            assert(slots[slots.len() - 1] is Some);
        }
        if filled_count(slots) == slots.len() {
            assert forall|i: int| 0 <= i < slots.len() implies (#[trigger] slots[i]) is Some by {
                if i < front.len() {
                    assert(front[i] is Some);
                }
            }
        }
    }
}

proof fn lemma_fill_one(slots: Seq<Option<Seq<u8>>>, at: int, payload: Seq<u8>)
    requires
        0 <= at < slots.len(),
        slots[at] is None,
    ensures
        filled_count(slots.update(at, Some(payload))) == filled_count(slots) + 1,
    decreases slots.len(),
{
    let after = slots.update(at, Some(payload));
    if at < slots.len() - 1 {
        lemma_fill_one(slots.drop_last(), at, payload);
        assert(after.drop_last() =~= slots.drop_last().update(at, Some(payload)));
    } else {
        assert(after.drop_last() =~= slots.drop_last());
    }
}

/// A frame under reassembly.
pub struct AssemblerView {
    pub stream_id: u32,
    pub frame_id: u64,
    pub timestamp_us: u64,
    pub keyframe: bool,
    pub slots: Seq<Option<Seq<u8>>>,
}

/// A frame that is whole.
pub struct FrameView {
    pub stream_id: u32,
    pub frame_id: u64,
    pub timestamp_us: u64,
    pub keyframe: bool,
    pub data: Seq<u8>,
}

impl AssemblerView {
    /// The empty frame that `packet` announces.
    pub open spec fn spec_from_first(packet: PacketView) -> Self {
        AssemblerView {
            stream_id: packet.header.stream_id,
            frame_id: packet.header.frame_id,
            timestamp_us: packet.header.timestamp_us,
            keyframe: packet.header.flags.spec_bits() & 0x01 == 0x01,
            slots: Seq::new(packet.header.packet_count as nat, |i: int| None),
        }
    }

    /// Whether `packet` belongs to the frame, and why not.
    pub open spec fn spec_belongs(self, packet: PacketView) -> Result<(), AssembleError> {
        if packet.header.frame_id != self.frame_id {
            Err(AssembleError::WrongFrame)
        } else if packet.header.stream_id != self.stream_id {
            Err(AssembleError::WrongStream)
        } else if packet.header.packet_count != self.slots.len() {
            Err(AssembleError::PacketCountChanged)
        } else if packet.header.payload_len != packet.payload.len() {
            Err(AssembleError::PayloadLengthMismatch)
        } else {
            Ok(())
        }
    }

    /// The frame with `packet` in its place. A packet that is there already changes
    /// nothing, and one that contradicts it is refused.
    pub open spec fn spec_push(self, packet: PacketView) -> Result<Self, AssembleError> {
        let index = packet.header.packet_index as int;
        match self.spec_belongs(packet) {
            Err(error) => Err(error),
            Ok(()) => match self.slots[index] {
                Some(existing) => if existing == packet.payload {
                    Ok(self)
                } else {
                    Err(AssembleError::DuplicatePacketConflict)
                },
                None => Ok(
                    AssemblerView {
                        slots: self.slots.update(index, Some(packet.payload)),
                        ..self
                    },
                ),
            },
        }
    }

    pub open spec fn spec_is_complete(self) -> bool {
        all_filled(self.slots)
    }

    /// The whole frame, once every packet is there.
    pub open spec fn spec_finish(self) -> Option<FrameView> {
        if self.spec_is_complete() {
            Some(
                FrameView {
                    stream_id: self.stream_id,
                    frame_id: self.frame_id,
                    timestamp_us: self.timestamp_us,
                    keyframe: self.keyframe,
                    data: concat_payloads(self.slots),
                },
            )
        } else {
            None
        }
    }

    /// The frame after `packets` in turn, up to the first that is refused.
    pub open spec fn spec_push_all(self, packets: Seq<PacketView>) -> Result<Self, AssembleError>
        decreases packets.len(),
    {
        if packets.len() == 0 {
            Ok(self)
        } else {
            match self.spec_push_all(packets.drop_last()) {
                Ok(assembler) => assembler.spec_push(packets.last()),
                Err(error) => Err(error),
            }
        }
    }
}

/// Puts the packets of one frame together again, in whatever order they come.
#[derive(Debug)]
pub struct FrameAssembler {
    stream_id: u32,
    frame_id: u64,
    timestamp_us: u64,
    keyframe: bool,
    packets: Vec<Option<Vec<u8>>>,
    received: usize,
}

/// The payload in a place, as a sequence.
pub open spec fn slot_view(slot: Option<Vec<u8>>) -> Option<Seq<u8>> {
    match slot {
        Some(payload) => Some(payload@),
        None => None,
    }
}

impl View for FrameAssembler {
    type V = AssemblerView;

    closed spec fn view(&self) -> AssemblerView {
        AssemblerView {
            stream_id: self.stream_id,
            frame_id: self.frame_id,
            timestamp_us: self.timestamp_us,
            keyframe: self.keyframe,
            slots: Seq::new(self.packets@.len(), |i: int| slot_view(self.packets@[i])),
        }
    }
}

impl FrameAssembler {
    /// The count of received packets is right, and it fits the header's width.
    pub closed spec fn wf(self) -> bool {
        &&& self.packets@.len() <= 0xFFFF
        &&& self.received == filled_count(self@.slots)
    }

    /// Starts on the frame that `packet` belongs to. The packet itself is not taken yet.
    #[must_use]
    pub fn from_first(packet: &MediaPacket) -> (assembler: Self)
        ensures
            assembler.wf(),
            assembler@ == AssemblerView::spec_from_first(packet@),
    {
        let count: usize = packet.header.packet_count as usize;
        let mut packets: Vec<Option<Vec<u8>>> = Vec::with_capacity(count);
        let mut i: usize = 0;
        while i < count
            invariant
                i <= count == packet.header.packet_count,
                packets@.len() == i,
                forall|j: int| 0 <= j < i ==> (#[trigger] packets@[j]) is None,
                filled_count(Seq::new(i as nat, |j: int| None)) == 0,
            decreases count - i,
        {
            packets.push(None);
            i += 1;
            proof {
                let none = Seq::<Option<Seq<u8>>>::new(i as nat, |j: int| None);
                assert(none.drop_last() =~= Seq::new((i - 1) as nat, |j: int| None));
            }
        }
        let assembler = FrameAssembler {
            stream_id: packet.header.stream_id,
            frame_id: packet.header.frame_id,
            timestamp_us: packet.header.timestamp_us,
            keyframe: packet.header.flags.contains(MediaFlags::keyframe()),
            packets,
            received: 0,
        };
        proof {
            assert(assembler@.slots =~= Seq::new(count as nat, |j: int| None));
        }
        assembler
    }

    /// The stream of the frame.
    #[must_use]
    pub(crate) fn stream_id_for_receiver(&self) -> (stream_id: u32)
        ensures
            stream_id == self@.stream_id,
    {
        self.stream_id
    }

    /// Takes a packet of the frame.
    pub fn push(&mut self, packet: &MediaPacket) -> (result: Result<(), AssembleError>)
        requires
            old(self).wf(),
            old(self)@.spec_belongs(packet@) is Ok ==> packet.header.packet_index
                < packet.header.packet_count,
        ensures
            final(self).wf(),
            match (result, old(self)@.spec_push(packet@)) {
                (Ok(()), Ok(after)) => final(self)@ == after,
                (Err(error), Err(expected)) => error == expected && final(self)@ == old(self)@,
                _ => false,
            },
    {
        if packet.header.frame_id != self.frame_id {
            return Err(AssembleError::WrongFrame);
        }
        if packet.header.stream_id != self.stream_id {
            return Err(AssembleError::WrongStream);
        }
        if packet.header.packet_count as usize != self.packets.len() {
            return Err(AssembleError::PacketCountChanged);
        }
        if packet.header.payload_len as usize != packet.payload.len() {
            return Err(AssembleError::PayloadLengthMismatch);
        }
        let index: usize = packet.header.packet_index as usize;
        match &self.packets[index] {
            Some(existing) => {
                if bytes_equal(existing.as_slice(), packet.payload.as_slice()) {
                    return Ok(());
                }
                return Err(AssembleError::DuplicatePacketConflict);
            },
            None => {},
        }
        let payload = copy_all(packet.payload.as_slice());
        proof {
            lemma_fill_one(self@.slots, index as int, payload@);
            lemma_filled_count(self@.slots.update(index as int, Some(payload@)));
        }
        self.packets[index] = Some(payload);
        self.received += 1;
        proof {
            assert(self@.slots =~= old(self)@.slots.update(index as int, Some(packet.payload@)));
        }
        Ok(())
    }

    /// Whether every packet is there.
    #[must_use]
    pub fn is_complete(&self) -> (complete: bool)
        requires
            self.wf(),
        ensures
            complete == self@.spec_is_complete(),
    {
        proof {
            lemma_filled_count(self@.slots);
        }
        self.received == self.packets.len()
    }

    /// The indices of the packets that are not there yet, in ascending order.
    #[must_use]
    pub fn missing_packet_indices(&self) -> (missing: Vec<u16>)
        requires
            self.wf(),
        ensures
            missing@ == missing_of(self@.slots),
    {
        let mut missing: Vec<u16> = Vec::new();
        let mut i: usize = 0;
        while i < self.packets.len()
            invariant
                self.wf(),
                i <= self.packets@.len(),
                missing@ == missing_of(self@.slots.take(i as int)),
            decreases self.packets@.len() - i,
        {
            proof {
                let next = self@.slots.take(i + 1);
                assert(next.drop_last() =~= self@.slots.take(i as int));
                assert(next.last() == slot_view(self.packets@[i as int]));
            }
            if self.packets[i].is_none() {
                missing.push(i as u16);
            }
            i += 1;
        }
        proof {
            assert(self@.slots.take(i as int) =~= self@.slots);
        }
        missing
    }

    /// The whole frame, if every packet is there.
    pub fn finish(self) -> (frame: Option<AssembledFrame>)
        requires
            self.wf(),
        ensures
            match (frame, self@.spec_finish()) {
                (Some(frame), Some(expected)) => frame@ == expected,
                (None, None) => true,
                _ => false,
            },
    {
        if !self.is_complete() {
            return None;
        }
        let mut data: Vec<u8> = Vec::new();
        let mut i: usize = 0;
        while i < self.packets.len()
            invariant
                i <= self.packets@.len(),
                data@ == concat_payloads(self@.slots.take(i as int)),
            decreases self.packets@.len() - i,
        {
            proof {
                let next = self@.slots.take(i + 1);
                assert(next.drop_last() =~= self@.slots.take(i as int));
                assert(next.last() == slot_view(self.packets@[i as int]));
                assert(data@ + Seq::<u8>::empty() =~= data@);
            }
            match &self.packets[i] {
                Some(payload) => push_all(&mut data, payload.as_slice()),
                None => {},
            }
            i += 1;
        }
        proof {
            assert(self@.slots.take(i as int) =~= self@.slots);
        }
        Some(
            AssembledFrame {
                stream_id: self.stream_id,
                frame_id: self.frame_id,
                timestamp_us: self.timestamp_us,
                keyframe: self.keyframe,
                data,
            },
        )
    }
}

/// A frame that was put together from its packets.
#[derive(Debug, Clone, PartialEq, Eq)]
pub struct AssembledFrame {
    pub stream_id: u32,
    pub frame_id: u64,
    pub timestamp_us: u64,
    pub keyframe: bool,
    pub data: Vec<u8>,
}

impl View for AssembledFrame {
    type V = FrameView;

    open spec fn view(&self) -> FrameView {
        FrameView {
            stream_id: self.stream_id,
            frame_id: self.frame_id,
            timestamp_us: self.timestamp_us,
            keyframe: self.keyframe,
            data: self.data@,
        }
    }
}

/// What was sent, in the order in which it came: the packets with the indices in `order`.
pub open spec fn packets_in_order(
    frame: Seq<u8>,
    meta: PacketizeMeta,
    order: Seq<int>,
) -> Seq<PacketView> {
    Seq::new(order.len(), |i: int| packet_of(frame, meta, order[i]))
}

/// The state of the reassembly after the packets with the indices in `order`.
spec fn partial_assembly(frame: Seq<u8>, meta: PacketizeMeta, order: Seq<int>) -> AssemblerView {
    AssemblerView {
        stream_id: meta.stream_id,
        frame_id: meta.frame_id,
        timestamp_us: meta.timestamp_us,
        keyframe: meta.keyframe,
        slots: Seq::new(
            packet_count(frame.len()),
            |p: int|
                if order.contains(p) {
                    Some(chunk(frame, p))
                } else {
                    None
                },
        ),
    }
}

proof fn lemma_first_assembly(frame: Seq<u8>, meta: PacketizeMeta, p: int)
    requires
        spec_packetizable(frame.len()) is Ok,
        0 <= p < packet_count(frame.len()),
    ensures
        AssemblerView::spec_from_first(packet_of(frame, meta, p)) == partial_assembly(
            frame,
            meta,
            Seq::empty(),
        ),
{
    broadcast use MediaFlags::lemma_bits;

    let count = packet_count(frame.len());
    let start: u16 = if p == 0 {
        0x02
    } else {
        0x00
    };
    let end: u16 = if p + 1 == count {
        0x04
    } else {
        0x00
    };
    assert((0x01u16 | start | end) & 0x01 == 0x01 && (0x00u16 | start | end) & 0x01 != 0x01)
        by (bit_vector)
        requires
            start == 0x02 || start == 0x00,
            end == 0x04 || end == 0x00,
    ;
    let first = AssemblerView::spec_from_first(packet_of(frame, meta, p));
    assert(first.slots =~= partial_assembly(frame, meta, Seq::empty()).slots);
}

proof fn lemma_partial_assembly(
    frame: Seq<u8>,
    meta: PacketizeMeta,
    order: Seq<int>,
    first: AssemblerView,
)
    requires
        spec_packetizable(frame.len()) is Ok,
        forall|i: int|
            0 <= i < order.len() ==> 0 <= #[trigger] order[i] < packet_count(frame.len()),
        first == partial_assembly(frame, meta, Seq::empty()),
    ensures
        first.spec_push_all(packets_in_order(frame, meta, order)) == Ok::<_, AssembleError>(
            partial_assembly(frame, meta, order),
        ),
    decreases order.len(),
{
    let sent = packets_in_order(frame, meta, order);
    if order.len() > 0 {
        let front = order.drop_last();
        let last = order.last();
        lemma_partial_assembly(frame, meta, front, first);
        assert(sent.drop_last() =~= packets_in_order(frame, meta, front));
        lemma_chunk_bounds(frame.len(), last);
        let before = partial_assembly(frame, meta, front);
        let after = partial_assembly(frame, meta, order);
        assert forall|p: int| order.contains(p) <==> front.contains(p) || p == last by {
            if order.contains(p) && p != last {
                let i = choose|i: int| 0 <= i < order.len() && order[i] == p;
                assert(front[i] == p);
            }
            if front.contains(p) {
                let i = choose|i: int| 0 <= i < front.len() && front[i] == p;
                assert(order[i] == p);
            }
            assert(order[order.len() - 1] == last);
        }
        if front.contains(last) {
            assert(after.slots =~= before.slots);
        } else {
            assert(after.slots =~= before.slots.update(last, Some(chunk(frame, last))));
        }
    } else {
        assert(order =~= Seq::<int>::empty());
    }
}

/// Every packet of a frame is among those with the indices in `order`.
pub open spec fn has_every_packet(frame: Seq<u8>, order: Seq<int>) -> bool {
    forall|p: int| 0 <= p < packet_count(frame.len()) ==> #[trigger] order.contains(p)
}

/// Reassembly gives back the frame that was split, whichever of its packets it starts from, in
/// whatever order they come and however often each of them comes, once every one of them has
/// come. Until then it gives none.
pub proof fn law_reassembly_gives_the_frame_back(
    frame: Seq<u8>,
    meta: PacketizeMeta,
    start: int,
    order: Seq<int>,
)
    requires
        spec_packetizable(frame.len()) is Ok,
        0 <= start < packet_count(frame.len()),
        forall|i: int|
            0 <= i < order.len() ==> 0 <= #[trigger] order[i] < packet_count(frame.len()),
    ensures
        match AssemblerView::spec_from_first(packet_of(frame, meta, start)).spec_push_all(
            packets_in_order(frame, meta, order),
        ) {
            Ok(assembler) => assembler.spec_finish() == if has_every_packet(frame, order) {
                Some(
                    FrameView {
                        stream_id: meta.stream_id,
                        frame_id: meta.frame_id,
                        timestamp_us: meta.timestamp_us,
                        keyframe: meta.keyframe,
                        data: frame,
                    },
                )
            } else {
                None
            },
            Err(_) => false,
        },
{
    lemma_first_assembly(frame, meta, start);
    let first = AssemblerView::spec_from_first(packet_of(frame, meta, start));
    lemma_partial_assembly(frame, meta, order, first);
    let count = packet_count(frame.len());
    let partial = partial_assembly(frame, meta, order);
    if has_every_packet(frame, order) {
        assert(partial.slots =~= Seq::new(count, |j: int| Some(chunk(frame, j))));
        lemma_chunks_prefix(frame, count);
        lemma_chunk_bounds(frame.len(), 0);
        assert(frame.take(frame.len() as int) =~= frame);
    } else {
        let p = choose|p: int| 0 <= p < count && !#[trigger] order.contains(p);
        assert(partial.slots[p] is None);
    }
}

/// The reported places are exactly the empty ones, in ascending order, each of them once; none is
/// reported if and only if every place is filled.
pub proof fn law_missing_places_are_reported(slots: Seq<Option<Seq<u8>>>)
    requires
        slots.len() <= 0x1_0000,
    ensures
        forall|i: u16| #[trigger]
            missing_of(slots).contains(i) <==> i < slots.len() && slots[i as int] is None,
        forall|j: int, k: int|
            0 <= j < k < missing_of(slots).len() ==> #[trigger] missing_of(slots)[j]
                < #[trigger] missing_of(slots)[k],
        missing_of(slots).len() == 0 <==> all_filled(slots),
    decreases slots.len(),
{
    let missing = missing_of(slots);
    if slots.len() > 0 {
        let front = slots.drop_last();
        let before = missing_of(front);
        let last = (slots.len() - 1) as u16;
        law_missing_places_are_reported(front);
        assert forall|j: int| 0 <= j < before.len() implies #[trigger] before[j] < last by {
            assert(before.contains(before[j]));
        }
        assert forall|i: u16| #[trigger] missing.contains(i) <==> i < slots.len()
            && slots[i as int] is None by {
            if i < last {
                assert(front[i as int] == slots[i as int]);
                if before.contains(i) {
                    let j = choose|j: int| 0 <= j < before.len() && before[j] == i;
                    assert(missing[j] == i);
                }
                if missing.contains(i) {
                    let j = choose|j: int| 0 <= j < missing.len() && missing[j] == i;
                    assert(j < before.len());
                    assert(before[j] == i);
                }
            } else if missing.contains(i) {
                let j = choose|j: int| 0 <= j < missing.len() && missing[j] == i;
                assert(j < before.len() ==> before[j] == i);
            } else if i == last && slots[i as int] is None {
                assert(missing[before.len() as int] == i);
            }
        }
    }
    assert(missing.len() == 0 <==> all_filled(slots)) by {
        if missing.len() > 0 {
            assert(missing.contains(missing[0]));
        }
        if !all_filled(slots) {
            let i = choose|i: int| 0 <= i < slots.len() && !((#[trigger] slots[i]) is Some);
            assert(missing.contains(i as u16));
        }
    }
}

/// Sending the reported packets again completes the frame, whatever has come before.
pub proof fn law_repeating_the_missing_packets_completes(
    frame: Seq<u8>,
    meta: PacketizeMeta,
    start: int,
    order: Seq<int>,
)
    requires
        spec_packetizable(frame.len()) is Ok,
        0 <= start < packet_count(frame.len()),
        forall|i: int|
            0 <= i < order.len() ==> 0 <= #[trigger] order[i] < packet_count(frame.len()),
    ensures
        ({
            let first = AssemblerView::spec_from_first(packet_of(frame, meta, start));
            match first.spec_push_all(packets_in_order(frame, meta, order)) {
                Ok(partial) => {
                    let repeated = missing_of(partial.slots).map_values(|i: u16| i as int);
                    match first.spec_push_all(packets_in_order(frame, meta, order + repeated)) {
                        Ok(whole) => whole.spec_finish() matches Some(finished) && finished.data
                            == frame,
                        Err(_) => false,
                    }
                },
                Err(_) => false,
            }
        }),
{
    lemma_first_assembly(frame, meta, start);
    let first = AssemblerView::spec_from_first(packet_of(frame, meta, start));
    lemma_partial_assembly(frame, meta, order, first);
    let partial = partial_assembly(frame, meta, order);
    let missing = missing_of(partial.slots);
    let repeated = missing.map_values(|i: u16| i as int);
    let all = order + repeated;
    law_missing_places_are_reported(partial.slots);
    assert forall|i: int| 0 <= i < all.len() implies 0 <= #[trigger] all[i] < packet_count(
        frame.len(),
    ) by {
        if i >= order.len() {
            assert(missing.contains(missing[i - order.len()]));
        } else {
            assert(all[i] == order[i]);
        }
    }
    assert forall|p: int| 0 <= p < packet_count(frame.len()) implies #[trigger] all.contains(p) by {
        if order.contains(p) {
            let j = choose|j: int| 0 <= j < order.len() && order[j] == p;
            assert(all[j] == p);
        } else {
            assert(partial.slots[p] is None);
            assert(missing.contains(p as u16));
            let j = choose|j: int| 0 <= j < missing.len() && missing[j] == p as u16;
            assert(all[order.len() + j] == p);
        }
    }
    law_reassembly_gives_the_frame_back(frame, meta, start, all);
}

/// A frame is split into as few packets as its size allows, none of them empty or too large, and
/// all but the last are full. Each names its place and the number of all, the first and the last
/// are marked as such, and every one of them is marked where the frame is a key frame.
pub proof fn law_packets_carry_the_frame(frame: Seq<u8>, meta: PacketizeMeta, i: int)
    requires
        0 < frame.len(),
        frame.len() <= 1200 * 0xFFFF,
        0 <= i < packet_count(frame.len()),
    ensures
        spec_packetizable(frame.len()) is Ok,
        ({
            let count = packet_count(frame.len());
            let packet = packet_of(frame, meta, i);
            let bits = packet.header.flags.spec_bits();
            &&& 1200 * (count - 1) < frame.len() <= 1200 * count
            &&& packet.payload.len() == if i + 1 < count {
                1200
            } else {
                frame.len() - 1200 * (count - 1)
            }
            &&& forall|j: int|
                0 <= j < packet.payload.len() ==> #[trigger] packet.payload[j] == frame[1200 * i
                    + j]
            &&& packet.header.payload_len == packet.payload.len()
            &&& packet.header.packet_index == i
            &&& packet.header.packet_count == count
            &&& packet.header.stream_id == meta.stream_id
            &&& packet.header.frame_id == meta.frame_id
            &&& packet.header.timestamp_us == meta.timestamp_us
            &&& packet.header.protocol_major == meta.protocol_major
            &&& packet.header.protocol_minor == meta.protocol_minor
            &&& meta.first_sequence + i <= u32::MAX ==> packet.header.sequence
                == meta.first_sequence + i
            &&& meta.first_sequence + i > u32::MAX ==> packet.header.sequence
                == meta.first_sequence + i - 0x1_0000_0000
            &&& (bits & 0x01 == 0x01) == meta.keyframe
            &&& (bits & 0x02 == 0x02) == (i == 0)
            &&& (bits & 0x04 == 0x04) == (i + 1 == count)
            &&& bits <= 0x07
        }),
{
    broadcast use MediaFlags::lemma_bits;

    let count = packet_count(frame.len());
    let key: u16 = if meta.keyframe {
        0x01
    } else {
        0x00
    };
    let start: u16 = if i == 0 {
        0x02
    } else {
        0x00
    };
    let end: u16 = if i + 1 == count {
        0x04
    } else {
        0x00
    };
    assert(((key | start | end) & 0x01 == 0x01) == (key == 0x01) && ((key | start | end) & 0x02
        == 0x02) == (start == 0x02) && ((key | start | end) & 0x04 == 0x04) == (end == 0x04) && (key
        | start | end) <= 0x07) by (bit_vector)
        requires
            key == 0x01 || key == 0x00,
            start == 0x02 || start == 0x00,
            end == 0x04 || end == 0x00,
    ;
}

/// What is too large or empty is not split at all.
pub proof fn law_unsplittable_frames_are_refused(len: nat)
    ensures
        len == 0 ==> spec_packetizable(len) == Err::<(), _>(PacketizeError::EmptyFrame),
        len > 1200 * 0xFFFF ==> spec_packetizable(len) == Err::<(), _>(
            PacketizeError::TooManyPackets,
        ),
{
}

/// A packet of the frame fills its own place and no other. One of another frame or stream, with
/// another count or a wrong length, or that contradicts what is there, is refused; one that
/// repeats it changes nothing.
pub proof fn law_push_fills_one_place(assembler: AssemblerView, packet: PacketView, other: int)
    requires
        packet.header.packet_index < assembler.slots.len(),
        0 <= other < assembler.slots.len(),
        other != packet.header.packet_index,
    ensures
        ({
            let own = packet.header.packet_index as int;
            let result = assembler.spec_push(packet);
            let fits = packet.header.frame_id == assembler.frame_id && packet.header.stream_id
                == assembler.stream_id && packet.header.packet_count == assembler.slots.len()
                && packet.header.payload_len == packet.payload.len();
            &&& packet.header.frame_id != assembler.frame_id ==> result is Err
            &&& packet.header.stream_id != assembler.stream_id ==> result is Err
            &&& packet.header.packet_count != assembler.slots.len() ==> result is Err
            &&& packet.header.payload_len != packet.payload.len() ==> result is Err
            &&& assembler.slots[own] is Some && assembler.slots[own] != Some(packet.payload)
                ==> result is Err
            &&& fits && assembler.slots[own] is None ==> result is Ok
            &&& fits && assembler.slots[own] == Some(packet.payload) ==> result == Ok::<
                _,
                AssembleError,
            >(assembler)
            &&& result matches Ok(after) ==> {
                &&& after.slots.len() == assembler.slots.len()
                &&& after.slots[own] == Some(packet.payload)
                &&& after.slots[other] == assembler.slots[other]
                &&& after.stream_id == assembler.stream_id
                &&& after.frame_id == assembler.frame_id
                &&& after.timestamp_us == assembler.timestamp_us
                &&& after.keyframe == assembler.keyframe
            }
        }),
{
}

/// Why a packet does not belong to the frame is told, the first reason where there are several.
pub proof fn law_stray_packets_are_explained(assembler: AssemblerView, packet: PacketView)
    ensures
        ({
            let result = assembler.spec_push(packet);
            let framed = packet.header.frame_id == assembler.frame_id;
            let streamed = framed && packet.header.stream_id == assembler.stream_id;
            let counted = streamed && packet.header.packet_count == assembler.slots.len();
            let measured = counted && packet.header.payload_len == packet.payload.len();
            let slot = assembler.slots[packet.header.packet_index as int];
            &&& !framed ==> result == Err::<AssemblerView, _>(AssembleError::WrongFrame)
            &&& framed && !streamed ==> result == Err::<AssemblerView, _>(
                AssembleError::WrongStream,
            )
            &&& streamed && !counted ==> result == Err::<AssemblerView, _>(
                AssembleError::PacketCountChanged,
            )
            &&& counted && !measured ==> result == Err::<AssemblerView, _>(
                AssembleError::PayloadLengthMismatch,
            )
            &&& measured && slot is Some && slot->Some_0 != packet.payload ==> result == Err::<
                AssemblerView,
                _,
            >(AssembleError::DuplicatePacketConflict)
        }),
{
}

} // verus!
