//! The state behind a sender and a receiver of frames. The sockets themselves are elsewhere.

use super::address::SocketAddress;
use super::receiver::{ReceiverEvent, ReceiverPolicy, ReceiverWindow, WindowView};
use super::reliability::{CacheView, RetransmitCache, SequenceObservation, SequenceTracker, TrackerView};
use super::udp::{assembly_failure, decode_datagram, DatagramError};
use super::{packetize_frame, AssembleError, MediaPacket, PacketView, PacketizeError, PacketizeMeta};
use crate::protocol::{ProtocolVersion, PROTOCOL_MAJOR, PROTOCOL_MINOR};
use crate::video::distributor::SharedEncodedFrame;
use crate::video::Codec;
use vstd::prelude::*;

verus! {

/// Where a sender's stream goes, and how long it can repeat what it sent.
#[derive(Debug, Clone, Copy, PartialEq, Eq)]
pub struct UdpSenderConfig {
    pub stream_id: u32,
    pub destination: SocketAddress,
    pub retransmit_max_packets: usize,
    pub retransmit_max_age_us: u64,
}

impl UdpSenderConfig {
    #[must_use]
    pub fn presentation(stream_id: u32, destination: SocketAddress) -> (config: Self)
        ensures
            config == (UdpSenderConfig {
                stream_id,
                destination,
                retransmit_max_packets: 2_048,
                retransmit_max_age_us: 250_000,
            }),
    {
        UdpSenderConfig {
            stream_id,
            destination,
            retransmit_max_packets: 2_048,
            retransmit_max_age_us: 250_000,
        }
    }
}

#[derive(Debug, Clone, Copy, PartialEq, Eq, Structural)]
pub struct UdpSenderStats {
    pub frames_sent: u64,
    pub packets_sent: u64,
    pub payload_bytes_sent: u64,
    pub retransmit_packets_sent: u64,
    pub retransmit_cache_misses: u64,
}

impl Default for UdpSenderStats {
    fn default() -> (stats: Self)
        ensures
            stats == (UdpSenderStats {
                frames_sent: 0,
                packets_sent: 0,
                payload_bytes_sent: 0,
                retransmit_packets_sent: 0,
                retransmit_cache_misses: 0,
            }),
    {
        UdpSenderStats {
            frames_sent: 0,
            packets_sent: 0,
            payload_bytes_sent: 0,
            retransmit_packets_sent: 0,
            retransmit_cache_misses: 0,
        }
    }
}

/// Why a frame cannot be sent.
#[derive(Debug, Clone, PartialEq, Eq)]
pub enum UdpSendError {
    Datagram(DatagramError),
    Packetize(PacketizeError),
    UnsupportedCodec,
    ProtocolVersionOutOfRange,
}

impl From<PacketizeError> for UdpSendError {
    fn from(value: PacketizeError) -> (error: Self) {
        UdpSendError::Packetize(value)
    }
}

impl vstd::std_specs::convert::FromSpecImpl<PacketizeError> for UdpSendError {
    open spec fn obeys_from_spec() -> bool {
        true
    }

    open spec fn from_spec(value: PacketizeError) -> Self {
        UdpSendError::Packetize(value)
    }
}

#[derive(Debug, Clone, Copy, PartialEq, Eq, Structural)]
pub struct SendFrameReport {
    pub frame_id: u64,
    pub packets: usize,
    pub payload_bytes: usize,
    pub first_sequence: u32,
    pub next_sequence: u32,
}

/// The packets of a frame that is about to be sent.
#[derive(Debug)]
pub struct FramePlan {
    frame_id: u64,
    payload_bytes: usize,
    packets: Vec<MediaPacket>,
}

/// The packets as values, in order.
pub open spec fn packet_views(packets: Seq<MediaPacket>) -> Seq<PacketView> {
    Seq::new(packets.len(), |i: int| packets[i]@)
}

impl FramePlan {
    pub closed spec fn spec_frame_id(self) -> u64 {
        self.frame_id
    }

    pub closed spec fn spec_payload_bytes(self) -> usize {
        self.payload_bytes
    }

    pub closed spec fn spec_packets(self) -> Seq<PacketView> {
        packet_views(self.packets@)
    }

    /// The packets can be counted in the header.
    pub closed spec fn wf(self) -> bool {
        self.packets@.len() <= 0xFFFF
    }

    /// The number of packets.
    #[must_use]
    pub fn len(&self) -> (len: usize)
        ensures
            len == self.spec_packets().len(),
    {
        self.packets.len()
    }

    /// One of the packets.
    #[must_use]
    pub fn packet(&self, index: usize) -> (packet: &MediaPacket)
        requires
            index < self.spec_packets().len(),
        ensures
            packet@ == self.spec_packets()[index as int],
    {
        &self.packets[index]
    }
}

/// Packetizes already-encoded frames without retaining an unbounded media queue. Recent
/// packets are kept only inside a short retransmission cache for NACK recovery; media older
/// than that window is intentionally allowed to expire.
#[derive(Debug)]
pub struct UdpFrameSender {
    config: UdpSenderConfig,
    next_sequence: u32,
    retransmit: RetransmitCache,
    stats: UdpSenderStats,
}

/// A sender's settings, what it can repeat, and what it has done.
pub struct SenderView {
    pub config: UdpSenderConfig,
    pub next_sequence: u32,
    pub retransmit: CacheView,
    pub stats: UdpSenderStats,
}

impl View for UdpFrameSender {
    type V = SenderView;

    closed spec fn view(&self) -> SenderView {
        SenderView {
            config: self.config,
            next_sequence: self.next_sequence,
            retransmit: self.retransmit@,
            stats: self.stats,
        }
    }
}

/// The number of packets that were found, among the first `count`.
pub open spec fn found_count(packets: Seq<Option<PacketView>>) -> nat
    decreases packets.len(),
{
    if packets.len() == 0 {
        0
    } else {
        found_count(packets.drop_last()) + if packets.last() is Some {
            1nat
        } else {
            0nat
        }
    }
}

/// The packets that were found, as values.
pub open spec fn found_views(packets: Seq<Option<MediaPacket>>) -> Seq<Option<PacketView>> {
    Seq::new(
        packets.len(),
        |i: int|
            match packets[i] {
                Some(packet) => Some(packet@),
                None => None,
            },
    )
}

impl SenderView {
    /// What the packets of a frame have in common.
    pub open spec fn spec_meta(self, frame: SharedEncodedFrame) -> PacketizeMeta {
        PacketizeMeta {
            protocol_major: PROTOCOL_MAJOR as u8,
            protocol_minor: PROTOCOL_MINOR as u8,
            stream_id: self.config.stream_id,
            frame_id: frame.meta.frame_id,
            first_sequence: self.next_sequence,
            timestamp_us: frame.meta.timestamp_us,
            keyframe: frame.meta.keyframe,
        }
    }

    /// Whether a frame can be sent, and why not.
    pub open spec fn spec_sendable(self, frame: SharedEncodedFrame) -> Result<(), UdpSendError> {
        if frame.codec != Codec::H264 {
            Err(UdpSendError::UnsupportedCodec)
        } else {
            match super::spec_packetizable(frame.data@.len()) {
                Ok(()) => Ok(()),
                Err(error) => Err(UdpSendError::Packetize(error)),
            }
        }
    }

    /// The frame's packets, in order.
    pub open spec fn spec_frame_packets(self, frame: SharedEncodedFrame) -> Seq<PacketView> {
        Seq::new(
            super::packet_count(frame.data@.len()),
            |i: int| super::packet_of(frame.data@, self.spec_meta(frame), i),
        )
    }

    /// The sender after the first `sent` packets of a plan have left. Only what has left can
    /// be repeated, and only a whole frame is counted.
    pub open spec fn spec_finish_frame(
        self,
        now_us: u64,
        packets: Seq<PacketView>,
        payload_bytes: usize,
        sent: int,
    ) -> Self {
        let cached = SenderView {
            retransmit: self.retransmit.spec_insert_all(now_us, packets.take(sent)),
            ..self
        };
        if sent == packets.len() {
            SenderView {
                next_sequence: ((self.next_sequence + packets.len()) % 0x1_0000_0000) as u32,
                stats: UdpSenderStats {
                    frames_sent: crate::counting::saturating_sum(self.stats.frames_sent, 1),
                    packets_sent: crate::counting::saturating_sum(
                        self.stats.packets_sent,
                        packets.len() as int,
                    ),
                    payload_bytes_sent: crate::counting::saturating_sum(
                        self.stats.payload_bytes_sent,
                        payload_bytes as int,
                    ),
                    ..self.stats
                },
                ..cached
            }
        } else {
            cached
        }
    }

    /// The packets of a frame that can be repeated: for each index the newest packet that the
    /// cache still holds.
    pub open spec fn spec_retransmit(self, now_us: u64, frame_id: u64, missing: Seq<u16>) -> Seq<
        Option<PacketView>,
    > {
        Seq::new(
            missing.len(),
            |i: int| self.retransmit.spec_prune(now_us).spec_find(frame_id, missing[i]),
        )
    }

    /// The sender after the first `attempted` of those were tried.
    pub open spec fn spec_finish_retransmit(
        self,
        packets: Seq<Option<PacketView>>,
        attempted: int,
    ) -> Self {
        let found = found_count(packets.take(attempted)) as int;
        SenderView {
            stats: UdpSenderStats {
                retransmit_packets_sent: crate::counting::saturating_sum(
                    self.stats.retransmit_packets_sent,
                    found,
                ),
                retransmit_cache_misses: crate::counting::saturating_sum(
                    self.stats.retransmit_cache_misses,
                    attempted - found,
                ),
                ..self.stats
            },
            ..self
        }
    }
}

impl UdpFrameSender {
    /// The cache is sound.
    pub closed spec fn wf(self) -> bool {
        self.retransmit.wf()
    }

    #[must_use]
    pub fn new(config: UdpSenderConfig) -> (sender: Self)
        requires
            config.retransmit_max_packets > 0,
        ensures
            sender.wf(),
            sender@.config == config,
            sender@.next_sequence == 0,
            sender@.retransmit == (CacheView {
                entries: Seq::empty(),
                max_packets: config.retransmit_max_packets,
                max_age_us: config.retransmit_max_age_us,
            }),
            sender@.stats == (UdpSenderStats {
                frames_sent: 0,
                packets_sent: 0,
                payload_bytes_sent: 0,
                retransmit_packets_sent: 0,
                retransmit_cache_misses: 0,
            }),
    {
        UdpFrameSender {
            config,
            next_sequence: 0,
            retransmit: RetransmitCache::new(
                config.retransmit_max_packets,
                config.retransmit_max_age_us,
            ),
            stats: UdpSenderStats::default(),
        }
    }

    /// Where the stream goes.
    #[must_use]
    pub fn destination(&self) -> (destination: SocketAddress)
        ensures
            destination == self@.config.destination,
    {
        self.config.destination
    }

    /// The packets of a frame, to be sent in order.
    pub fn plan_frame(&self, frame: &SharedEncodedFrame) -> (result: Result<
        FramePlan,
        UdpSendError,
    >)
        ensures
            match result {
                Ok(plan) => self@.spec_sendable(*frame) is Ok && plan.wf() && plan.spec_frame_id()
                    == frame.meta.frame_id && plan.spec_payload_bytes() == frame.data@.len()
                    && plan.spec_packets() == self@.spec_frame_packets(*frame),
                Err(error) => self@.spec_sendable(*frame) == Err::<(), _>(error),
            },
    {
        if frame.codec != Codec::H264 {
            return Err(UdpSendError::UnsupportedCodec);
        }
        let version = ProtocolVersion::current();
        let meta = PacketizeMeta {
            protocol_major: version.major as u8,
            protocol_minor: version.minor as u8,
            stream_id: self.config.stream_id,
            frame_id: frame.meta.frame_id,
            first_sequence: self.next_sequence,
            timestamp_us: frame.meta.timestamp_us,
            keyframe: frame.meta.keyframe,
        };
        let data: &[u8] = &*frame.data;
        match packetize_frame(data, meta) {
            Ok(packets) => {
                proof {
                    assert(packet_views(packets@) =~= self@.spec_frame_packets(*frame));
                }
                Ok(
                    FramePlan {
                        frame_id: frame.meta.frame_id,
                        payload_bytes: data.len(),
                        packets,
                    },
                )
            },
            Err(error) => Err(UdpSendError::from(error)),
        }
    }

    /// Takes note that the first `sent` packets of a plan have left. Where that is all of
    /// them, the frame is counted and reported.
    pub fn finish_frame(&mut self, now_us: u64, plan: FramePlan, sent: usize) -> (report: Option<
        SendFrameReport,
    >)
        requires
            old(self).wf(),
            plan.wf(),
            sent <= plan.spec_packets().len(),
        ensures
            final(self).wf(),
            final(self)@ == old(self)@.spec_finish_frame(
                now_us,
                plan.spec_packets(),
                plan.spec_payload_bytes(),
                sent as int,
            ),
            match report {
                Some(report) => sent == plan.spec_packets().len() && report == (SendFrameReport {
                    frame_id: plan.spec_frame_id(),
                    packets: sent,
                    payload_bytes: plan.spec_payload_bytes(),
                    first_sequence: old(self)@.next_sequence,
                    next_sequence: final(self)@.next_sequence,
                }),
                None => sent < plan.spec_packets().len(),
            },
    {
        let ghost packets = plan.spec_packets();
        let mut i: usize = 0;
        proof {
            assert(packets.take(0) =~= Seq::<PacketView>::empty());
        }
        while i < sent
            invariant
                i <= sent <= plan.packets@.len(),
                packets == packet_views(plan.packets@),
                self.retransmit.wf(),
                self.config == old(self)@.config,
                self.next_sequence == old(self)@.next_sequence,
                self.stats == old(self)@.stats,
                self.retransmit@ == old(self)@.retransmit.spec_insert_all(
                    now_us,
                    packets.take(i as int),
                ),
            decreases sent - i,
        {
            proof {
                assert(packets.take(i + 1).drop_last() =~= packets.take(i as int));
            }
            let packet = plan.packets[i].duplicate();
            self.retransmit.insert(now_us, packet);
            i += 1;
        }
        let count: usize = plan.packets.len();
        if sent < count {
            return None;
        }
        let first_sequence: u32 = self.next_sequence;
        self.next_sequence = self.next_sequence.wrapping_add(count as u32);
        self.stats.frames_sent = self.stats.frames_sent.saturating_add(1);
        self.stats.packets_sent = self.stats.packets_sent.saturating_add(count as u64);
        self.stats.payload_bytes_sent = self.stats.payload_bytes_sent.saturating_add(
            plan.payload_bytes as u64,
        );
        Some(
            SendFrameReport {
                frame_id: plan.frame_id,
                packets: count,
                payload_bytes: plan.payload_bytes,
                first_sequence,
                next_sequence: self.next_sequence,
            },
        )
    }

    /// Looks up packets that are still inside the bounded live-media cache.
    ///
    /// Missing cache entries are not fatal; the receiver should eventually request a keyframe
    /// rather than forcing old video to remain buffered indefinitely.
    pub fn plan_retransmit(
        &mut self,
        now_us: u64,
        frame_id: u64,
        missing_packet_indices: &[u16],
    ) -> (packets: Vec<Option<MediaPacket>>)
        requires
            old(self).wf(),
        ensures
            final(self).wf(),
            final(self)@ == (SenderView {
                retransmit: old(self)@.retransmit.spec_prune(now_us),
                ..old(self)@
            }),
            found_views(packets@) == old(self)@.spec_retransmit(
                now_us,
                frame_id,
                missing_packet_indices@,
            ),
    {
        self.retransmit.prune(now_us);
        let mut packets: Vec<Option<MediaPacket>> = Vec::new();
        let mut i: usize = 0;
        while i < missing_packet_indices.len()
            invariant
                i <= missing_packet_indices@.len(),
                self.wf(),
                self@ == (SenderView {
                    retransmit: old(self)@.retransmit.spec_prune(now_us),
                    ..old(self)@
                }),
                found_views(packets@) == old(self)@.spec_retransmit(
                    now_us,
                    frame_id,
                    missing_packet_indices@,
                ).take(i as int),
            decreases missing_packet_indices@.len() - i,
        {
            let ghost before = packets@;
            let found = match self.retransmit.find(frame_id, missing_packet_indices[i]) {
                Some(packet) => Some(packet.duplicate()),
                None => None,
            };
            packets.push(found);
            i += 1;
            proof {
                assert(found_views(packets@) =~= found_views(before).push(
                    found_views(packets@)[i - 1],
                ));
                assert(found_views(packets@) =~= old(self)@.spec_retransmit(
                    now_us,
                    frame_id,
                    missing_packet_indices@,
                ).take(i as int));
            }
        }
        proof {
            assert(found_views(packets@) =~= old(self)@.spec_retransmit(
                now_us,
                frame_id,
                missing_packet_indices@,
            ));
        }
        packets
    }

    /// Takes note that the first `attempted` entries of a retransmission were dealt with, and
    /// tells how many packets that were.
    pub fn finish_retransmit(
        &mut self,
        packets: &Vec<Option<MediaPacket>>,
        attempted: usize,
    ) -> (sent: usize)
        requires
            old(self).wf(),
            attempted <= packets@.len(),
        ensures
            final(self).wf(),
            sent == found_count(found_views(packets@).take(attempted as int)),
            final(self)@ == old(self)@.spec_finish_retransmit(
                found_views(packets@),
                attempted as int,
            ),
    {
        let ghost views = found_views(packets@);
        let mut sent: usize = 0;
        let mut i: usize = 0;
        proof {
            assert(views.take(0) =~= Seq::<Option<PacketView>>::empty());
        }
        while i < attempted
            invariant
                i <= attempted <= packets@.len(),
                views == found_views(packets@),
                sent <= i,
                sent == found_count(views.take(i as int)),
                self.retransmit == old(self).retransmit,
                self.config == old(self).config,
                self.next_sequence == old(self).next_sequence,
                self.stats == old(self)@.spec_finish_retransmit(views, i as int).stats,
            decreases attempted - i,
        {
            proof {
                assert(views.take(i + 1).drop_last() =~= views.take(i as int));
                assert(views.take(i + 1).last() == views[i as int]);
            }
            if packets[i].is_none() {
                self.stats.retransmit_cache_misses =
                self.stats.retransmit_cache_misses.saturating_add(1);
            } else {
                sent += 1;
                self.stats.retransmit_packets_sent =
                self.stats.retransmit_packets_sent.saturating_add(1);
            }
            i += 1;
        }
        sent
    }

    #[must_use]
    pub fn stats(&self) -> (stats: UdpSenderStats)
        ensures
            stats == self@.stats,
    {
        self.stats
    }
}

#[derive(Debug, Clone, Copy, PartialEq, Eq, Structural)]
pub struct UdpReceiverStats {
    pub datagrams_received: u64,
    pub frames_completed: u64,
    pub sequence_gaps_observed: u64,
    pub reordered_or_duplicate: u64,
}

impl Default for UdpReceiverStats {
    fn default() -> (stats: Self)
        ensures
            stats == (UdpReceiverStats {
                datagrams_received: 0,
                frames_completed: 0,
                sequence_gaps_observed: 0,
                reordered_or_duplicate: 0,
            }),
    {
        UdpReceiverStats {
            datagrams_received: 0,
            frames_completed: 0,
            sequence_gaps_observed: 0,
            reordered_or_duplicate: 0,
        }
    }
}

/// What came of one datagram.
#[derive(Debug)]
pub struct UdpReceiveBatch {
    pub source: SocketAddress,
    pub sequence: SequenceObservation,
    pub events: Vec<ReceiverEvent>,
}

/// Takes one media datagram at a time and feeds the bounded receiver window.
#[derive(Debug)]
pub struct UdpFrameReceiver {
    window: ReceiverWindow,
    sequence: SequenceTracker,
    stats: UdpReceiverStats,
}

/// The receiver's window, its sequence numbers and what it has counted.
pub struct FrameReceiverView {
    pub window: WindowView,
    pub sequence: TrackerView,
    pub stats: UdpReceiverStats,
}

impl View for UdpFrameReceiver {
    type V = FrameReceiverView;

    closed spec fn view(&self) -> FrameReceiverView {
        FrameReceiverView {
            window: self.window@,
            sequence: self.sequence@,
            stats: self.stats,
        }
    }
}

/// The number of events that deliver a frame.
pub open spec fn ready_count(events: Seq<super::receiver::EventView>) -> nat
    decreases events.len(),
{
    if events.len() == 0 {
        0
    } else {
        ready_count(events.drop_last()) + if events.last() is FrameReady {
            1nat
        } else {
            0nat
        }
    }
}

impl FrameReceiverView {
    /// The receiver after it has looked at a packet's sequence number.
    pub open spec fn spec_observed(self, sequence: u32) -> Self {
        let observation = self.sequence.spec_observe(sequence).1;
        FrameReceiverView {
            sequence: self.sequence.spec_observe(sequence).0,
            stats: UdpReceiverStats {
                datagrams_received: crate::counting::saturating_sum(
                    self.stats.datagrams_received,
                    1,
                ),
                sequence_gaps_observed: if observation is Gap {
                    crate::counting::saturating_sum(self.stats.sequence_gaps_observed, 1)
                } else {
                    self.stats.sequence_gaps_observed
                },
                reordered_or_duplicate: if observation is ReorderedOrDuplicate {
                    crate::counting::saturating_sum(self.stats.reordered_or_duplicate, 1)
                } else {
                    self.stats.reordered_or_duplicate
                },
                ..self.stats
            },
            ..self
        }
    }

    /// The receiver after a packet, and what is to be told of it.
    pub open spec fn spec_receive(self, now_us: u64, packet: PacketView) -> (Self, Result<
        Seq<super::receiver::EventView>,
        AssembleError,
    >) {
        let observed = self.spec_observed(packet.header.sequence);
        let pushed = observed.window.spec_push(now_us, packet);
        match pushed.1 {
            Err(error) => (FrameReceiverView { window: pushed.0, ..observed }, Err(error)),
            Ok(events) => (
                FrameReceiverView {
                    window: pushed.0,
                    stats: UdpReceiverStats {
                        frames_completed: crate::counting::saturating_sum(
                            observed.stats.frames_completed,
                            ready_count(events) as int,
                        ),
                        ..observed.stats
                    },
                    ..observed
                },
                Ok(events),
            ),
        }
    }
}

impl UdpFrameReceiver {
    /// The window and the tracker are sound.
    pub closed spec fn wf(self) -> bool {
        self.window.wf() && self.sequence.wf()
    }

    #[must_use]
    pub fn new(policy: ReceiverPolicy) -> (receiver: Self)
        requires
            policy.is_valid(),
        ensures
            receiver.wf(),
            receiver@.window == (WindowView {
                policy,
                inflight: Seq::empty(),
                latest_complete_frame: None,
                dropped_frames: 0,
            }),
            receiver@.sequence == (TrackerView {
                highest: None,
                missing: Set::empty(),
                received: 0,
                reordered_or_duplicate: 0,
            }),
            receiver@.stats == (UdpReceiverStats {
                datagrams_received: 0,
                frames_completed: 0,
                sequence_gaps_observed: 0,
                reordered_or_duplicate: 0,
            }),
    {
        UdpFrameReceiver {
            window: ReceiverWindow::new(policy),
            sequence: SequenceTracker::default(),
            stats: UdpReceiverStats::default(),
        }
    }

    /// Takes a datagram that came from `source`. One that cannot be read changes nothing. One
    /// whose packet its frame refuses is reported as invalid data.
    pub fn receive_once(&mut self, now_us: u64, data: &[u8], source: SocketAddress) -> (result:
        Result<UdpReceiveBatch, DatagramError>)
        requires
            old(self).wf(),
        ensures
            final(self).wf(),
            match super::udp::spec_decode_datagram(data@) {
                Err(error) => result == Err::<UdpReceiveBatch, _>(error) && final(self)@ == old(
                    self,
                )@,
                Ok(packet) => {
                    &&& final(self)@ == old(self)@.spec_receive(now_us, packet).0
                    &&& match (result, old(self)@.spec_receive(now_us, packet).1) {
                        (Ok(batch), Ok(events)) => batch.source == source && batch.sequence == old(
                            self,
                        )@.sequence.spec_observe(packet.header.sequence).1
                            && super::receiver::event_views(batch.events@) == events,
                        (Err(DatagramError::Io(failure)), Err(refusal)) => {
                            failure.is_assembly_failure(refusal)
                        },
                        _ => false,
                    }
                },
            },
    {
        let packet = match decode_datagram(data) {
            Ok(packet) => packet,
            Err(error) => return Err(error),
        };
        proof {
            super::udp::law_decoded_index_fits(data@);
        }
        let observation = self.sequence.observe(packet.header.sequence);
        self.stats.datagrams_received = self.stats.datagrams_received.saturating_add(1);
        match observation {
            SequenceObservation::Gap { .. } => {
                self.stats.sequence_gaps_observed =
                self.stats.sequence_gaps_observed.saturating_add(1);
            },
            SequenceObservation::ReorderedOrDuplicate => {
                self.stats.reordered_or_duplicate =
                self.stats.reordered_or_duplicate.saturating_add(1);
            },
            SequenceObservation::First => {},
            SequenceObservation::InOrder => {},
        }
        let events = match self.window.push(now_us, &packet) {
            Ok(events) => events,
            Err(error) => return Err(DatagramError::Io(assembly_failure(error))),
        };
        let mut ready: u64 = 0;
        let mut i: usize = 0;
        let ghost views = super::receiver::event_views(events@);
        proof {
            assert(views.take(0) =~= Seq::<super::receiver::EventView>::empty());
        }
        while i < events.len()
            invariant
                i <= events@.len(),
                views == super::receiver::event_views(events@),
                ready <= i,
                ready == ready_count(views.take(i as int)),
            decreases events@.len() - i,
        {
            proof {
                assert(views.take(i + 1).drop_last() =~= views.take(i as int));
                assert(views.take(i + 1).last() == events@[i as int]@);
            }
            match &events[i] {
                ReceiverEvent::FrameReady(_) => {
                    ready += 1;
                },
                _ => {},
            }
            i += 1;
        }
        proof {
            assert(views.take(i as int) =~= views);
        }
        self.stats.frames_completed = self.stats.frames_completed.saturating_add(ready);
        Ok(UdpReceiveBatch { source, sequence: observation, events })
    }

    #[must_use]
    pub fn tick(&mut self, now_us: u64) -> (events: Vec<ReceiverEvent>)
        requires
            old(self).wf(),
        ensures
            final(self).wf(),
            final(self)@ == (FrameReceiverView {
                window: old(self)@.window.spec_expire(now_us).0,
                ..old(self)@
            }),
            super::receiver::event_views(events@) == old(self)@.window.spec_expire(now_us).1,
    {
        self.window.tick(now_us)
    }

    #[must_use]
    pub fn stats(&self) -> (stats: UdpReceiverStats)
        ensures
            stats == self@.stats,
    {
        self.stats
    }
}

/// A frame is sendable if and only if it is H.264, not empty and not too large.
pub proof fn law_sendable_frames(sender: SenderView, frame: SharedEncodedFrame)
    ensures
        sender.spec_sendable(frame) is Ok <==> frame.codec == Codec::H264 && 0 < frame.data@.len()
            && frame.data@.len() <= 1200 * 0xFFFF,
        frame.codec != Codec::H264 ==> sender.spec_sendable(frame) == Err::<(), _>(
            UdpSendError::UnsupportedCodec,
        ),
{
}

/// The packets of a frame carry its number, time and kind and the sender's stream, and go on from
/// the sender's next number.
pub proof fn law_frame_packets_follow_the_frame(
    sender: SenderView,
    frame: SharedEncodedFrame,
    i: int,
)
    requires
        sender.spec_sendable(frame) is Ok,
        0 <= i < sender.spec_frame_packets(frame).len(),
    ensures
        ({
            let packets = sender.spec_frame_packets(frame);
            let packet = packets[i];
            &&& 1200 * (packets.len() - 1) < frame.data@.len() <= 1200 * packets.len()
            &&& packet.header.protocol_major == 0 && packet.header.protocol_minor == 1
            &&& packet.header.stream_id == sender.config.stream_id
            &&& packet.header.frame_id == frame.meta.frame_id
            &&& packet.header.timestamp_us == frame.meta.timestamp_us
            &&& (packet.header.flags.spec_bits() & 0x01 == 0x01) == frame.meta.keyframe
            &&& packet.header.packet_index == i
            &&& packet.header.packet_count == packets.len()
            &&& packet.header.sequence == super::reliability::sequence_after(
                sender.next_sequence,
                i,
            )
        }),
{
    super::law_packets_carry_the_frame(frame.data@, sender.spec_meta(frame), i);
}

/// A frame that was sent whole is counted with its packets and bytes, and its numbers are used
/// up. One that was not counts for nothing, and its numbers are used again.
pub proof fn law_only_whole_frames_count(
    sender: SenderView,
    now_us: u64,
    packets: Seq<PacketView>,
    payload_bytes: usize,
    sent: int,
)
    requires
        0 <= sent <= packets.len(),
        packets.len() <= 0xFFFF,
    ensures
        ({
            let after = sender.spec_finish_frame(now_us, packets, payload_bytes, sent);
            let whole = sent == packets.len();
            &&& after.config == sender.config
            &&& !whole ==> after.stats == sender.stats && after.next_sequence
                == sender.next_sequence
            &&& whole ==> after.next_sequence == super::reliability::sequence_after(
                sender.next_sequence,
                packets.len() as int,
            )
            &&& whole && sender.stats.frames_sent < u64::MAX ==> after.stats.frames_sent
                == sender.stats.frames_sent + 1
            &&& whole && sender.stats.packets_sent + packets.len() <= u64::MAX
                ==> after.stats.packets_sent == sender.stats.packets_sent + packets.len()
            &&& whole && sender.stats.payload_bytes_sent + payload_bytes <= u64::MAX
                ==> after.stats.payload_bytes_sent == sender.stats.payload_bytes_sent
                + payload_bytes
            &&& after.stats.retransmit_packets_sent == sender.stats.retransmit_packets_sent
            &&& after.stats.retransmit_cache_misses == sender.stats.retransmit_cache_misses
            &&& after.retransmit == sender.retransmit.spec_insert_all(now_us, packets.take(sent))
        }),
{
}

/// Every packet that is asked for again counts once: as sent or as no longer there.
pub proof fn law_retransmissions_are_counted(
    sender: SenderView,
    packets: Seq<Option<PacketView>>,
    attempted: int,
)
    requires
        0 <= attempted <= packets.len(),
        sender.stats.retransmit_packets_sent + attempted <= u64::MAX,
        sender.stats.retransmit_cache_misses + attempted <= u64::MAX,
    ensures
        ({
            let after = sender.spec_finish_retransmit(packets, attempted);
            let there = packets.take(attempted).filter(|p: Option<PacketView>| p is Some).len();
            &&& after.stats.retransmit_packets_sent == sender.stats.retransmit_packets_sent + there
            &&& after.stats.retransmit_cache_misses == sender.stats.retransmit_cache_misses
                + attempted - there
            &&& after.stats.frames_sent == sender.stats.frames_sent
            &&& after.stats.packets_sent == sender.stats.packets_sent
            &&& after.stats.payload_bytes_sent == sender.stats.payload_bytes_sent
            &&& after.retransmit == sender.retransmit && after.next_sequence
                == sender.next_sequence && after.config == sender.config
        }),
{
    lemma_found_are_filtered(packets.take(attempted));
}

proof fn lemma_found_are_filtered(packets: Seq<Option<PacketView>>)
    ensures
        found_count(packets) == packets.filter(|p: Option<PacketView>| p is Some).len(),
        found_count(packets) <= packets.len(),
    decreases packets.len(),
{
    reveal(Seq::filter);
    if packets.len() > 0 {
        lemma_found_are_filtered(packets.drop_last());
    }
}

/// Every datagram is counted, gaps and packets from before as what they are, and frames as they
/// become whole; a packet that is refused completes none.
pub proof fn law_received_packets_are_counted(
    receiver: FrameReceiverView,
    now_us: u64,
    packet: PacketView,
)
    requires
        receiver.stats.datagrams_received < u64::MAX,
        receiver.stats.sequence_gaps_observed < u64::MAX,
        receiver.stats.reordered_or_duplicate < u64::MAX,
    ensures
        ({
            let seen = receiver.sequence.spec_observe(packet.header.sequence);
            let pushed = receiver.window.spec_push(now_us, packet);
            let after = receiver.spec_receive(now_us, packet).0;
            let result = receiver.spec_receive(now_us, packet).1;
            &&& after.window == pushed.0 && result == pushed.1
            &&& after.sequence == seen.0
            &&& after.stats.datagrams_received == receiver.stats.datagrams_received + 1
            &&& after.stats.sequence_gaps_observed - receiver.stats.sequence_gaps_observed == if (
            seen.1 is Gap) {
                1
            } else {
                0int
            }
            &&& after.stats.reordered_or_duplicate - receiver.stats.reordered_or_duplicate == if (
            seen.1 is ReorderedOrDuplicate) {
                1
            } else {
                0int
            }
            &&& result is Err ==> after.stats.frames_completed == receiver.stats.frames_completed
            &&& result matches Ok(events) ==> {
                let ready = events.filter(
                    |event: super::receiver::EventView| event is FrameReady,
                ).len();
                receiver.stats.frames_completed + ready <= u64::MAX ==> after.stats.frames_completed
                    == receiver.stats.frames_completed + ready
            }
        }),
{
    if receiver.window.spec_push(now_us, packet).1 is Ok {
        lemma_ready_are_filtered(receiver.window.spec_push(now_us, packet).1->Ok_0);
    }
}

proof fn lemma_ready_are_filtered(events: Seq<super::receiver::EventView>)
    ensures
        ready_count(events) == events.filter(
            |event: super::receiver::EventView| event is FrameReady,
        ).len(),
    decreases events.len(),
{
    reveal(Seq::filter);
    if events.len() > 0 {
        lemma_ready_are_filtered(events.drop_last());
    }
}

} // verus!
