//! The receiver's bounded window of frames under reassembly, with recovery of lost packets.

use super::{AssembleError, AssembledFrame, AssemblerView, FrameAssembler, FrameView, MediaPacket, PacketView};
use crate::ordered::OrderedMap;
use vstd::prelude::*;

verus! {

/// How many frames may be under reassembly, and how long.
#[derive(Debug, Clone, Copy, PartialEq, Eq, Structural)]
pub struct ReceiverPolicy {
    pub max_inflight_frames: usize,
    pub nack_after_us: u64,
    pub drop_after_us: u64,
}

impl Default for ReceiverPolicy {
    fn default() -> (policy: Self)
        ensures
            policy.max_inflight_frames == 3,
            policy.nack_after_us == 20_000,
            policy.drop_after_us == 80_000,
    {
        ReceiverPolicy { max_inflight_frames: 3, nack_after_us: 20_000, drop_after_us: 80_000 }
    }
}

impl ReceiverPolicy {
    /// At least one frame is allowed, and packets are asked for before the frame is given up.
    pub open spec fn is_valid(self) -> bool {
        self.max_inflight_frames > 0 && self.nack_after_us < self.drop_after_us
    }
}

/// What the receiver has to tell.
#[derive(Debug, Clone, PartialEq, Eq)]
pub enum ReceiverEvent {
    FrameReady(AssembledFrame),
    NeedNack { stream_id: u32, frame_id: u64, missing_packet_indices: Vec<u16> },
    NeedKeyframe { stream_id: u32, after_frame_id: u64 },
    DroppedStaleFrame { stream_id: u32, frame_id: u64 },
}

/// A receiver event with its contents as sequences.
pub enum EventView {
    FrameReady(FrameView),
    NeedNack { stream_id: u32, frame_id: u64, missing: Seq<u16> },
    NeedKeyframe { stream_id: u32, after_frame_id: u64 },
    DroppedStaleFrame { stream_id: u32, frame_id: u64 },
}

impl View for ReceiverEvent {
    type V = EventView;

    open spec fn view(&self) -> EventView {
        match *self {
            ReceiverEvent::FrameReady(frame) => EventView::FrameReady(frame@),
            ReceiverEvent::NeedNack { stream_id, frame_id, missing_packet_indices } =>
                EventView::NeedNack { stream_id, frame_id, missing: missing_packet_indices@ },
            ReceiverEvent::NeedKeyframe { stream_id, after_frame_id } => EventView::NeedKeyframe {
                stream_id,
                after_frame_id,
            },
            ReceiverEvent::DroppedStaleFrame { stream_id, frame_id } =>
                EventView::DroppedStaleFrame { stream_id, frame_id },
        }
    }
}

/// The events as values, in order.
pub open spec fn event_views(events: Seq<ReceiverEvent>) -> Seq<EventView> {
    Seq::new(events.len(), |i: int| events[i]@)
}

/// A frame under reassembly and when it was last asked about.
#[derive(Debug)]
struct InflightFrame {
    first_seen_us: u64,
    last_nack_us: Option<u64>,
    assembler: FrameAssembler,
}

/// A frame under reassembly, with its identifier.
pub struct InflightView {
    pub frame_id: u64,
    pub first_seen_us: u64,
    pub last_nack_us: Option<u64>,
    pub assembler: AssemblerView,
}

impl InflightView {
    /// The frame has been under reassembly too long.
    pub open spec fn is_stale(self, policy: ReceiverPolicy, now_us: u64) -> bool {
        crate::counting::elapsed(now_us, self.first_seen_us) >= policy.drop_after_us
    }

    /// It is time to ask for the packets that are missing.
    pub open spec fn needs_nack(self, policy: ReceiverPolicy, now_us: u64) -> bool {
        &&& !self.is_stale(policy, now_us)
        &&& crate::counting::elapsed(now_us, self.first_seen_us) >= policy.nack_after_us
        &&& (self.last_nack_us matches Some(last) ==> crate::counting::elapsed(now_us, last) >= policy.nack_after_us)
        &&& super::missing_of(self.assembler.slots).len() > 0
    }

    /// The frame after it was asked about.
    pub open spec fn asked(self, policy: ReceiverPolicy, now_us: u64) -> Self {
        if self.needs_nack(policy, now_us) {
            InflightView { last_nack_us: Some(now_us), ..self }
        } else {
            self
        }
    }

    pub open spec fn nack(self) -> EventView {
        EventView::NeedNack {
            stream_id: self.assembler.stream_id,
            frame_id: self.frame_id,
            missing: super::missing_of(self.assembler.slots),
        }
    }

    pub open spec fn dropped(self) -> EventView {
        EventView::DroppedStaleFrame {
            stream_id: self.assembler.stream_id,
            frame_id: self.frame_id,
        }
    }
}

/// The requests for missing packets that are due, in the order of the frames.
pub open spec fn due_nacks(
    inflight: Seq<InflightView>,
    policy: ReceiverPolicy,
    now_us: u64,
) -> Seq<EventView>
    decreases inflight.len(),
{
    if inflight.len() == 0 {
        Seq::empty()
    } else {
        let front = due_nacks(inflight.drop_last(), policy, now_us);
        if inflight.last().needs_nack(policy, now_us) {
            front.push(inflight.last().nack())
        } else {
            front
        }
    }
}

/// The frames that are too old, in order.
pub open spec fn stale_frames(
    inflight: Seq<InflightView>,
    policy: ReceiverPolicy,
    now_us: u64,
) -> Seq<InflightView>
    decreases inflight.len(),
{
    if inflight.len() == 0 {
        Seq::empty()
    } else {
        let front = stale_frames(inflight.drop_last(), policy, now_us);
        if inflight.last().is_stale(policy, now_us) {
            front.push(inflight.last())
        } else {
            front
        }
    }
}

/// The frames that stay, with the time at which they were asked about.
pub open spec fn kept_frames(
    inflight: Seq<InflightView>,
    policy: ReceiverPolicy,
    now_us: u64,
) -> Seq<InflightView>
    decreases inflight.len(),
{
    if inflight.len() == 0 {
        Seq::empty()
    } else {
        let front = kept_frames(inflight.drop_last(), policy, now_us);
        if inflight.last().is_stale(policy, now_us) {
            front
        } else {
            front.push(inflight.last().asked(policy, now_us))
        }
    }
}

/// The reports of the given frames as dropped, in order.
pub open spec fn dropped_events(frames: Seq<InflightView>) -> Seq<EventView> {
    Seq::new(frames.len(), |i: int| frames[i].dropped())
}

/// A keyframe is asked for once, behind the newest frame that was dropped for its age.
pub open spec fn keyframe_requests(stale: Seq<InflightView>) -> Seq<EventView> {
    if stale.len() == 0 {
        Seq::empty()
    } else {
        seq![
            EventView::NeedKeyframe {
                stream_id: stale.last().assembler.stream_id,
                after_frame_id: stale.last().frame_id,
            },
        ]
    }
}

/// The receiver's state: the frames under reassembly in ascending order of their
/// identifiers, the newest frame that was delivered and the number of dropped frames.
pub struct WindowView {
    pub policy: ReceiverPolicy,
    pub inflight: Seq<InflightView>,
    pub latest_complete_frame: Option<u64>,
    pub dropped_frames: u64,
}

/// The position of a frame among frames in ascending order: how many are older.
pub open spec fn older_count(inflight: Seq<InflightView>, frame_id: u64) -> nat
    decreases inflight.len(),
{
    if inflight.len() == 0 {
        0
    } else if inflight.last().frame_id < frame_id {
        inflight.len()
    } else {
        older_count(inflight.drop_last(), frame_id)
    }
}

/// Whether a frame is under reassembly.
pub open spec fn has_frame(inflight: Seq<InflightView>, frame_id: u64) -> bool {
    exists|i: int| 0 <= i < inflight.len() && (#[trigger] inflight[i]).frame_id == frame_id
}

/// The frames that are newer than `frame_id`.
pub open spec fn newer_frames(inflight: Seq<InflightView>, frame_id: u64) -> Seq<InflightView>
    decreases inflight.len(),
{
    if inflight.len() == 0 {
        Seq::empty()
    } else if inflight.last().frame_id > frame_id {
        newer_frames(inflight.drop_last(), frame_id).push(inflight.last())
    } else {
        newer_frames(inflight.drop_last(), frame_id)
    }
}

impl WindowView {
    /// The state after stale frames were dropped, and what is to be told about it.
    pub open spec fn spec_expire(self, now_us: u64) -> (Self, Seq<EventView>) {
        let stale = stale_frames(self.inflight, self.policy, now_us);
        (
            WindowView {
                inflight: kept_frames(self.inflight, self.policy, now_us),
                dropped_frames: crate::counting::saturating_sum(self.dropped_frames, stale.len() as int),
                ..self
            },
            due_nacks(self.inflight, self.policy, now_us) + dropped_events(stale)
                + keyframe_requests(stale),
        )
    }

    /// The number of oldest frames that have to go before one more fits.
    pub open spec fn spec_overflow(self) -> int {
        if self.inflight.len() >= self.policy.max_inflight_frames {
            self.inflight.len() - self.policy.max_inflight_frames + 1
        } else {
            0
        }
    }

    /// The state with room for one more frame, and what was dropped for it.
    pub open spec fn spec_make_room(self) -> (Self, Seq<EventView>) {
        let over = self.spec_overflow();
        (
            WindowView {
                inflight: self.inflight.skip(over),
                dropped_frames: crate::counting::saturating_sum(self.dropped_frames, over),
                ..self
            },
            dropped_events(self.inflight.take(over)),
        )
    }

    /// The state with a new frame at its place.
    pub open spec fn spec_start(self, now_us: u64, packet: PacketView) -> Self {
        let at = older_count(self.inflight, packet.header.frame_id) as int;
        WindowView {
            inflight: self.inflight.insert(
                at,
                InflightView {
                    frame_id: packet.header.frame_id,
                    first_seen_us: now_us,
                    last_nack_us: None,
                    assembler: AssemblerView::spec_from_first(packet),
                },
            ),
            ..self
        }
    }

    /// The state in which the packet's frame is under reassembly, and what was dropped for it.
    pub open spec fn spec_take_up(self, now_us: u64, packet: PacketView) -> (Self, Seq<EventView>) {
        if has_frame(self.inflight, packet.header.frame_id) {
            (self, Seq::empty())
        } else {
            let room = self.spec_make_room();
            (room.0.spec_start(now_us, packet), room.1)
        }
    }

    /// The packet is of a frame that was delivered or overtaken.
    pub open spec fn spec_is_late(self, frame_id: u64) -> bool {
        self.latest_complete_frame matches Some(latest) && frame_id <= latest
    }

    /// The state after the packet joined its frame, and the frame if it is whole.
    pub open spec fn spec_join(self, packet: PacketView) -> (Self, Result<
        Seq<EventView>,
        AssembleError,
    >) {
        let frame_id = packet.header.frame_id;
        let at = older_count(self.inflight, frame_id) as int;
        let frame = self.inflight[at];
        match frame.assembler.spec_push(packet) {
            Err(error) => (self, Err(error)),
            Ok(assembler) => match assembler.spec_finish() {
                None => (
                    WindowView {
                        inflight: self.inflight.update(at, InflightView { assembler, ..frame }),
                        ..self
                    },
                    Ok(Seq::empty()),
                ),
                Some(whole) => (
                    WindowView {
                        inflight: newer_frames(self.inflight, frame_id),
                        latest_complete_frame: Some(frame_id),
                        ..self
                    },
                    Ok(seq![EventView::FrameReady(whole)]),
                ),
            },
        }
    }

    /// The state after a packet, and what is to be told: first what time has brought about,
    /// then what was dropped to make room, then the frame if it is whole. Of a packet that
    /// its frame refuses, only the error is told.
    pub open spec fn spec_push(self, now_us: u64, packet: PacketView) -> (Self, Result<
        Seq<EventView>,
        AssembleError,
    >) {
        let expired = self.spec_expire(now_us);
        if expired.0.spec_is_late(packet.header.frame_id) {
            (expired.0, Ok(expired.1))
        } else {
            let taken_up = expired.0.spec_take_up(now_us, packet);
            let joined = taken_up.0.spec_join(packet);
            match joined.1 {
                Err(error) => (joined.0, Err(error)),
                Ok(ready) => (joined.0, Ok(expired.1 + taken_up.1 + ready)),
            }
        }
    }

    /// The frames ascend, stand for themselves, and are not more than allowed.
    pub open spec fn wf(self) -> bool {
        &&& self.policy.is_valid()
        &&& forall|i: int, j: int|
            #![trigger self.inflight[i], self.inflight[j]]
            0 <= i < j < self.inflight.len() ==> self.inflight[i].frame_id
                < self.inflight[j].frame_id
        &&& forall|i: int|
            0 <= i < self.inflight.len() ==> (#[trigger] self.inflight[i]).assembler.frame_id
                == self.inflight[i].frame_id
        &&& self.inflight.len() <= self.policy.max_inflight_frames
    }

    /// The packet's index is one that its frame has, wherever the frame would take it.
    pub open spec fn spec_index_fits(self, now_us: u64, packet: PacketView) -> bool {
        let expired = self.spec_expire(now_us).0;
        let taken_up = expired.spec_take_up(now_us, packet).0;
        let at = older_count(taken_up.inflight, packet.header.frame_id) as int;
        !expired.spec_is_late(packet.header.frame_id)
            && taken_up.inflight[at].assembler.spec_belongs(packet) is Ok
            ==> packet.header.packet_index < packet.header.packet_count
    }
}

/// The receiver's bounded window of frames under reassembly.
#[derive(Debug)]
pub struct ReceiverWindow {
    policy: ReceiverPolicy,
    inflight: OrderedMap<u64, InflightFrame>,
    latest_complete_frame: Option<u64>,
    dropped_frames: u64,
}

/// A frame under reassembly as a value.
spec fn inflight_view(entry: (u64, InflightFrame)) -> InflightView {
    InflightView {
        frame_id: entry.0,
        first_seen_us: entry.1.first_seen_us,
        last_nack_us: entry.1.last_nack_us,
        assembler: entry.1.assembler@,
    }
}

spec fn inflight_views(entries: Seq<(u64, InflightFrame)>) -> Seq<InflightView> {
    Seq::new(entries.len(), |i: int| inflight_view(entries[i]))
}

impl View for ReceiverWindow {
    type V = WindowView;

    closed spec fn view(&self) -> WindowView {
        WindowView {
            policy: self.policy,
            inflight: inflight_views(self.inflight.spec_entries()),
            latest_complete_frame: self.latest_complete_frame,
            dropped_frames: self.dropped_frames,
        }
    }
}

/// The first frames of an ascending sequence that are older than a frame are counted.
proof fn lemma_older_count(inflight: Seq<InflightView>, frame_id: u64, at: int)
    requires
        0 <= at <= inflight.len(),
        forall|i: int| 0 <= i < at ==> (#[trigger] inflight[i]).frame_id < frame_id,
        forall|i: int| at <= i < inflight.len() ==> (#[trigger] inflight[i]).frame_id >= frame_id,
    ensures
        older_count(inflight, frame_id) == at,
    decreases inflight.len(),
{
    if inflight.len() > 0 {
        if at < inflight.len() {
            lemma_older_count(inflight.drop_last(), frame_id, at);
        } else {
            assert(inflight[inflight.len() - 1].frame_id < frame_id);
        }
    }
}

/// What follows a frame in an ascending sequence is newer.
proof fn lemma_newer_frames(inflight: Seq<InflightView>, frame_id: u64, at: int)
    requires
        0 <= at <= inflight.len(),
        forall|i: int| 0 <= i < at ==> (#[trigger] inflight[i]).frame_id <= frame_id,
        forall|i: int| at <= i < inflight.len() ==> (#[trigger] inflight[i]).frame_id > frame_id,
    ensures
        newer_frames(inflight, frame_id) == inflight.skip(at),
    decreases inflight.len(),
{
    if inflight.len() > 0 {
        if at < inflight.len() {
            lemma_newer_frames(inflight.drop_last(), frame_id, at);
            assert(inflight[inflight.len() - 1].frame_id > frame_id);
            assert(inflight.drop_last().skip(at).push(inflight.last()) =~= inflight.skip(at));
        } else {
            assert(inflight[inflight.len() - 1].frame_id <= frame_id);
            lemma_newer_frames(inflight.drop_last(), frame_id, at - 1);
            assert(inflight.drop_last().skip(at - 1) =~= Seq::<InflightView>::empty());
        }
    }
    assert(newer_frames(inflight, frame_id) =~= inflight.skip(at));
}

/// One frame more is looked at in each of the three passes.
proof fn lemma_passes_step(
    inflight: Seq<InflightView>,
    i: int,
    policy: ReceiverPolicy,
    now_us: u64,
)
    requires
        0 <= i < inflight.len(),
    ensures
        inflight.take(i + 1).drop_last() == inflight.take(i),
        inflight.take(i + 1).last() == inflight[i],
        kept_frames(inflight.take(i + 1), policy, now_us) == if inflight[i].is_stale(
            policy,
            now_us,
        ) {
            kept_frames(inflight.take(i), policy, now_us)
        } else {
            kept_frames(inflight.take(i), policy, now_us).push(inflight[i].asked(policy, now_us))
        },
        stale_frames(inflight.take(i + 1), policy, now_us) == if inflight[i].is_stale(
            policy,
            now_us,
        ) {
            stale_frames(inflight.take(i), policy, now_us).push(inflight[i])
        } else {
            stale_frames(inflight.take(i), policy, now_us)
        },
        due_nacks(inflight.take(i + 1), policy, now_us) == if inflight[i].needs_nack(
            policy,
            now_us,
        ) {
            due_nacks(inflight.take(i), policy, now_us).push(inflight[i].nack())
        } else {
            due_nacks(inflight.take(i), policy, now_us)
        },
{
    assert(inflight.take(i + 1).drop_last() =~= inflight.take(i));
}

/// Frames that were kept are frames that were there, in order.
proof fn lemma_kept_bounds(inflight: Seq<InflightView>, policy: ReceiverPolicy, now_us: u64)
    requires
        forall|i: int, j: int|
            #![trigger inflight[i], inflight[j]]
            0 <= i < j < inflight.len() ==> inflight[i].frame_id < inflight[j].frame_id,
        forall|i: int|
            0 <= i < inflight.len() ==> (#[trigger] inflight[i]).assembler.frame_id
                == inflight[i].frame_id,
    ensures
        ({
            let kept = kept_frames(inflight, policy, now_us);
            &&& kept.len() + stale_frames(inflight, policy, now_us).len() == inflight.len()
            &&& forall|i: int, j: int|
                #![trigger kept[i], kept[j]]
                0 <= i < j < kept.len() ==> kept[i].frame_id < kept[j].frame_id
            &&& forall|i: int|
                0 <= i < kept.len() ==> (#[trigger] kept[i]).assembler.frame_id == kept[i].frame_id
            &&& forall|i: int|
                0 <= i < kept.len() ==> (#[trigger] kept[i]).frame_id <= inflight.last().frame_id
            &&& forall|i: int|
                0 <= i < kept.len() ==> !(#[trigger] kept[i]).is_stale(policy, now_us)
        }),
    decreases inflight.len(),
{
    if inflight.len() > 0 {
        let front = inflight.drop_last();
        lemma_kept_bounds(front, policy, now_us);
        let kept = kept_frames(inflight, policy, now_us);
        let before = kept_frames(front, policy, now_us);
        assert forall|i: int| 0 <= i < before.len() implies (#[trigger] before[i]).frame_id
            < inflight.last().frame_id by {
            assert(front.len() > 0);
            assert(inflight[front.len() - 1].frame_id < inflight[inflight.len() - 1].frame_id);
        }
        assert forall|i: int, j: int|
            #![trigger kept[i], kept[j]]
            0 <= i < j < kept.len() implies kept[i].frame_id < kept[j].frame_id by {
            assert(before[i] == kept[i]);
            if j < before.len() {
                assert(before[j] == kept[j]);
            }
        }
        assert forall|i: int| 0 <= i < kept.len() implies (
        #[trigger] kept[i]).assembler.frame_id == kept[i].frame_id && kept[i].frame_id
            <= inflight.last().frame_id && !kept[i].is_stale(policy, now_us) by {
            if i < before.len() {
                assert(before[i] == kept[i]);
            } else {
                assert(inflight[inflight.len() - 1].assembler.frame_id
                    == inflight[inflight.len() - 1].frame_id);
            }
        }
    }
}

/// Taking an entry out, replacing one and adding one do the same to what they stand for.
proof fn lemma_views_change(entries: Seq<(u64, InflightFrame)>, at: int, entry: (u64, InflightFrame))
    requires
        0 <= at <= entries.len(),
    ensures
        at < entries.len() ==> inflight_views(entries.remove(at)) == inflight_views(entries).remove(
            at,
        ),
        at < entries.len() ==> inflight_views(entries.update(at, entry)) == inflight_views(
            entries,
        ).update(at, inflight_view(entry)),
        inflight_views(entries.insert(at, entry)) == inflight_views(entries).insert(
            at,
            inflight_view(entry),
        ),
{
    if at < entries.len() {
        assert(inflight_views(entries.remove(at)) =~= inflight_views(entries).remove(at));
        assert(inflight_views(entries.update(at, entry)) =~= inflight_views(entries).update(
            at,
            inflight_view(entry),
        ));
    }
    assert(inflight_views(entries.insert(at, entry)) =~= inflight_views(entries).insert(
        at,
        inflight_view(entry),
    ));
}

/// The frame at the border between what was seen and what was not is dropped or replaced.
proof fn lemma_border(kept: Seq<InflightView>, rest: Seq<InflightView>, new: InflightView)
    requires
        rest.len() > 0,
    ensures
        (kept + rest)[kept.len() as int] == rest[0],
        (kept + rest).remove(kept.len() as int) == kept + rest.skip(1),
        (kept + rest).update(kept.len() as int, new) == kept.push(new) + rest.skip(1),
{
    assert((kept + rest).remove(kept.len() as int) =~= kept + rest.skip(1));
    assert((kept + rest).update(kept.len() as int, new) =~= kept.push(new) + rest.skip(1));
}

impl ReceiverWindow {
    /// The frames ascend and are sound, and the policy is valid.
    pub closed spec fn wf(self) -> bool {
        &&& self@.wf()
        &&& self.inflight.wf()
        &&& forall|i: int|
            0 <= i < self.inflight.spec_entries().len() ==> (
            #[trigger] self.inflight.spec_entries()[i]).1.assembler.wf()
    }

    /// The state is as the laws need it.
    pub proof fn lemma_wf(self)
        requires
            self.wf(),
        ensures
            self@.wf(),
    {
    }

    /// An empty window.
    #[must_use]
    pub fn new(policy: ReceiverPolicy) -> (window: Self)
        requires
            policy.is_valid(),
        ensures
            window.wf(),
            window@ == (WindowView {
                policy,
                inflight: Seq::empty(),
                latest_complete_frame: None,
                dropped_frames: 0,
            }),
    {
        let window = ReceiverWindow {
            policy,
            inflight: OrderedMap::new(),
            latest_complete_frame: None,
            dropped_frames: 0,
        };
        proof {
            assert(window@.inflight =~= Seq::<InflightView>::empty());
        }
        window
    }

    /// Lets time pass.
    pub fn tick(&mut self, now_us: u64) -> (events: Vec<ReceiverEvent>)
        requires
            old(self).wf(),
        ensures
            final(self).wf(),
            final(self)@.wf(),
            final(self)@ == old(self)@.spec_expire(now_us).0,
            event_views(events@) == old(self)@.spec_expire(now_us).1,
    {
        self.expire(now_us)
    }

    /// Asks for missing packets where it is time, and drops frames that are too old.
    #[verifier::rlimit(40)]
    fn expire(&mut self, now_us: u64) -> (events: Vec<ReceiverEvent>)
        requires
            old(self).wf(),
        ensures
            final(self).wf(),
            final(self)@ == old(self)@.spec_expire(now_us).0,
            event_views(events@) == old(self)@.spec_expire(now_us).1,
    {
        let mut events: Vec<ReceiverEvent> = Vec::new();
        let mut dropped: Vec<ReceiverEvent> = Vec::new();
        let mut request_keyframe: Option<(u32, u64)> = None;
        let policy = self.policy;
        let ghost before = self@.inflight;
        let ghost mut seen: int = 0;
        let mut i: usize = 0;
        while i < self.inflight.len()
            invariant
                self.inflight.wf(),
                self.policy == policy,
                policy == old(self)@.policy,
                self.latest_complete_frame == old(self)@.latest_complete_frame,
                before == old(self)@.inflight,
                0 <= seen <= before.len(),
                i <= self.inflight.spec_entries().len(),
                i == kept_frames(before.take(seen), policy, now_us).len(),
                self@.inflight == kept_frames(before.take(seen), policy, now_us) + before.skip(
                    seen,
                ),
                forall|j: int|
                    0 <= j < self.inflight.spec_entries().len() ==> (
                    #[trigger] self.inflight.spec_entries()[j]).1.assembler.wf(),
                event_views(events@) == due_nacks(before.take(seen), policy, now_us),
                event_views(dropped@) == dropped_events(
                    stale_frames(before.take(seen), policy, now_us),
                ),
                self.dropped_frames == crate::counting::saturating_sum(
                    old(self)@.dropped_frames,
                    stale_frames(before.take(seen), policy, now_us).len() as int,
                ),
                match request_keyframe {
                    Some((stream_id, frame_id)) => stale_frames(
                        before.take(seen),
                        policy,
                        now_us,
                    ).len() > 0 && stale_frames(
                        before.take(seen),
                        policy,
                        now_us,
                    ).last().assembler.stream_id == stream_id && stale_frames(
                        before.take(seen),
                        policy,
                        now_us,
                    ).last().frame_id == frame_id,
                    None => stale_frames(before.take(seen), policy, now_us).len() == 0,
                },
            decreases before.len() - seen,
        {
            let ghost entries = self.inflight.spec_entries();
            let ghost current = before[seen];
            proof {
                lemma_passes_step(before, seen, policy, now_us);
                lemma_border(
                    kept_frames(before.take(seen), policy, now_us),
                    before.skip(seen),
                    current.asked(policy, now_us),
                );
                assert(before.skip(seen).skip(1) =~= before.skip(seen + 1));
                assert(self@.inflight[i as int] == current);
                assert(inflight_view(entries[i as int]) == current);
                assert(entries[i as int].1.assembler.wf());
            }
            let frame_id: u64 = self.inflight.key_at(i);
            let frame = self.inflight.value_at(i);
            let age: u64 = now_us.saturating_sub(frame.first_seen_us);
            let stream_id: u32 = frame.assembler.stream_id_for_receiver();
            if age >= policy.drop_after_us {
                let _removed = self.inflight.remove_at(i);
                if self.dropped_frames < u64::MAX {
                    self.dropped_frames = self.dropped_frames + 1;
                }
                let ghost dropped_before = dropped@;
                dropped.push(ReceiverEvent::DroppedStaleFrame { stream_id, frame_id });
                request_keyframe = Some((stream_id, frame_id));
                proof {
                    assert(event_views(dropped@) =~= event_views(dropped_before).push(
                        current.dropped(),
                    ));
                    assert(event_views(dropped@) =~= dropped_events(
                        stale_frames(before.take(seen + 1), policy, now_us),
                    ));
                    lemma_views_change(entries, i as int, entries[i as int]);
                    assert(self@.inflight == kept_frames(before.take(seen + 1), policy, now_us)
                        + before.skip(seen + 1));
                    assert forall|j: int| 0 <= j < self.inflight.spec_entries().len() implies (
                    #[trigger] self.inflight.spec_entries()[j]).1.assembler.wf() by {
                        let k = if j < i {
                            j
                        } else {
                            j + 1
                        };
                        assert(entries[k].1.assembler.wf());
                    }
                    seen = seen + 1;
                }
                continue;
            }
            let due = age >= policy.nack_after_us && match frame.last_nack_us {
                Some(last) => now_us.saturating_sub(last) >= policy.nack_after_us,
                None => true,
            };
            if due {
                let missing = frame.assembler.missing_packet_indices();
                if !missing.is_empty() {
                    let ghost events_before = events@;
                    let entry = self.inflight.value_at_mut(i);
                    entry.last_nack_us = Some(now_us);
                    events.push(
                        ReceiverEvent::NeedNack {
                            stream_id,
                            frame_id,
                            missing_packet_indices: missing,
                        },
                    );
                    proof {
                        assert(event_views(events@) =~= event_views(events_before).push(
                            current.nack(),
                        ));
                    }
                }
            }
            proof {
                assert(inflight_view(self.inflight.spec_entries()[i as int]) == current.asked(
                    policy,
                    now_us,
                ));
                lemma_views_change(entries, i as int, self.inflight.spec_entries()[i as int]);
                assert(self.inflight.spec_entries() =~= entries.update(
                    i as int,
                    self.inflight.spec_entries()[i as int],
                ));
                assert(self@.inflight == kept_frames(before.take(seen + 1), policy, now_us)
                    + before.skip(seen + 1));
                assert forall|j: int| 0 <= j < self.inflight.spec_entries().len() implies (
                #[trigger] self.inflight.spec_entries()[j]).1.assembler.wf() by {
                    assert(entries[j].1.assembler.wf());
                }
                seen = seen + 1;
            }
            i += 1;
        }
        proof {
            assert(before.skip(seen).len() == 0);
            assert(before.take(seen) =~= before);
            assert(self@.inflight =~= kept_frames(before, policy, now_us));
            lemma_kept_bounds(before, policy, now_us);
        }
        let ghost nacks = events@;
        let ghost drops = dropped@;
        events.append(&mut dropped);
        proof {
            assert(event_views(events@) =~= event_views(nacks) + event_views(drops));
        }
        let ghost told = events@;
        match request_keyframe {
            Some((stream_id, frame_id)) => {
                events.push(
                    ReceiverEvent::NeedKeyframe { stream_id, after_frame_id: frame_id },
                );
                proof {
                    assert(event_views(events@) =~= event_views(told).push(events@.last()@));
                }
            },
            None => {},
        }
        proof {
            assert(event_views(events@) =~= old(self)@.spec_expire(now_us).1);
        }
        events
    }

    /// Makes sure that the packet's frame is under reassembly, and gives up the oldest
    /// frames where there is no room for it.
    #[verifier::rlimit(60)]
    fn take_up(&mut self, now_us: u64, packet: &MediaPacket) -> (events: Vec<ReceiverEvent>)
        requires
            old(self).wf(),
        ensures
            final(self).wf(),
            final(self)@ == old(self)@.spec_take_up(now_us, packet@).0,
            event_views(events@) == old(self)@.spec_take_up(now_us, packet@).1,
            has_frame(final(self)@.inflight, packet.header.frame_id),
    {
        let frame_id: u64 = packet.header.frame_id;
        let mut events: Vec<ReceiverEvent> = Vec::new();
        let ghost before = self@;
        proof {
            self.inflight.lemma_view();
            assert(self.inflight@.contains_key(frame_id) <==> has_frame(self@.inflight, frame_id))
                by {
                let entries = self.inflight.spec_entries();
                if self.inflight@.contains_key(frame_id) {
                    let i = choose|i: int|
                        0 <= i < entries.len() && (#[trigger] entries[i]).0 == frame_id;
                    assert(self@.inflight[i].frame_id == frame_id);
                }
                if has_frame(self@.inflight, frame_id) {
                    let i = choose|i: int|
                        0 <= i < self@.inflight.len() && (
                        #[trigger] self@.inflight[i]).frame_id == frame_id;
                    assert(entries[i].0 == frame_id);
                }
            }
        }
        if self.inflight.contains_key(&frame_id) {
            proof {
                assert(event_views(events@) =~= Seq::<EventView>::empty());
            }
            return events;
        }
        let ghost mut over: int = 0;
        proof {
            assert(before.inflight.skip(0) =~= before.inflight);
            assert(event_views(events@) =~= dropped_events(before.inflight.take(0)));
        }
        while self.inflight.len() >= self.policy.max_inflight_frames
            invariant
                self.inflight.wf(),
                before.wf(),
                self.policy == before.policy,
                self.latest_complete_frame == before.latest_complete_frame,
                0 <= over <= before.spec_overflow(),
                self@.inflight == before.inflight.skip(over),
                self.dropped_frames == crate::counting::saturating_sum(before.dropped_frames, over),
                event_views(events@) == dropped_events(before.inflight.take(over)),
                forall|j: int|
                    0 <= j < self.inflight.spec_entries().len() ==> (
                    #[trigger] self.inflight.spec_entries()[j]).1.assembler.wf(),
            decreases before.inflight.len() - over,
        {
            let ghost entries = self.inflight.spec_entries();
            let ghost told = events@;
            assert(self@.inflight[0] == inflight_view(entries[0]));
            let stream_id: u32 = self.inflight.value_at(0).assembler.stream_id_for_receiver();
            let oldest_id: u64 = self.inflight.remove_at(0).0;
            if self.dropped_frames < u64::MAX {
                self.dropped_frames = self.dropped_frames + 1;
            }
            events.push(ReceiverEvent::DroppedStaleFrame { stream_id, frame_id: oldest_id });
            proof {
                lemma_views_change(entries, 0, entries[0]);
                assert(before.inflight.skip(over).remove(0) =~= before.inflight.skip(over + 1));
                assert(before.inflight.take(over + 1) =~= before.inflight.take(over).push(
                    before.inflight[over],
                ));
                assert(event_views(events@) =~= event_views(told).push(events@.last()@));
                assert(event_views(events@) =~= dropped_events(before.inflight.take(over + 1)));
                assert forall|j: int| 0 <= j < self.inflight.spec_entries().len() implies (
                #[trigger] self.inflight.spec_entries()[j]).1.assembler.wf() by {
                    assert(entries[j + 1].1.assembler.wf());
                }
                over = over + 1;
            }
        }
        let ghost room = self@;
        let ghost entries = self.inflight.spec_entries();
        let frame = InflightFrame {
            first_seen_us: now_us,
            last_nack_us: None,
            assembler: FrameAssembler::from_first(packet),
        };
        proof {
            self.inflight.lemma_view();
            assert(!has_frame(room.inflight, frame_id)) by {
                if has_frame(room.inflight, frame_id) {
                    let i = choose|i: int|
                        0 <= i < room.inflight.len() && (#[trigger] room.inflight[i]).frame_id
                            == frame_id;
                    assert(before.inflight[i + over].frame_id == frame_id);
                }
            }
            if self.inflight@.contains_key(frame_id) {
                let i = choose|i: int|
                    0 <= i < entries.len() && (#[trigger] entries[i]).0 == frame_id;
                assert(room.inflight[i].frame_id == frame_id);
            }
        }
        let ghost entry = (frame_id, frame);
        let _previous = self.inflight.insert(frame_id, frame);
        proof {
            let at = crate::ordered::entries_below(entries, frame_id as int).len() as int;
            let after = self.inflight.spec_entries();
            self.inflight.lemma_view();
            assert(after[at] == entry);
            assert forall|i: int| 0 <= i < at implies (#[trigger] room.inflight[i]).frame_id
                < frame_id by {
                assert(after[i] == entries[i]);
            }
            assert forall|i: int| at <= i < room.inflight.len() implies (
            #[trigger] room.inflight[i]).frame_id >= frame_id by {
                assert(after[i + 1] == entries[i]);
            }
            lemma_older_count(room.inflight, frame_id, at);
            lemma_views_change(entries, at, entry);
            assert(self@.inflight == room.inflight.insert(at, inflight_view(entry)));
            assert(self@.inflight[at].frame_id == frame_id);
            assert forall|i: int, j: int|
                #![trigger self@.inflight[i], self@.inflight[j]]
                0 <= i < j < self@.inflight.len() implies self@.inflight[i].frame_id
                < self@.inflight[j].frame_id by {
                assert(after[i].0 < after[j].0);
            }
            assert forall|i: int| 0 <= i < self@.inflight.len() implies (
            #[trigger] self@.inflight[i]).assembler.frame_id == self@.inflight[i].frame_id by {
                if i != at {
                    let k = if i < at {
                        i
                    } else {
                        i - 1
                    };
                    assert(room.inflight[k] == self@.inflight[i]);
                    assert(before.inflight[k + over] == room.inflight[k]);
                }
            }
            assert forall|j: int| 0 <= j < after.len() implies (
            #[trigger] after[j]).1.assembler.wf() by {
                if j != at {
                    let k = if j < at {
                        j
                    } else {
                        j - 1
                    };
                    assert(entries[k] == after[j]);
                }
            }
        }
        events
    }

    /// Hands the packet to its frame, and takes the frame out if it is whole, together with
    /// the frames that are older.
    #[verifier::rlimit(60)]
    fn join(&mut self, packet: &MediaPacket) -> (result: Result<
        Option<AssembledFrame>,
        AssembleError,
    >)
        requires
            old(self).wf(),
            has_frame(old(self)@.inflight, packet.header.frame_id),
            old(self)@.inflight[older_count(
                old(self)@.inflight,
                packet.header.frame_id,
            ) as int].assembler.spec_belongs(packet@) is Ok ==> packet.header.packet_index
                < packet.header.packet_count,
        ensures
            final(self).wf(),
            final(self)@ == old(self)@.spec_join(packet@).0,
            match (result, old(self)@.spec_join(packet@).1) {
                (Ok(Some(frame)), Ok(events)) => events == seq![EventView::FrameReady(frame@)],
                (Ok(None), Ok(events)) => events == Seq::<EventView>::empty(),
                (Err(error), Err(expected)) => error == expected,
                _ => false,
            },
    {
        let frame_id: u64 = packet.header.frame_id;
        let ghost before = self@;
        let ghost entries = self.inflight.spec_entries();
        let found = self.inflight.index_of(&frame_id);
        proof {
            self.inflight.lemma_view();
            let i = choose|i: int|
                0 <= i < before.inflight.len() && (#[trigger] before.inflight[i]).frame_id
                    == frame_id;
            assert(entries[i].0 == frame_id);
        }
        let i: usize = match found {
            Some(i) => i,
            None => {
                assert(false);
                0
            },
        };
        proof {
            assert(before.inflight[i as int] == inflight_view(entries[i as int]));
            lemma_older_count(before.inflight, frame_id, i as int);
            assert(entries[i as int].1.assembler.wf());
        }
        let entry = self.inflight.value_at_mut(i);
        let outcome = entry.assembler.push(packet);
        let complete = entry.assembler.is_complete();
        let ghost after = self.inflight.spec_entries();
        proof {
            lemma_views_change(entries, i as int, after[i as int]);
            assert forall|j: int| 0 <= j < after.len() implies (
            #[trigger] after[j]).1.assembler.wf() by {
                assert(entries[j].1.assembler.wf());
            }
        }
        match outcome {
            Ok(()) => {},
            Err(error) => {
                proof {
                    assert(self@.inflight =~= before.inflight);
                }
                return Err(error);
            },
        }
        if !complete {
            return Ok(None);
        }
        let frame = self.inflight.remove_at(i).1.assembler.finish();
        self.latest_complete_frame = Some(frame_id);
        let ghost mut gone: int = 0;
        proof {
            lemma_views_change(after, i as int, after[i as int]);
            assert(self@.inflight.skip(0) =~= self@.inflight);
            assert forall|j: int| 0 <= j < self.inflight.spec_entries().len() implies (
            #[trigger] self.inflight.spec_entries()[j]).1.assembler.wf() by {
                let k = if j < i {
                    j
                } else {
                    j + 1
                };
                assert(after[k].1.assembler.wf());
            }
        }
        let ghost rest = self@.inflight;
        assert(rest =~= before.inflight.remove(i as int));
        while self.inflight.len() > 0 && self.inflight.key_at(0) <= frame_id
            invariant
                self.inflight.wf(),
                before.wf(),
                i < before.inflight.len(),
                before.inflight[i as int].frame_id == frame_id,
                rest == before.inflight.remove(i as int),
                self.policy == before.policy,
                self.latest_complete_frame == Some(frame_id),
                self.dropped_frames == before.dropped_frames,
                0 <= gone <= i,
                self@.inflight == rest.skip(gone),
                forall|j: int|
                    0 <= j < self.inflight.spec_entries().len() ==> (
                    #[trigger] self.inflight.spec_entries()[j]).1.assembler.wf(),
            ensures
                self@.inflight.len() > 0 ==> self@.inflight[0].frame_id > frame_id,
            decreases i - gone,
        {
            let ghost kept = self.inflight.spec_entries();
            proof {
                assert(self@.inflight[0] == inflight_view(kept[0]));
                assert(self@.inflight.len() == kept.len());
                assert(rest.len() == before.inflight.len() - 1);
                assert(rest.skip(gone)[0] == rest[gone]);
                assert(rest[gone] == self@.inflight[0]);
                if gone >= i {
                    assert(rest[gone] == before.inflight[gone + 1]);
                    assert(before.inflight[i as int].frame_id < before.inflight[gone + 1].frame_id);
                }
            }
            let _older = self.inflight.remove_at(0);
            proof {
                lemma_views_change(kept, 0, kept[0]);
                assert(rest.skip(gone).remove(0) =~= rest.skip(gone + 1));
                assert forall|j: int| 0 <= j < self.inflight.spec_entries().len() implies (
                #[trigger] self.inflight.spec_entries()[j]).1.assembler.wf() by {
                    assert(kept[j + 1].1.assembler.wf());
                }
                gone = gone + 1;
            }
        }
        proof {
            if gone < i {
                assert(self@.inflight[0] == before.inflight[gone]);
                assert(before.inflight[gone].frame_id < before.inflight[i as int].frame_id);
            }
            assert(self@.inflight =~= before.inflight.skip(i + 1));
            lemma_newer_frames(before.inflight, frame_id, i + 1);
        }
        Ok(frame)
    }

    /// Takes a packet. What it tells is, in this order, what time has brought about, what
    /// was dropped to make room, and the frame if it is whole.
    pub fn push(&mut self, now_us: u64, packet: &MediaPacket) -> (result: Result<
        Vec<ReceiverEvent>,
        AssembleError,
    >)
        requires
            old(self).wf(),
            old(self)@.spec_index_fits(now_us, packet@),
        ensures
            final(self).wf(),
            final(self)@.wf(),
            final(self)@ == old(self)@.spec_push(now_us, packet@).0,
            match (result, old(self)@.spec_push(now_us, packet@).1) {
                (Ok(events), Ok(expected)) => event_views(events@) == expected,
                (Err(error), Err(expected)) => error == expected,
                _ => false,
            },
    {
        let mut events = self.expire(now_us);
        let frame_id: u64 = packet.header.frame_id;
        let late = match self.latest_complete_frame {
            Some(latest) => frame_id <= latest,
            None => false,
        };
        if late {
            return Ok(events);
        }
        let mut dropped = self.take_up(now_us, packet);
        let ghost expired = events@;
        let ghost drops = dropped@;
        events.append(&mut dropped);
        assert(event_views(events@) =~= event_views(expired) + event_views(drops));
        match self.join(packet) {
            Ok(Some(frame)) => {
                let ghost told = events@;
                events.push(ReceiverEvent::FrameReady(frame));
                assert(event_views(events@) =~= event_views(told) + seq![
                    EventView::FrameReady(frame@),
                ]);
            },
            Ok(None) => {
                assert(event_views(events@) + Seq::<EventView>::empty() =~= event_views(events@));
            },
            Err(error) => return Err(error),
        }
        Ok(events)
    }

    /// The number of frames that were dropped.
    #[must_use]
    pub fn dropped_frames(&self) -> (dropped: u64)
        ensures
            dropped == self@.dropped_frames,
    {
        self.dropped_frames
    }
}

/// Packets are asked for only while their frame can still be waited for, never after it is
/// due to be dropped.
pub proof fn law_nack_precedes_drop(frame: InflightView, policy: ReceiverPolicy, now_us: u64)
    requires
        policy.is_valid(),
        frame.needs_nack(policy, now_us),
    ensures
        policy.nack_after_us <= crate::counting::elapsed(now_us, frame.first_seen_us) < policy.drop_after_us,
{
}

/// What a receiver is told: a packet that has come, or only the time.
pub enum WindowStep {
    Push { now_us: u64, packet: PacketView },
    Tick { now_us: u64 },
}

impl WindowView {
    /// The state after a step, and what is told of it. Of a packet that is refused nothing is.
    pub open spec fn spec_step(self, step: WindowStep) -> (Self, Seq<EventView>) {
        match step {
            WindowStep::Push { now_us, packet } => {
                let pushed = self.spec_push(now_us, packet);
                match pushed.1 {
                    Ok(events) => (pushed.0, events),
                    Err(_) => (pushed.0, Seq::empty()),
                }
            },
            WindowStep::Tick { now_us } => self.spec_expire(now_us),
        }
    }

    /// The state after any steps, and all that is told of them, in order.
    pub open spec fn spec_run(self, steps: Seq<WindowStep>) -> (Self, Seq<EventView>)
        decreases steps.len(),
    {
        if steps.len() == 0 {
            (self, Seq::empty())
        } else {
            let before = self.spec_run(steps.drop_last());
            let last = before.0.spec_step(steps.last());
            (last.0, before.1 + last.1)
        }
    }
}

/// Frames are delivered in ascending order of their identifiers, whatever packets come and
/// however time passes, so none is delivered twice. Each is newer than all that were delivered
/// before the first step, and none is newer than the newest that is known in the end.
pub proof fn law_frames_are_delivered_in_order(window: WindowView, steps: Seq<WindowStep>)
    ensures
        ({
            let after = window.spec_run(steps).0;
            let told = window.spec_run(steps).1;
            &&& forall|i: int, j: int|
                #![trigger told[i], told[j]]
                0 <= i < j < told.len() && told[i] is FrameReady && told[j] is FrameReady
                    ==> told[i]->FrameReady_0.frame_id < told[j]->FrameReady_0.frame_id
            &&& forall|i: int|
                0 <= i < told.len() && (#[trigger] told[i]) is FrameReady ==> {
                    &&& window.latest_complete_frame matches Some(latest) ==> latest
                        < told[i]->FrameReady_0.frame_id
                    &&& after.latest_complete_frame matches Some(latest)
                    &&& told[i]->FrameReady_0.frame_id <= latest
                }
            &&& window.latest_complete_frame matches Some(latest) ==> (
            after.latest_complete_frame matches Some(newest) && latest <= newest)
        }),
    decreases steps.len(),
{
    if steps.len() > 0 {
        law_frames_are_delivered_in_order(window, steps.drop_last());
        let before = window.spec_run(steps.drop_last());
        let last = before.0.spec_step(steps.last());
        let told = window.spec_run(steps).1;
        lemma_step_delivers_newer(before.0, steps.last());
        assert forall|i: int| 0 <= i < told.len() implies (#[trigger] told[i]) == if i
            < before.1.len() {
            before.1[i]
        } else {
            last.1[i - before.1.len()]
        } by {}
    }
}

/// A step delivers one frame at most, at its end, which is newer than all that were delivered
/// before and the newest then. Where it delivers none, the newest stays.
proof fn lemma_step_delivers_newer(window: WindowView, step: WindowStep)
    ensures
        ({
            let after = window.spec_step(step).0;
            let told = window.spec_step(step).1;
            &&& forall|i: int|
                0 <= i < told.len() && (#[trigger] told[i]) is FrameReady ==> {
                    &&& i == told.len() - 1
                    &&& window.latest_complete_frame matches Some(latest) ==> latest
                        < told[i]->FrameReady_0.frame_id
                    &&& after.latest_complete_frame == Some(told[i]->FrameReady_0.frame_id)
                }
            &&& after.latest_complete_frame != window.latest_complete_frame ==> told.len() > 0
                && told.last() is FrameReady
        }),
{
    let after = window.spec_step(step).0;
    let told = window.spec_step(step).1;
    match step {
        WindowStep::Push { now_us, packet } => {
            assert forall|i: int| 0 <= i < told.len() && (#[trigger] told[i]) is FrameReady implies {
                &&& i == told.len() - 1
                &&& window.latest_complete_frame matches Some(latest) ==> latest
                    < told[i]->FrameReady_0.frame_id
                &&& after.latest_complete_frame == Some(told[i]->FrameReady_0.frame_id)
            } by {
                lemma_push_delivers_newer(window, now_us, packet, told, i);
            }
        },
        WindowStep::Tick { now_us } => {
            lemma_no_frame_in_nacks(window.inflight, window.policy, now_us);
            let nacks = due_nacks(window.inflight, window.policy, now_us);
            assert forall|j: int| 0 <= j < told.len() implies (#[trigger] told[j]) !is FrameReady by {
                if j < nacks.len() {
                    assert(nacks[j] !is FrameReady);
                }
            }
        },
    }
}

/// A frame that a packet completes is told of last, and is newer than all before it.
proof fn lemma_push_delivers_newer(
    window: WindowView,
    now_us: u64,
    packet: PacketView,
    events: Seq<EventView>,
    i: int,
)
    requires
        window.spec_push(now_us, packet).1 == Ok::<_, AssembleError>(events),
        0 <= i < events.len(),
        events[i] is FrameReady,
    ensures
        i == events.len() - 1,
        events[i]->FrameReady_0.frame_id == packet.header.frame_id,
        window.latest_complete_frame matches Some(latest) ==> latest < packet.header.frame_id,
        window.spec_push(now_us, packet).0.latest_complete_frame == Some(packet.header.frame_id),
{
    let expired = window.spec_expire(now_us);
    lemma_no_frame_in_nacks(window.inflight, window.policy, now_us);
    let taken_up = expired.0.spec_take_up(now_us, packet);
    let joined = taken_up.0.spec_join(packet);
    assert forall|j: int| 0 <= j < expired.1.len() implies (#[trigger] expired.1[j]) !is FrameReady by {
        let nacks = due_nacks(window.inflight, window.policy, now_us);
        if j < nacks.len() {
            assert(nacks[j] !is FrameReady);
        }
    }
    if !expired.0.spec_is_late(packet.header.frame_id) {
        assert(joined.1 is Ok);
        let ready = joined.1->Ok_0;
        let told = expired.1 + taken_up.1;
        assert(events == told + ready);
        if i < told.len() {
            assert(events[i] == told[i]);
            if i < expired.1.len() {
                assert(told[i] == expired.1[i]);
            } else {
                assert(told[i] == taken_up.1[i - expired.1.len()]);
                assert(taken_up.1[i - expired.1.len()] !is FrameReady);
            }
        } else {
            assert(events[i] == ready[i - told.len()]);
            assert(ready.len() == 1);
        }
    }
}

/// Requests for packets are not deliveries.
proof fn lemma_no_frame_in_nacks(inflight: Seq<InflightView>, policy: ReceiverPolicy, now_us: u64)
    ensures
        forall|i: int|
            0 <= i < due_nacks(inflight, policy, now_us).len() ==> (#[trigger] due_nacks(
                inflight,
                policy,
                now_us,
            )[i]) !is FrameReady,
    decreases inflight.len(),
{
    if inflight.len() > 0 {
        lemma_no_frame_in_nacks(inflight.drop_last(), policy, now_us);
        let front = due_nacks(inflight.drop_last(), policy, now_us);
        let all = due_nacks(inflight, policy, now_us);
        assert forall|i: int| 0 <= i < all.len() implies (#[trigger] all[i]) !is FrameReady by {
            if i < front.len() {
                assert(front[i] == all[i]);
            }
        }
    }
}

proof fn lemma_push_contains<A>(items: Seq<A>, item: A)
    ensures
        forall|x: A| #[trigger] items.push(item).contains(x) <==> items.contains(x) || x == item,
{
    assert forall|x: A| #[trigger] items.push(item).contains(x) <==> items.contains(x) || x
        == item by {
        if items.contains(x) {
            let j = choose|j: int| 0 <= j < items.len() && items[j] == x;
            assert(items.push(item)[j] == x);
        }
        if x == item {
            assert(items.push(item)[items.len() as int] == x);
        }
        if items.push(item).contains(x) {
            let j = choose|j: int| 0 <= j < items.len() + 1 && items.push(item)[j] == x;
            assert(j < items.len() ==> items[j] == x);
        }
    }
}

/// What becomes of one frame when the window is expired.
proof fn lemma_expiry_of_a_frame(
    inflight: Seq<InflightView>,
    policy: ReceiverPolicy,
    now_us: u64,
    i: int,
)
    requires
        0 <= i < inflight.len(),
    ensures
        ({
            let frame = inflight[i];
            &&& frame.is_stale(policy, now_us) ==> stale_frames(inflight, policy, now_us).contains(
                frame,
            )
            &&& !frame.is_stale(policy, now_us) ==> kept_frames(inflight, policy, now_us).contains(
                frame.asked(policy, now_us),
            )
            &&& frame.needs_nack(policy, now_us) ==> due_nacks(inflight, policy, now_us).contains(
                frame.nack(),
            )
        }),
    decreases inflight.len(),
{
    let front = inflight.drop_last();
    lemma_push_contains(stale_frames(front, policy, now_us), inflight.last());
    lemma_push_contains(kept_frames(front, policy, now_us), inflight.last().asked(policy, now_us));
    lemma_push_contains(due_nacks(front, policy, now_us), inflight.last().nack());
    if i < front.len() {
        lemma_expiry_of_a_frame(front, policy, now_us, i);
        assert(front[i] == inflight[i]);
    }
}

/// Where the frames that are kept, dropped or asked for come from.
proof fn lemma_expiry_has_reasons(
    inflight: Seq<InflightView>,
    policy: ReceiverPolicy,
    now_us: u64,
)
    ensures
        forall|frame: InflightView| #[trigger]
            stale_frames(inflight, policy, now_us).contains(frame) ==> inflight.contains(frame)
                && frame.is_stale(policy, now_us),
        forall|frame: InflightView| #[trigger]
            kept_frames(inflight, policy, now_us).contains(frame) ==> exists|i: int|
                0 <= i < inflight.len() && frame == (#[trigger] inflight[i]).asked(policy, now_us)
                    && !inflight[i].is_stale(policy, now_us),
        forall|event: EventView| #[trigger]
            due_nacks(inflight, policy, now_us).contains(event) ==> exists|i: int|
                0 <= i < inflight.len() && event == (#[trigger] inflight[i]).nack()
                    && inflight[i].needs_nack(policy, now_us),
    decreases inflight.len(),
{
    if inflight.len() > 0 {
        let front = inflight.drop_last();
        let last = inflight.last();
        lemma_expiry_has_reasons(front, policy, now_us);
        lemma_push_contains(stale_frames(front, policy, now_us), last);
        lemma_push_contains(kept_frames(front, policy, now_us), last.asked(policy, now_us));
        lemma_push_contains(due_nacks(front, policy, now_us), last.nack());
        lemma_push_contains(front, last);
        assert(front.push(last) =~= inflight);
        assert forall|frame: InflightView| #[trigger]
            kept_frames(inflight, policy, now_us).contains(frame) implies exists|i: int|
            0 <= i < inflight.len() && frame == (#[trigger] inflight[i]).asked(policy, now_us)
                && !inflight[i].is_stale(policy, now_us) by {
            if kept_frames(front, policy, now_us).contains(frame) {
                let i = choose|i: int|
                    0 <= i < front.len() && frame == (#[trigger] front[i]).asked(policy, now_us)
                        && !front[i].is_stale(policy, now_us);
                assert(inflight[i] == front[i]);
            } else {
                assert(inflight[inflight.len() - 1] == last);
            }
        }
        assert forall|event: EventView| #[trigger]
            due_nacks(inflight, policy, now_us).contains(event) implies exists|i: int|
            0 <= i < inflight.len() && event == (#[trigger] inflight[i]).nack()
                && inflight[i].needs_nack(policy, now_us) by {
            if due_nacks(front, policy, now_us).contains(event) {
                let i = choose|i: int|
                    0 <= i < front.len() && event == (#[trigger] front[i]).nack()
                        && front[i].needs_nack(policy, now_us);
                assert(inflight[i] == front[i]);
            } else {
                assert(inflight[inflight.len() - 1] == last);
            }
        }
    }
}

/// A frame's age alone decides what becomes of it. Once it has reached the limit it is dropped, a
/// drop is told, and a key frame is asked for. Until then it stays as it is, and its missing
/// packets, all of them, are asked for once it is old enough and again after as long a pause.
pub proof fn law_age_decides(window: WindowView, now_us: u64, i: int)
    requires
        window.wf(),
        0 <= i < window.inflight.len(),
    ensures
        ({
            let frame = window.inflight[i];
            let after = window.spec_expire(now_us).0;
            let told = window.spec_expire(now_us).1;
            let age = now_us - frame.first_seen_us;
            let policy = window.policy;
            let missing = super::missing_of(frame.assembler.slots);
            let due = policy.nack_after_us <= age < policy.drop_after_us && missing.len() > 0 && (
            frame.last_nack_us is None || now_us - frame.last_nack_us->Some_0
                >= policy.nack_after_us);
            &&& age >= policy.drop_after_us ==> {
                &&& !has_frame(after.inflight, frame.frame_id)
                &&& told.contains(
                    EventView::DroppedStaleFrame {
                        stream_id: frame.assembler.stream_id,
                        frame_id: frame.frame_id,
                    },
                )
                &&& told.last() is NeedKeyframe
            }
            &&& age < policy.drop_after_us && due ==> {
                &&& after.inflight.contains(InflightView { last_nack_us: Some(now_us), ..frame })
                &&& told.contains(
                    EventView::NeedNack {
                        stream_id: frame.assembler.stream_id,
                        frame_id: frame.frame_id,
                        missing,
                    },
                )
            }
            &&& 0 <= age < policy.drop_after_us && !due && policy.nack_after_us > 0
                ==> after.inflight.contains(frame)
        }),
{
    let frame = window.inflight[i];
    let policy = window.policy;
    lemma_expiry_of_a_frame(window.inflight, policy, now_us, i);
    lemma_expiry_has_reasons(window.inflight, policy, now_us);
    let after = window.spec_expire(now_us).0;
    let stale = stale_frames(window.inflight, policy, now_us);
    let nacks = due_nacks(window.inflight, policy, now_us);
    let drops = dropped_events(stale);
    let told = window.spec_expire(now_us).1;
    if frame.is_stale(policy, now_us) {
        let j = choose|j: int| 0 <= j < stale.len() && stale[j] == frame;
        assert(drops[j] == frame.dropped());
        assert(told[nacks.len() + j] == frame.dropped());
        assert(told.last() == keyframe_requests(stale)[0]);
        if has_frame(after.inflight, frame.frame_id) {
            let k = choose|k: int|
                0 <= k < after.inflight.len() && (#[trigger] after.inflight[k]).frame_id
                    == frame.frame_id;
            assert(after.inflight.contains(after.inflight[k]));
            let m = choose|m: int|
                0 <= m < window.inflight.len() && after.inflight[k] == (
                #[trigger] window.inflight[m]).asked(policy, now_us) && !window.inflight[m].is_stale(
                    policy,
                    now_us,
                );
            assert(window.inflight[m].frame_id == frame.frame_id);
            assert(m == i);
        }
    }
    if frame.needs_nack(policy, now_us) {
        let j = choose|j: int| 0 <= j < nacks.len() && nacks[j] == frame.nack();
        assert(told[j] == frame.nack());
    }
}

/// Nothing is told without a reason: a drop or a request for a key frame comes of a frame that is
/// too old, a request for packets of one that lacks them, and the passing of time completes none.
/// Every frame is kept or dropped, and every drop is counted.
pub proof fn law_expiry_tells_only_what_is(window: WindowView, now_us: u64, k: int)
    requires
        window.wf(),
        0 <= k < window.spec_expire(now_us).1.len(),
    ensures
        ({
            let after = window.spec_expire(now_us).0;
            let told = window.spec_expire(now_us).1[k];
            let policy = window.policy;
            &&& !(told is FrameReady)
            &&& told matches EventView::DroppedStaleFrame { stream_id, frame_id } ==> exists|i: int|
                0 <= i < window.inflight.len() && (#[trigger] window.inflight[i]).frame_id
                    == frame_id && window.inflight[i].assembler.stream_id == stream_id && now_us
                    - window.inflight[i].first_seen_us >= policy.drop_after_us
            &&& told matches EventView::NeedKeyframe { stream_id, after_frame_id } ==> exists|
                i: int,
            |
                0 <= i < window.inflight.len() && (#[trigger] window.inflight[i]).frame_id
                    == after_frame_id && window.inflight[i].assembler.stream_id == stream_id
                    && now_us - window.inflight[i].first_seen_us >= policy.drop_after_us
            &&& told matches EventView::NeedNack { stream_id, frame_id, missing } ==> exists|i: int|
                0 <= i < window.inflight.len() && (#[trigger] window.inflight[i]).frame_id
                    == frame_id && window.inflight[i].assembler.stream_id == stream_id && missing
                    == super::missing_of(window.inflight[i].assembler.slots) && missing.len() > 0
        }),
{
    let policy = window.policy;
    let stale = stale_frames(window.inflight, policy, now_us);
    let nacks = due_nacks(window.inflight, policy, now_us);
    lemma_expiry_has_reasons(window.inflight, policy, now_us);
    let told = window.spec_expire(now_us).1;
    if k < nacks.len() {
        assert(told[k] == nacks[k]);
        assert(nacks.contains(nacks[k]));
    } else if k < nacks.len() + stale.len() {
        let frame = stale[k - nacks.len()];
        assert(told[k] == frame.dropped());
        assert(stale.contains(frame));
        let i = choose|i: int| 0 <= i < window.inflight.len() && window.inflight[i] == frame;
        assert(window.inflight[i].is_stale(policy, now_us));
    } else {
        let frame = stale.last();
        assert(told[k] == keyframe_requests(stale)[0]);
        assert(stale.contains(frame));
        let i = choose|i: int| 0 <= i < window.inflight.len() && window.inflight[i] == frame;
        assert(window.inflight[i].is_stale(policy, now_us));
    }
}

/// Every frame is kept or dropped by the passing of time, and each drop is counted; neither the
/// policy nor the frame that was last whole changes.
pub proof fn law_expiry_counts_its_drops(window: WindowView, now_us: u64)
    requires
        window.wf(),
    ensures
        ({
            let after = window.spec_expire(now_us).0;
            &&& after.inflight.len() <= window.inflight.len()
            &&& window.dropped_frames + window.inflight.len() <= u64::MAX ==> after.dropped_frames
                + after.inflight.len() == window.dropped_frames + window.inflight.len()
            &&& after.policy == window.policy
            &&& after.latest_complete_frame == window.latest_complete_frame
        }),
{
    lemma_kept_bounds(window.inflight, window.policy, now_us);
}

/// A frame that is not known is taken up, with all its places empty and from this moment on. Only
/// a window that is full loses frames for it, and of these the oldest, and tells of each.
pub proof fn law_new_frames_push_out_the_oldest(window: WindowView, now_us: u64, packet: PacketView)
    requires
        window.wf(),
    ensures
        ({
            let frame_id = packet.header.frame_id;
            let room = window.spec_make_room();
            let after = window.spec_take_up(now_us, packet).0;
            let told = window.spec_take_up(now_us, packet).1;
            let full = window.inflight.len() == window.policy.max_inflight_frames;
            &&& has_frame(window.inflight, frame_id) ==> after == window && told.len() == 0
            &&& !has_frame(window.inflight, frame_id) ==> {
                &&& after.inflight.contains(
                    InflightView {
                        frame_id,
                        first_seen_us: now_us,
                        last_nack_us: None,
                        assembler: AssemblerView::spec_from_first(packet),
                    },
                )
                &&& after.inflight.len() == if full {
                    window.inflight.len()
                } else {
                    window.inflight.len() + 1
                }
                &&& told.len() == if full {
                    1
                } else {
                    0int
                }
            }
            &&& full ==> {
                &&& room.0.inflight == window.inflight.remove(0)
                &&& room.1 == seq![
                    EventView::DroppedStaleFrame {
                        stream_id: window.inflight[0].assembler.stream_id,
                        frame_id: window.inflight[0].frame_id,
                    },
                ]
                &&& window.dropped_frames < u64::MAX ==> room.0.dropped_frames
                    == window.dropped_frames + 1
            }
            &&& !full ==> room.0.inflight == window.inflight && room.1.len() == 0
                && room.0.dropped_frames == window.dropped_frames
            &&& after.latest_complete_frame == window.latest_complete_frame && after.policy
                == window.policy
        }),
{
    let room = window.spec_make_room();
    let full = window.inflight.len() == window.policy.max_inflight_frames;
    assert(window.spec_overflow() == if full {
        1
    } else {
        0int
    });
    assert(window.inflight.skip(0) =~= window.inflight);
    if full {
        assert(window.inflight.skip(1) =~= window.inflight.remove(0));
        assert(room.1 =~= seq![window.inflight[0].dropped()]);
    }
    let at = older_count(room.0.inflight, packet.header.frame_id) as int;
    lemma_older_bound(room.0.inflight, packet.header.frame_id);
    let after = room.0.spec_start(now_us, packet);
    assert(after.inflight[at].frame_id == packet.header.frame_id);
    assert(after.inflight.contains(after.inflight[at]));
}

proof fn lemma_older_bound(inflight: Seq<InflightView>, frame_id: u64)
    ensures
        older_count(inflight, frame_id) <= inflight.len(),
    decreases inflight.len(),
{
    if inflight.len() > 0 {
        lemma_older_bound(inflight.drop_last(), frame_id);
    }
}

/// A packet goes to its own frame, wherever that stands. Until the frame is whole, no other frame
/// changes. A frame that is whole is handed out; it and all older ones leave, and every newer one
/// stays as it is. A packet that is refused changes nothing.
pub proof fn law_packets_join_their_frame(window: WindowView, packet: PacketView, i: int, j: int)
    requires
        window.wf(),
        0 <= i < window.inflight.len(),
        window.inflight[i].frame_id == packet.header.frame_id,
        0 <= j < window.inflight.len(),
        j != i,
    ensures
        ({
            let pushed = window.inflight[i].assembler.spec_push(packet);
            let after = window.spec_join(packet).0;
            let result = window.spec_join(packet).1;
            &&& pushed is Err ==> after == window && result is Err && result->Err_0 == pushed->Err_0
            &&& pushed matches Ok(assembler) ==> match assembler.spec_finish() {
                Some(whole) => {
                    &&& result == Ok::<_, AssembleError>(seq![EventView::FrameReady(whole)])
                    &&& after.latest_complete_frame == Some(packet.header.frame_id)
                    &&& after.inflight == window.inflight.skip(i + 1)
                },
                None => {
                    &&& result == Ok::<_, AssembleError>(Seq::<EventView>::empty())
                    &&& after.latest_complete_frame == window.latest_complete_frame
                    &&& after.inflight.len() == window.inflight.len()
                    &&& after.inflight[j] == window.inflight[j]
                    &&& after.inflight[i] == (InflightView { assembler, ..window.inflight[i] })
                },
            }
            &&& after.policy == window.policy && after.dropped_frames == window.dropped_frames
        }),
{
    lemma_older_count(window.inflight, packet.header.frame_id, i);
    lemma_newer_frames(window.inflight, packet.header.frame_id, i + 1);
}

/// A packet of a frame that is not newer than the last whole one comes too late: only time passes.
pub proof fn law_late_packets_change_nothing(
    window: WindowView,
    now_us: u64,
    packet: PacketView,
    latest: u64,
)
    requires
        window.latest_complete_frame == Some(latest),
        packet.header.frame_id <= latest,
    ensures
        window.spec_push(now_us, packet).0 == window.spec_expire(now_us).0,
        window.spec_push(now_us, packet).1 == Ok::<_, AssembleError>(
            window.spec_expire(now_us).1,
        ),
{
}

} // verus!
