//! Fan-out of encoded frames to sinks with bounded queues.

use super::{Codec, EncodedFrameMeta};
use crate::ordered::{OrderedKey, OrderedMap};
use std::sync::Arc;
use vstd::prelude::*;

verus! {

pub const DEFAULT_MAX_SINKS: usize = 64;

pub const DEFAULT_MAX_QUEUE_DEPTH: usize = 8;

#[derive(Debug, Clone, Copy, PartialEq, Eq, Structural)]
pub enum DistributorError {
    InvalidMaxSinks,
    InvalidMaxQueueDepth,
    InvalidQueueCapacity,
    QueueCapacityExceeded,
    DuplicateSink,
    SinkLimitReached,
}

#[derive(Debug, Clone, Copy, PartialEq, Eq, PartialOrd, Ord, Hash, Structural)]
pub struct SinkId(pub u64);

impl OrderedKey for SinkId {
    open spec fn rank(self) -> int {
        self.0 as int
    }

    proof fn lemma_rank_injective(a: Self, b: Self) {
    }

    fn precedes(&self, other: &Self) -> (before: bool) {
        self.0 < other.0
    }
}

/// An encoded frame whose bytes are shared.
#[derive(Debug, Clone)]
pub struct SharedEncodedFrame {
    pub meta: EncodedFrameMeta,
    pub codec: Codec,
    pub data: Arc<[u8]>,
}

/// Calls `Arc::<[u8]>::from` on a vector: the shared slice holds the vector's bytes.
#[verifier::external_body]
fn share_bytes(data: Vec<u8>) -> (shared: Arc<[u8]>)
    ensures
        shared@ == data@,
{
    Arc::from(data)
}

impl SharedEncodedFrame {
    #[must_use]
    pub fn new(meta: EncodedFrameMeta, codec: Codec, data: Vec<u8>) -> (frame: Self)
        ensures
            frame.meta == meta,
            frame.codec == codec,
            frame.data@ == data@,
    {
        SharedEncodedFrame { meta, codec, data: share_bytes(data) }
    }

    /// Another handle to the same bytes.
    #[must_use]
    pub fn share(&self) -> (frame: Self)
        ensures
            frame == *self,
    {
        SharedEncodedFrame { meta: self.meta, codec: self.codec, data: Arc::clone(&self.data) }
    }
}

#[derive(Debug, Clone, Copy, PartialEq, Eq, Structural)]
pub enum SinkMode {
    Multicast,
    Unicast,
    SfuUplink,
    Recording,
}

#[derive(Debug)]
struct SinkQueue {
    mode: SinkMode,
    frames: OrderedMap<u64, SharedEncodedFrame>,
    capacity: usize,
    dropped: u64,
}

/// A sink: its frames in ascending order of their identifiers, and how many it lost.
pub struct SinkView {
    pub mode: SinkMode,
    pub frames: Seq<(u64, SharedEncodedFrame)>,
    pub capacity: usize,
    pub dropped: u64,
}

impl SinkView {
    /// The number of oldest frames that have to go before one more fits.
    pub open spec fn spec_overflow(self) -> int {
        if self.frames.len() >= self.capacity {
            self.frames.len() - self.capacity + 1
        } else {
            0
        }
    }

    /// The sink after a frame: the oldest frames make room for it.
    pub open spec fn spec_push(self, frame: SharedEncodedFrame) -> Self {
        SinkView {
            frames: crate::ordered::entries_with(
                self.frames.skip(self.spec_overflow()),
                frame.meta.frame_id,
                frame,
            ),
            dropped: crate::counting::saturating_sum(self.dropped, self.spec_overflow()),
            ..self
        }
    }

    /// The frame that is handed out: the newest.
    pub open spec fn spec_latest(self) -> Option<SharedEncodedFrame> {
        if self.frames.len() == 0 {
            None
        } else {
            Some(self.frames.last().1)
        }
    }

    /// The sink after the newest frame was handed out: the others are lost.
    pub open spec fn spec_popped(self) -> Self {
        if self.frames.len() == 0 {
            self
        } else {
            SinkView {
                frames: Seq::empty(),
                dropped: crate::counting::saturating_sum(self.dropped, self.frames.len() - 1),
                ..self
            }
        }
    }

    /// The queue is bounded.
    pub open spec fn is_bounded(self) -> bool {
        0 < self.capacity && self.frames.len() <= self.capacity
    }

    /// The frames ascend by their identifiers, and each stands under its own.
    pub open spec fn is_ordered(self) -> bool {
        &&& forall|i: int, j: int|
            #![trigger self.frames[i], self.frames[j]]
            0 <= i < j < self.frames.len() ==> self.frames[i].0 < self.frames[j].0
        &&& stand_under_their_own(self.frames)
    }
}

/// Each frame stands under its own identifier.
pub open spec fn stand_under_their_own(frames: Seq<(u64, SharedEncodedFrame)>) -> bool {
    forall|i: int|
        0 <= i < frames.len() ==> (#[trigger] frames[i]).1.meta.frame_id == frames[i].0
}

impl View for SinkQueue {
    type V = SinkView;

    closed spec fn view(&self) -> SinkView {
        SinkView {
            mode: self.mode,
            frames: self.frames.spec_entries(),
            capacity: self.capacity,
            dropped: self.dropped,
        }
    }
}

/// One entry more at most, and one key of the order.
proof fn lemma_entries_with_len(
    entries: Seq<(u64, SharedEncodedFrame)>,
    key: u64,
    value: SharedEncodedFrame,
)
    ensures
        crate::ordered::entries_below(entries, key as int).len() + crate::ordered::entries_above(
            entries,
            key as int,
        ).len() <= entries.len(),
    decreases entries.len(),
{
    if entries.len() > 0 {
        lemma_entries_with_len(entries.drop_last(), key, value);
    }
}

/// A frame that takes its place leaves every frame under its own identifier.
proof fn lemma_stand_under_their_own(
    frames: Seq<(u64, SharedEncodedFrame)>,
    place: int,
)
    requires
        stand_under_their_own(frames),
    ensures
        stand_under_their_own(crate::ordered::entries_below(frames, place)),
        stand_under_their_own(crate::ordered::entries_above(frames, place)),
    decreases frames.len(),
{
    if frames.len() > 0 {
        assert forall|i: int| 0 <= i < frames.drop_last().len() implies (
        #[trigger] frames.drop_last()[i]).1.meta.frame_id == frames.drop_last()[i].0 by {
            assert(frames.drop_last()[i] == frames[i]);
        }
        assert(frames[frames.len() - 1].1.meta.frame_id == frames.last().0);
        lemma_stand_under_their_own(frames.drop_last(), place);
    }
}

impl SinkQueue {
    spec fn wf(self) -> bool {
        self.frames.wf() && self@.is_bounded() && stand_under_their_own(self@.frames)
    }

    proof fn lemma_ordered(self)
        requires
            self.wf(),
        ensures
            self@.is_ordered(),
    {
        self.frames.lemma_view();
    }

    fn new(mode: SinkMode, capacity: usize) -> (queue: Self)
        requires
            capacity > 0,
        ensures
            queue.wf(),
            queue@ == (SinkView { mode, frames: Seq::empty(), capacity, dropped: 0 }),
    {
        SinkQueue { mode, frames: OrderedMap::new(), capacity, dropped: 0 }
    }

    fn push(&mut self, frame: SharedEncodedFrame)
        requires
            old(self).wf(),
        ensures
            final(self).wf(),
            final(self)@ == old(self)@.spec_push(frame),
    {
        let ghost before = self@;
        let ghost mut over: int = 0;
        proof {
            assert(before.frames.skip(0) =~= before.frames);
        }
        while self.frames.len() >= self.capacity
            invariant
                self.frames.wf(),
                0 < self.capacity,
                self.capacity == before.capacity,
                self.mode == before.mode,
                0 <= over <= before.spec_overflow(),
                self@.frames == before.frames.skip(over),
                stand_under_their_own(before.frames),
                self.dropped == crate::counting::saturating_sum(before.dropped, over),
            decreases before.frames.len() - over,
        {
            let _oldest = self.frames.remove_at(0);
            self.dropped = self.dropped.saturating_add(1);
            proof {
                assert(self@.frames =~= before.frames.skip(over + 1));
                over = over + 1;
            }
        }
        let frame_id: u64 = frame.meta.frame_id;
        proof {
            let kept = self@.frames;
            lemma_entries_with_len(kept, frame_id, frame);
            assert forall|i: int| 0 <= i < kept.len() implies (
            #[trigger] kept[i]).1.meta.frame_id == kept[i].0 by {
                assert(kept[i] == before.frames[i + over]);
            }
            lemma_stand_under_their_own(kept, frame_id as int);
        }
        let _replaced = self.frames.insert(frame_id, frame);
    }

    fn pop_latest(&mut self) -> (frame: Option<SharedEncodedFrame>)
        requires
            old(self).wf(),
        ensures
            final(self).wf(),
            frame == old(self)@.spec_latest(),
            final(self)@ == old(self)@.spec_popped(),
    {
        if self.frames.len() == 0 {
            return None;
        }
        let last: usize = self.frames.len() - 1;
        let lost: u64 = last as u64;
        self.dropped = self.dropped.saturating_add(lost);
        let latest = self.frames.remove_at(last).1;
        self.frames.clear();
        Some(latest)
    }
}

#[derive(Debug, Clone, Copy, PartialEq, Eq, Structural)]
pub struct SinkStats {
    pub mode: SinkMode,
    pub queued: usize,
    pub dropped: u64,
}

/// Fan-out queue that shares the same encoded frame allocation across sinks.
///
/// This enforces the "encode once, distribute many" invariant at the encoded-frame boundary.
/// Individual sinks own bounded queues so a slow receiver/transport cannot hold back the encoder or
/// other healthy sinks.
#[derive(Debug)]
pub struct FrameDistributor {
    sinks: OrderedMap<SinkId, SinkQueue>,
    max_sinks: usize,
    max_queue_depth: usize,
}

/// The sinks by their identifiers, and the limits.
#[verifier::ext_equal]
pub struct DistributorView {
    pub sinks: Map<SinkId, SinkView>,
    pub max_sinks: usize,
    pub max_queue_depth: usize,
}

impl DistributorView {
    /// Whether a sink can be added, and why not.
    pub open spec fn spec_can_add(self, id: SinkId, capacity: usize) -> Result<
        (),
        DistributorError,
    > {
        if capacity == 0 {
            Err(DistributorError::InvalidQueueCapacity)
        } else if capacity > self.max_queue_depth {
            Err(DistributorError::QueueCapacityExceeded)
        } else if self.sinks.contains_key(id) {
            Err(DistributorError::DuplicateSink)
        } else if self.sinks.dom().len() >= self.max_sinks {
            Err(DistributorError::SinkLimitReached)
        } else {
            Ok(())
        }
    }

    /// The distributor with a new sink, whose queue is empty.
    pub open spec fn spec_added(self, id: SinkId, mode: SinkMode, capacity: usize) -> Self {
        DistributorView {
            sinks: self.sinks.insert(
                id,
                SinkView { mode, frames: Seq::empty(), capacity, dropped: 0 },
            ),
            ..self
        }
    }

    /// The distributor after a frame: every sink has taken it.
    pub open spec fn spec_published(self, frame: SharedEncodedFrame) -> Self {
        DistributorView {
            sinks: Map::new(
                |id: SinkId| self.sinks.contains_key(id),
                |id: SinkId| self.sinks[id].spec_push(frame),
            ),
            ..self
        }
    }

    /// The distributor after a sink was asked for its newest frame.
    pub open spec fn spec_popped(self, id: SinkId) -> Self {
        if self.sinks.contains_key(id) {
            DistributorView { sinks: self.sinks.insert(id, self.sinks[id].spec_popped()), ..self }
        } else {
            self
        }
    }

    /// Neither the sinks nor any queue grow beyond their limits.
    pub open spec fn is_bounded(self) -> bool {
        &&& self.sinks.dom().finite()
        &&& self.sinks.dom().len() <= self.max_sinks
        &&& forall|id: SinkId| #[trigger]
            self.sinks.contains_key(id) ==> self.sinks[id].is_bounded() && self.sinks[id].capacity
                <= self.max_queue_depth
    }

    /// The frames of every sink ascend by their identifiers, and stand under their own.
    pub open spec fn is_ordered(self) -> bool {
        forall|id: SinkId| #[trigger] self.sinks.contains_key(id) ==> self.sinks[id].is_ordered()
    }
}

impl View for FrameDistributor {
    type V = DistributorView;

    closed spec fn view(&self) -> DistributorView {
        DistributorView {
            sinks: Map::new(
                |id: SinkId| self.sinks@.contains_key(id),
                |id: SinkId| self.sinks@[id]@,
            ),
            max_sinks: self.max_sinks,
            max_queue_depth: self.max_queue_depth,
        }
    }
}

impl Default for FrameDistributor {
    fn default() -> (distributor: Self)
        ensures
            distributor.wf(),
            distributor@ == (DistributorView {
                sinks: Map::empty(),
                max_sinks: DEFAULT_MAX_SINKS,
                max_queue_depth: DEFAULT_MAX_QUEUE_DEPTH,
            }),
    {
        FrameDistributor {
            sinks: OrderedMap::new(),
            max_sinks: DEFAULT_MAX_SINKS,
            max_queue_depth: DEFAULT_MAX_QUEUE_DEPTH,
        }
    }
}

impl FrameDistributor {
    /// The queues are sound, and nothing exceeds its limit.
    pub closed spec fn wf(self) -> bool {
        &&& self.sinks.wf()
        &&& self.sinks@.dom().len() <= self.max_sinks
        &&& forall|id: SinkId| #[trigger]
            self.sinks@.contains_key(id) ==> self.sinks@[id].wf() && self.sinks@[id].capacity
                <= self.max_queue_depth
    }

    /// A sound distributor is bounded, and its frames are in order.
    pub proof fn lemma_bounded(self)
        requires
            self.wf(),
        ensures
            self@.is_bounded(),
            self@.is_ordered(),
    {
        assert forall|id: SinkId| #[trigger] self@.sinks.contains_key(id) implies self@.sinks[id].is_ordered() by {
            assert(self.sinks@.contains_key(id));
            self.sinks@[id].lemma_ordered();
        }
        self.sinks.lemma_view();
        assert(self@.sinks.dom() =~= self.sinks@.dom());
        assert forall|id: SinkId| #[trigger] self@.sinks.contains_key(id) implies self@.sinks[id].is_bounded()
            && self@.sinks[id].capacity <= self@.max_queue_depth by {
            assert(self.sinks@.contains_key(id));
        }
    }

    pub fn with_limits(max_sinks: usize, max_queue_depth: usize) -> (result: Result<
        Self,
        DistributorError,
    >)
        ensures
            match result {
                Ok(distributor) => max_sinks > 0 && max_queue_depth > 0 && distributor.wf()
                    && distributor@ == (DistributorView {
                    sinks: Map::empty(),
                    max_sinks,
                    max_queue_depth,
                }),
                Err(DistributorError::InvalidMaxSinks) => max_sinks == 0,
                Err(DistributorError::InvalidMaxQueueDepth) => max_sinks > 0 && max_queue_depth
                    == 0,
                Err(_) => false,
            },
    {
        if max_sinks == 0 {
            return Err(DistributorError::InvalidMaxSinks);
        }
        if max_queue_depth == 0 {
            return Err(DistributorError::InvalidMaxQueueDepth);
        }
        Ok(FrameDistributor { sinks: OrderedMap::new(), max_sinks, max_queue_depth })
    }

    pub fn add_sink(&mut self, id: SinkId, mode: SinkMode, capacity: usize) -> (result: Result<
        (),
        DistributorError,
    >)
        requires
            old(self).wf(),
        ensures
            final(self).wf(),
            result == old(self)@.spec_can_add(id, capacity),
            final(self)@ == if result is Ok {
                old(self)@.spec_added(id, mode, capacity)
            } else {
                old(self)@
            },
    {
        proof {
            assert(self@.sinks.dom() =~= self.sinks@.dom());
        }
        if capacity == 0 {
            return Err(DistributorError::InvalidQueueCapacity);
        }
        if capacity > self.max_queue_depth {
            return Err(DistributorError::QueueCapacityExceeded);
        }
        if self.sinks.contains_key(&id) {
            return Err(DistributorError::DuplicateSink);
        }
        if self.sinks.len() >= self.max_sinks {
            return Err(DistributorError::SinkLimitReached);
        }
        let ghost before = self.sinks@;
        let _none = self.sinks.insert(id, SinkQueue::new(mode, capacity));
        proof {
            assert forall|other: SinkId| #[trigger] self.sinks@.contains_key(other) implies self.sinks@[other].wf()
                && self.sinks@[other].capacity <= self.max_queue_depth by {
                if other != id {
                    assert(before.contains_key(other));
                }
            }
            assert(self@.sinks =~= old(self)@.spec_added(id, mode, capacity).sinks);
        }
        Ok(())
    }

    pub fn remove_sink(&mut self, id: SinkId) -> (removed: bool)
        requires
            old(self).wf(),
        ensures
            final(self).wf(),
            removed == old(self)@.sinks.contains_key(id),
            final(self)@ == (DistributorView { sinks: old(self)@.sinks.remove(id), ..old(self)@ }),
    {
        proof {
            self.sinks.lemma_view();
        }
        let previous = self.sinks.remove(&id);
        proof {
            assert(self@.sinks =~= old(self)@.sinks.remove(id));
            assert forall|other: SinkId| #[trigger] self.sinks@.contains_key(other) implies self.sinks@[other].wf()
                && self.sinks@[other].capacity <= self.max_queue_depth by {
                assert(old(self).sinks@.contains_key(other));
            }
        }
        previous.is_some()
    }

    /// Shares one allocation across every sink queue.
    pub fn publish(&mut self, frame: SharedEncodedFrame)
        requires
            old(self).wf(),
        ensures
            final(self).wf(),
            final(self)@ == old(self)@.spec_published(frame),
    {
        let ghost before = self.sinks.spec_entries();
        let mut i: usize = 0;
        proof {
            self.sinks.lemma_view();
            assert forall|j: int| 0 <= j < before.len() implies (#[trigger] before[j]).1.wf()
                && before[j].1.capacity <= self.max_queue_depth by {
                assert(self.sinks@.contains_key(before[j].0));
            }
        }
        while i < self.sinks.len()
            invariant
                self.sinks.wf(),
                self.max_sinks == old(self).max_sinks,
                self.max_queue_depth == old(self).max_queue_depth,
                i <= before.len() == self.sinks.spec_entries().len(),
                forall|j: int|
                    0 <= j < before.len() ==> (#[trigger] self.sinks.spec_entries()[j]).0
                        == before[j].0 && self.sinks.spec_entries()[j].1.wf()
                        && self.sinks.spec_entries()[j].1.capacity <= self.max_queue_depth
                        && self.sinks.spec_entries()[j].1@ == if j < i {
                        before[j].1@.spec_push(frame)
                    } else {
                        before[j].1@
                    },
            decreases before.len() - i,
        {
            assert(self.sinks.spec_entries()[i as int].1.wf());
            let ghost entries = self.sinks.spec_entries();
            let sink = self.sinks.value_at_mut(i);
            sink.push(frame.share());
            proof {
                assert forall|j: int| 0 <= j < before.len() implies (
                #[trigger] self.sinks.spec_entries()[j]).0 == before[j].0
                    && self.sinks.spec_entries()[j].1.wf()
                    && self.sinks.spec_entries()[j].1.capacity <= self.max_queue_depth
                    && self.sinks.spec_entries()[j].1@ == if j < i + 1 {
                    before[j].1@.spec_push(frame)
                } else {
                    before[j].1@
                } by {
                    assert(entries[j].0 == before[j].0);
                }
            }
            i += 1;
        }
        proof {
            let after = self.sinks.spec_entries();
            self.sinks.lemma_view();
            old(self).sinks.lemma_view();
            assert forall|id: SinkId| self.sinks@.contains_key(id) <==> old(self).sinks@.contains_key(
                id,
            ) by {
                if self.sinks@.contains_key(id) {
                    let j = choose|j: int| 0 <= j < after.len() && (#[trigger] after[j]).0 == id;
                    assert(before[j].0 == id);
                }
                if old(self).sinks@.contains_key(id) {
                    let j = choose|j: int| 0 <= j < before.len() && (#[trigger] before[j]).0 == id;
                    assert(after[j].0 == id);
                }
            }
            assert forall|id: SinkId| #[trigger] self.sinks@.contains_key(id) implies self.sinks@[id].wf()
                && self.sinks@[id].capacity <= self.max_queue_depth && self.sinks@[id]@ == old(
                self,
            ).sinks@[id]@.spec_push(frame) by {
                let j = choose|j: int| 0 <= j < after.len() && (#[trigger] after[j]).0 == id;
                assert(before[j].0 == id);
            }
            assert(self@.sinks =~= old(self)@.spec_published(frame).sinks);
        }
    }

    /// Hands out a sink's newest frame, the one with the greatest identifier, and forgets the
    /// older ones.
    pub fn pop_latest(&mut self, id: SinkId) -> (frame: Option<SharedEncodedFrame>)
        requires
            old(self).wf(),
        ensures
            final(self).wf(),
            frame == if old(self)@.sinks.contains_key(id) {
                old(self)@.sinks[id].spec_latest()
            } else {
                None
            },
            frame matches Some(latest) ==> forall|i: int|
                0 <= i < old(self)@.sinks[id].frames.len() ==> (
                #[trigger] old(self)@.sinks[id].frames[i]).1.meta.frame_id
                    <= latest.meta.frame_id,
            final(self)@ == old(self)@.spec_popped(id),
    {
        proof {
            self.sinks.lemma_view();
            self.lemma_bounded();
            if self@.sinks.contains_key(id) && self@.sinks[id].frames.len() > 0 {
                law_newest_frame_is_handed_out(self@, id);
            }
        }
        match self.sinks.get_mut(&id) {
            Some(sink) => {
                let frame = sink.pop_latest();
                proof {
                    assert(self.sinks@.dom() =~= old(self).sinks@.dom());
                    assert forall|other: SinkId| #[trigger]
                        self.sinks@.contains_key(other) implies self.sinks@[other].wf()
                        && self.sinks@[other].capacity <= self.max_queue_depth by {
                        assert(old(self).sinks@.contains_key(other));
                    }
                    assert(self@.sinks =~= old(self)@.spec_popped(id).sinks);
                }
                frame
            },
            None => None,
        }
    }

    #[must_use]
    pub fn stats(&self, id: SinkId) -> (stats: Option<SinkStats>)
        requires
            self.wf(),
        ensures
            match stats {
                Some(stats) => self@.sinks.contains_key(id) && stats.mode == self@.sinks[id].mode
                    && stats.queued == self@.sinks[id].frames.len() && stats.dropped
                    == self@.sinks[id].dropped,
                None => !self@.sinks.contains_key(id),
            },
    {
        match self.sinks.get(&id) {
            Some(sink) => Some(
                SinkStats { mode: sink.mode, queued: sink.frames.len(), dropped: sink.dropped },
            ),
            None => None,
        }
    }

    #[must_use]
    pub fn sink_count(&self) -> (count: usize)
        requires
            self.wf(),
        ensures
            count == self@.sinks.dom().len(),
    {
        proof {
            assert(self@.sinks.dom() =~= self.sinks@.dom());
        }
        self.sinks.len()
    }
}

/// What a sink hands out is a frame that it holds, and none that it holds is newer.
pub proof fn law_newest_frame_is_handed_out(distributor: DistributorView, id: SinkId)
    requires
        distributor.is_ordered(),
        distributor.sinks.contains_key(id),
        distributor.sinks[id].frames.len() > 0,
    ensures
        distributor.sinks[id].spec_latest() matches Some(latest) && {
            &&& exists|i: int|
                0 <= i < distributor.sinks[id].frames.len() && (
                #[trigger] distributor.sinks[id].frames[i]).1 == latest
            &&& forall|i: int|
                0 <= i < distributor.sinks[id].frames.len() ==> (
                #[trigger] distributor.sinks[id].frames[i]).1.meta.frame_id
                    <= latest.meta.frame_id
        },
{
    let frames = distributor.sinks[id].frames;
    let last = frames.len() - 1;
    assert(frames[last].1.meta.frame_id == frames[last].0);
    assert forall|i: int| 0 <= i < frames.len() implies (#[trigger] frames[i]).1.meta.frame_id
        <= frames[last].1.meta.frame_id by {
        if i < last {
            assert(frames[i].0 < frames[last].0);
        }
    }
}

/// A slow sink holds nobody back: what one sink takes out leaves every other sink as it was,
/// and what a sink takes of a frame does not depend on the other sinks.
pub proof fn law_sinks_are_independent(
    distributor: DistributorView,
    frame: SharedEncodedFrame,
    id: SinkId,
    other: SinkId,
)
    requires
        distributor.sinks.contains_key(other),
        id != other,
    ensures
        distributor.spec_popped(id).sinks.contains_key(other),
        distributor.spec_popped(id).sinks[other] == distributor.sinks[other],
        distributor.spec_published(frame).sinks[other] == distributor.sinks[other].spec_push(frame),
{
}

/// Every sink takes the very frame that was published, so that all hold the same bytes; it
/// is what the sink hands out next where no newer frame waits.
pub proof fn law_published_frame_reaches_every_sink(
    distributor: DistributorView,
    frame: SharedEncodedFrame,
    id: SinkId,
)
    requires
        distributor.is_bounded(),
        distributor.sinks.contains_key(id),
        forall|i: int|
            0 <= i < distributor.sinks[id].frames.len() ==> (
            #[trigger] distributor.sinks[id].frames[i]).0 <= frame.meta.frame_id,
    ensures
        distributor.spec_published(frame).sinks[id].spec_latest() == Some(frame),
{
    let sink = distributor.sinks[id];
    let kept = sink.frames.skip(sink.spec_overflow());
    assert forall|i: int| 0 <= i < kept.len() implies (#[trigger] kept[i]).0
        <= frame.meta.frame_id by {
        assert(kept[i] == sink.frames[i + sink.spec_overflow()]);
    }
    lemma_none_above(kept, frame.meta.frame_id as int);
    let pushed = sink.spec_push(frame).frames;
    assert(pushed.last() == (frame.meta.frame_id, frame));
}

/// Where no frame is newer, none stands above.
proof fn lemma_none_above(frames: Seq<(u64, SharedEncodedFrame)>, place: int)
    requires
        forall|i: int| 0 <= i < frames.len() ==> (#[trigger] frames[i]).0 <= place,
    ensures
        crate::ordered::entries_above(frames, place).len() == 0,
    decreases frames.len(),
{
    if frames.len() > 0 {
        let front = frames.drop_last();
        assert forall|i: int| 0 <= i < front.len() implies (#[trigger] front[i]).0 <= place by {
            assert(front[i] == frames[i]);
        }
        assert(frames[frames.len() - 1].0 <= place);
        lemma_none_above(front, place);
    }
}

/// A sink is added if and only if it is new, its queue has room for a frame and not for too many,
/// and there is room for it; each rule has its own refusal. It starts empty, and no other sink
/// is touched.
pub proof fn law_sinks_are_added_one_by_one(
    distributor: DistributorView,
    id: SinkId,
    mode: SinkMode,
    capacity: usize,
    other: SinkId,
)
    requires
        other != id,
    ensures
        ({
            let can = distributor.spec_can_add(id, capacity);
            let after = distributor.spec_added(id, mode, capacity);
            let sized = 1 <= capacity <= distributor.max_queue_depth;
            let known = distributor.sinks.contains_key(id);
            let room = distributor.sinks.dom().len() < distributor.max_sinks;
            &&& can is Ok <==> sized && !known && room
            &&& capacity == 0 ==> can == Err::<(), _>(DistributorError::InvalidQueueCapacity)
            &&& capacity > 0 && capacity > distributor.max_queue_depth ==> can == Err::<(), _>(
                DistributorError::QueueCapacityExceeded,
            )
            &&& sized && known ==> can == Err::<(), _>(DistributorError::DuplicateSink)
            &&& sized && !known && !room ==> can == Err::<(), _>(DistributorError::SinkLimitReached)
            &&& after.sinks.contains_key(id)
            &&& after.sinks[id].mode == mode && after.sinks[id].capacity == capacity
                && after.sinks[id].dropped == 0 && after.sinks[id].frames.len() == 0
            &&& after.sinks.contains_key(other) == distributor.sinks.contains_key(other)
            &&& distributor.sinks.contains_key(other) ==> after.sinks[other]
                == distributor.sinks[other]
            &&& after.max_sinks == distributor.max_sinks && after.max_queue_depth
                == distributor.max_queue_depth
        }),
{
}

/// Handing out the newest frame empties the queue and counts all others as dropped; a queue
/// that is full loses its oldest frame to a new one, and counts it.
pub proof fn law_queues_count_what_they_lose(sink: SinkView, frame: SharedEncodedFrame)
    requires
        sink.is_bounded(),
        sink.dropped + sink.frames.len() <= u64::MAX,
    ensures
        ({
            let pushed = sink.spec_push(frame);
            let popped = sink.spec_popped();
            &&& pushed.mode == sink.mode && pushed.capacity == sink.capacity
            &&& popped.mode == sink.mode && popped.capacity == sink.capacity
            &&& sink.frames.len() == sink.capacity ==> pushed.dropped == sink.dropped + 1
            &&& sink.frames.len() < sink.capacity ==> pushed.dropped == sink.dropped
            &&& popped.frames.len() == 0
            &&& sink.frames.len() > 0 ==> popped.dropped == sink.dropped + sink.frames.len() - 1
            &&& sink.frames.len() == 0 ==> popped == sink && sink.spec_latest() is None
            &&& sink.frames.len() > 0 ==> sink.spec_latest() == Some(
                sink.frames[sink.frames.len() - 1].1,
            )
        }),
{
}

/// A new frame stands behind those that are queued, which keep their order; the oldest alone
/// makes room where there is none.
pub proof fn law_queued_frames_stay(sink: SinkView, frame: SharedEncodedFrame, i: int)
    requires
        sink.is_bounded(),
        forall|k: int|
            0 <= k < sink.frames.len() ==> (#[trigger] sink.frames[k]).0 < frame.meta.frame_id,
    ensures
        ({
            let pushed = sink.spec_push(frame);
            let lost: int = if sink.frames.len() == sink.capacity {
                1
            } else {
                0
            };
            &&& pushed.frames.len() == sink.frames.len() + 1 - lost
            &&& pushed.frames.last() == (frame.meta.frame_id, frame)
            &&& lost <= i < sink.frames.len() ==> pushed.frames[i - lost] == sink.frames[i]
        }),
{
    let lost = sink.spec_overflow();
    let kept = sink.frames.skip(lost);
    assert forall|k: int| 0 <= k < kept.len() implies (#[trigger] kept[k]).0
        < frame.meta.frame_id by {
        assert(kept[k] == sink.frames[k + lost]);
    }
    let len = kept.len() as int;
    crate::ordered::lemma_entries_parted(kept, frame.meta.frame_id.rank(), len, len);
    assert(kept.take(len) =~= kept);
    assert(kept.skip(len) =~= Seq::empty());
}

} // verus!
