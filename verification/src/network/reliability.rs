//! Sequence gaps on the receiving side, and the sender's short memory of what it sent.

use super::{MediaPacket, PacketView};
use crate::ordered::OrderedSet;
use std::collections::VecDeque;
use vstd::prelude::*;

verus! {

pub const MAX_TRACKED_GAP: u32 = 4_096;

#[derive(Debug, Clone, Copy, PartialEq, Eq, Structural)]
pub enum SequenceObservation {
    First,
    InOrder,
    Gap { missing: u32 },
    ReorderedOrDuplicate,
}

/// Tracks datagram sequence gaps without treating packet loss as a connection failure.
#[derive(Debug)]
pub struct SequenceTracker {
    highest: Option<u32>,
    missing: OrderedSet<u32>,
    received: u64,
    reordered_or_duplicate: u64,
}

/// What a tracker knows.
#[verifier::ext_equal]
pub struct TrackerView {
    pub highest: Option<u32>,
    pub missing: Set<u32>,
    pub received: u64,
    pub reordered_or_duplicate: u64,
}

/// The number `by` places behind `sequence`, where the largest is followed by zero.
pub open spec fn sequence_after(sequence: u32, by: int) -> u32 {
    ((sequence + by) % 0x1_0000_0000) as u32
}

/// How far `sequence` lies ahead of the one that is expected.
pub open spec fn sequence_ahead(sequence: u32, expected: u32) -> int {
    (sequence - expected) % 0x1_0000_0000
}

/// The `count` sequence numbers from `expected` on.
pub open spec fn sequence_run(expected: u32, count: int) -> Set<u32> {
    Set::new(|s: u32| sequence_ahead(s, expected) < count)
}

impl TrackerView {
    /// What is seen of a packet, and what is known after it. Numbers are compared in half of
    /// their range, so that they may wrap. Of a gap at most 4096 numbers are kept.
    pub open spec fn spec_observe(self, sequence: u32) -> (Self, SequenceObservation) {
        let counted = TrackerView { received: crate::counting::saturating_sum(self.received, 1), ..self };
        match self.highest {
            None => (
                TrackerView { highest: Some(sequence), ..counted },
                SequenceObservation::First,
            ),
            Some(highest) => {
                let expected = sequence_after(highest, 1);
                let ahead = sequence_ahead(sequence, expected);
                if ahead == 0 {
                    (
                        TrackerView { highest: Some(sequence), ..counted },
                        SequenceObservation::InOrder,
                    )
                } else if ahead < u32::MAX / 2 {
                    let kept_gap = if ahead < MAX_TRACKED_GAP {
                        ahead
                    } else {
                        MAX_TRACKED_GAP as int
                    };
                    (
                        TrackerView {
                            highest: Some(sequence),
                            missing: self.missing.union(sequence_run(expected, kept_gap)),
                            ..counted
                        },
                        SequenceObservation::Gap { missing: ahead as u32 },
                    )
                } else {
                    (
                        TrackerView {
                            missing: self.missing.remove(sequence),
                            reordered_or_duplicate: crate::counting::saturating_sum(self.reordered_or_duplicate, 1),
                            ..counted
                        },
                        SequenceObservation::ReorderedOrDuplicate,
                    )
                }
            },
        }
    }
}

impl View for SequenceTracker {
    type V = TrackerView;

    closed spec fn view(&self) -> TrackerView {
        TrackerView {
            highest: self.highest,
            missing: self.missing@,
            received: self.received,
            reordered_or_duplicate: self.reordered_or_duplicate,
        }
    }
}

impl Default for SequenceTracker {
    fn default() -> (tracker: Self)
        ensures
            tracker.wf(),
            tracker@ == (TrackerView {
                highest: None,
                missing: Set::empty(),
                received: 0,
                reordered_or_duplicate: 0,
            }),
    {
        SequenceTracker {
            highest: None,
            missing: OrderedSet::new(),
            received: 0,
            reordered_or_duplicate: 0,
        }
    }
}

impl SequenceTracker {
    /// The missing numbers are kept in order.
    pub closed spec fn wf(self) -> bool {
        self.missing.wf()
    }

    /// The missing numbers in ascending order.
    pub closed spec fn spec_missing_sequences(self) -> Seq<u32> {
        self.missing.spec_members()
    }

    /// Takes note of a packet's sequence number.
    pub fn observe(&mut self, sequence: u32) -> (observation: SequenceObservation)
        requires
            old(self).wf(),
        ensures
            final(self).wf(),
            final(self)@ == old(self)@.spec_observe(sequence).0,
            observation == old(self)@.spec_observe(sequence).1,
    {
        self.received = self.received.saturating_add(1);
        let highest: u32 = match self.highest {
            Some(highest) => highest,
            None => {
                self.highest = Some(sequence);
                return SequenceObservation::First;
            },
        };
        let expected: u32 = highest.wrapping_add(1);
        if sequence == expected {
            self.highest = Some(sequence);
            return SequenceObservation::InOrder;
        }
        let ahead: u32 = sequence.wrapping_sub(expected);
        if ahead < (u32::MAX / 2) {
            let kept_gap: u32 = if ahead < MAX_TRACKED_GAP {
                ahead
            } else {
                MAX_TRACKED_GAP
            };
            let mut offset: u32 = 0;
            proof {
                assert(self.missing@ =~= old(self)@.missing.union(sequence_run(expected, 0)));
            }
            while offset < kept_gap
                invariant
                    offset <= kept_gap,
                    self.missing.wf(),
                    self.missing@ == old(self)@.missing.union(
                        sequence_run(expected, offset as int),
                    ),
                    self.highest == old(self)@.highest,
                    self.received == crate::counting::saturating_sum(old(self)@.received, 1),
                    self.reordered_or_duplicate == old(self)@.reordered_or_duplicate,
                decreases kept_gap - offset,
            {
                let next: u32 = expected.wrapping_add(offset);
                self.missing.insert(next);
                proof {
                    assert forall|s: u32| #[trigger]
                        sequence_run(expected, offset + 1).contains(s) <==> sequence_run(
                            expected,
                            offset as int,
                        ).contains(s) || s == next by {
                        assert(sequence_ahead(s, expected) == offset <==> s == next);
                    }
                    assert(self.missing@ =~= old(self)@.missing.union(
                        sequence_run(expected, offset + 1),
                    ));
                }
                offset += 1;
            }
            self.highest = Some(sequence);
            return SequenceObservation::Gap { missing: ahead };
        }
        self.missing.remove(&sequence);
        self.reordered_or_duplicate = self.reordered_or_duplicate.saturating_add(1);
        SequenceObservation::ReorderedOrDuplicate
    }

    /// The numbers that were skipped and have not come since, in ascending order.
    #[must_use]
    pub fn missing_sequences(&self) -> (missing: Vec<u32>)
        requires
            self.wf(),
        ensures
            missing@ == self.spec_missing_sequences(),
            missing@.to_set() == self@.missing,
            crate::ordered::keys_ascend(missing@),
    {
        proof {
            self.missing.lemma_view();
        }
        self.missing.to_vec()
    }

    #[must_use]
    pub fn received(&self) -> (received: u64)
        ensures
            received == self@.received,
    {
        self.received
    }

    #[must_use]
    pub fn reordered_or_duplicate(&self) -> (count: u64)
        ensures
            count == self@.reordered_or_duplicate,
    {
        self.reordered_or_duplicate
    }
}

/// A late packet is no longer missing, whatever the tracker saw before, and nothing else
/// becomes so.
pub proof fn law_arrived_packets_are_not_missing(tracker: TrackerView, sequence: u32)
    requires
        tracker.spec_observe(sequence).1 is ReorderedOrDuplicate,
    ensures
        !tracker.spec_observe(sequence).0.missing.contains(sequence),
        tracker.spec_observe(sequence).0.missing.subset_of(tracker.missing),
        tracker.spec_observe(sequence).0.highest == tracker.highest,
{
}

/// The number that follows the newest one is in order, also where the numbers wrap.
pub proof fn law_next_sequence_is_in_order(tracker: TrackerView, highest: u32)
    requires
        tracker.highest == Some(highest),
    ensures
        tracker.spec_observe(sequence_after(highest, 1)).1 is InOrder,
        tracker.spec_observe(sequence_after(highest, 1)).0.missing == tracker.missing,
{
}

#[derive(Debug, Clone)]
struct CachedPacket {
    stored_at_us: u64,
    packet: MediaPacket,
}

/// Small time- and count-bounded cache used for NACK retransmission.
///
/// It is intentionally not a reliable queue: once media is too old, recovery should use a new
/// keyframe rather than increasing live latency.
#[derive(Debug)]
pub struct RetransmitCache {
    entries: VecDeque<CachedPacket>,
    max_packets: usize,
    max_age_us: u64,
}

/// A packet and when it was stored.
pub struct CachedView {
    pub stored_at_us: u64,
    pub packet: PacketView,
}

/// The packets from the oldest to the newest, and the limits.
pub struct CacheView {
    pub entries: Seq<CachedView>,
    pub max_packets: usize,
    pub max_age_us: u64,
}

impl CachedView {
    pub open spec fn is_for(self, frame_id: u64, packet_index: u16) -> bool {
        self.packet.header.frame_id == frame_id && self.packet.header.packet_index == packet_index
    }
}

/// The entries from the first on that is not too old.
pub open spec fn pruned(entries: Seq<CachedView>, max_age_us: u64, now_us: u64) -> Seq<CachedView>
    decreases entries.len(),
{
    if entries.len() > 0 && crate::counting::elapsed(now_us, entries[0].stored_at_us) > max_age_us {
        pruned(entries.skip(1), max_age_us, now_us)
    } else {
        entries
    }
}

/// The newest `count` entries.
pub open spec fn newest(entries: Seq<CachedView>, count: int) -> Seq<CachedView> {
    if entries.len() > count {
        entries.skip(entries.len() - count)
    } else {
        entries
    }
}

impl CacheView {
    pub open spec fn spec_prune(self, now_us: u64) -> Self {
        CacheView { entries: pruned(self.entries, self.max_age_us, now_us), ..self }
    }

    pub open spec fn spec_insert(self, now_us: u64, packet: PacketView) -> Self {
        CacheView {
            entries: newest(
                pruned(self.entries, self.max_age_us, now_us),
                self.max_packets - 1,
            ).push(CachedView { stored_at_us: now_us, packet }),
            ..self
        }
    }

    /// The newest packet with that index in that frame.
    pub open spec fn spec_find(self, frame_id: u64, packet_index: u16) -> Option<PacketView> {
        newest_packet(self.entries, frame_id, packet_index)
    }

    /// The cache after `packets` were stored in turn.
    pub open spec fn spec_insert_all(self, now_us: u64, packets: Seq<PacketView>) -> Self
        decreases packets.len(),
    {
        if packets.len() == 0 {
            self
        } else {
            self.spec_insert_all(now_us, packets.drop_last()).spec_insert(now_us, packets.last())
        }
    }
}

/// The last of the entries that has that index in that frame.
pub open spec fn newest_packet(
    entries: Seq<CachedView>,
    frame_id: u64,
    packet_index: u16,
) -> Option<PacketView>
    decreases entries.len(),
{
    if entries.len() == 0 {
        None
    } else if entries.last().is_for(frame_id, packet_index) {
        Some(entries.last().packet)
    } else {
        newest_packet(entries.drop_last(), frame_id, packet_index)
    }
}

spec fn cached_view(entry: CachedPacket) -> CachedView {
    CachedView { stored_at_us: entry.stored_at_us, packet: entry.packet@ }
}

impl View for RetransmitCache {
    type V = CacheView;

    closed spec fn view(&self) -> CacheView {
        CacheView {
            entries: Seq::new(self.entries@.len(), |i: int| cached_view(self.entries@[i])),
            max_packets: self.max_packets,
            max_age_us: self.max_age_us,
        }
    }
}

impl RetransmitCache {
    /// The cache holds at least one packet, and never more than its limit.
    pub closed spec fn wf(self) -> bool {
        0 < self.max_packets && self.entries@.len() <= self.max_packets
    }

    #[must_use]
    pub fn new(max_packets: usize, max_age_us: u64) -> (cache: Self)
        requires
            max_packets > 0,
        ensures
            cache.wf(),
            cache@ == (CacheView { entries: Seq::empty(), max_packets, max_age_us }),
    {
        let cache = RetransmitCache { entries: VecDeque::new(), max_packets, max_age_us };
        proof {
            assert(cache@.entries =~= Seq::<CachedView>::empty());
        }
        cache
    }

    /// Stores a packet, after what is too old and what there is no room for has gone.
    pub fn insert(&mut self, now_us: u64, packet: MediaPacket)
        requires
            old(self).wf(),
        ensures
            final(self).wf(),
            final(self)@ == old(self)@.spec_insert(now_us, packet@),
            final(self)@.entries.len() <= final(self)@.max_packets,
    {
        self.prune(now_us);
        let ghost kept = self@.entries;
        let ghost mut gone: int = 0;
        proof {
            assert(kept.skip(0) =~= kept);
        }
        while self.entries.len() >= self.max_packets
            invariant
                0 < self.max_packets,
                self.max_packets == old(self)@.max_packets,
                self.max_age_us == old(self)@.max_age_us,
                0 <= gone <= kept.len(),
                gone == 0 || kept.len() - gone >= self.max_packets - 1,
                self@.entries == kept.skip(gone),
            decreases kept.len() - gone,
        {
            let ghost before = self@.entries;
            assert(before.len() == self.entries@.len());
            let _oldest = self.entries.pop_front();
            proof {
                assert(self@.entries =~= before.skip(1));
                assert(kept.skip(gone).skip(1) =~= kept.skip(gone + 1));
                gone = gone + 1;
            }
        }
        proof {
            assert(self@.entries =~= newest(kept, self.max_packets - 1));
        }
        let ghost entry = CachedPacket { stored_at_us: now_us, packet };
        self.entries.push_back(CachedPacket { stored_at_us: now_us, packet });
        proof {
            assert(self@.entries =~= newest(kept, self.max_packets - 1).push(cached_view(entry)));
        }
    }

    /// Forgets the oldest packets up to the first that is young enough.
    pub fn prune(&mut self, now_us: u64)
        requires
            old(self).wf(),
        ensures
            final(self).wf(),
            final(self)@ == old(self)@.spec_prune(now_us),
    {
        while self.entries.len() > 0 && now_us.saturating_sub(self.entries[0].stored_at_us)
            > self.max_age_us
            invariant
                self.wf(),
                self.max_packets == old(self)@.max_packets,
                self.max_age_us == old(self)@.max_age_us,
                pruned(self@.entries, self.max_age_us, now_us) == pruned(
                    old(self)@.entries,
                    self.max_age_us,
                    now_us,
                ),
            ensures
                self@.entries == pruned(self@.entries, self.max_age_us, now_us),
            decreases self.entries@.len(),
        {
            let ghost before = self@.entries;
            let _oldest = self.entries.pop_front();
            proof {
                assert(self@.entries =~= before.skip(1));
            }
        }
    }

    /// The newest packet with that index in that frame.
    #[must_use]
    pub fn find(&self, frame_id: u64, packet_index: u16) -> (packet: Option<&MediaPacket>)
        ensures
            match (packet, self@.spec_find(frame_id, packet_index)) {
                (Some(packet), Some(expected)) => packet@ == expected,
                (None, None) => true,
                _ => false,
            },
    {
        let mut i: usize = self.entries.len();
        proof {
            assert(self@.entries.take(i as int) =~= self@.entries);
        }
        while i > 0
            invariant
                i <= self.entries@.len(),
                self@.spec_find(frame_id, packet_index) == newest_packet(
                    self@.entries.take(i as int),
                    frame_id,
                    packet_index,
                ),
            decreases i,
        {
            proof {
                assert(self@.entries.take(i as int).drop_last() =~= self@.entries.take(i - 1));
            }
            i -= 1;
            let entry = &self.entries[i];
            assert(self@.entries[i as int] == cached_view(*entry));
            if entry.packet.header.frame_id == frame_id && entry.packet.header.packet_index
                == packet_index {
                return Some(&entry.packet);
            }
        }
        None
    }

    #[must_use]
    pub fn len(&self) -> (len: usize)
        ensures
            len == self@.entries.len(),
    {
        self.entries.len()
    }

    #[must_use]
    pub fn is_empty(&self) -> (empty: bool)
        ensures
            empty == (self@.entries.len() == 0),
    {
        self.entries.len() == 0
    }
}

/// What was just stored is found again.
pub proof fn law_stored_packet_is_found(cache: CacheView, now_us: u64, packet: PacketView)
    ensures
        cache.spec_insert(now_us, packet).spec_find(
            packet.header.frame_id,
            packet.header.packet_index,
        ) == Some(packet),
{
}

/// Pruning stops at the latest at the last entry that is young enough.
pub proof fn lemma_young_last_is_kept(entries: Seq<CachedView>, max_age_us: u64, now_us: u64)
    requires
        entries.len() > 0,
        crate::counting::elapsed(now_us, entries.last().stored_at_us) <= max_age_us,
    ensures
        pruned(entries, max_age_us, now_us).len() > 0,
        pruned(entries, max_age_us, now_us).last() == entries.last(),
    decreases entries.len(),
{
    if crate::counting::elapsed(now_us, entries[0].stored_at_us) > max_age_us {
        assert(entries.len() > 1);
        assert(entries.skip(1).last() == entries.last());
        lemma_young_last_is_kept(entries.skip(1), max_age_us, now_us);
    }
}

/// Whatever stands in the cache behind what was pruned, the oldest packet left is young enough.
pub proof fn law_pruned_cache_starts_young(cache: CacheView, now_us: u64)
    ensures
        ({
            let after = cache.spec_prune(now_us).entries;
            after.len() > 0 ==> crate::counting::elapsed(now_us, after[0].stored_at_us) <= cache.max_age_us
        }),
        cache.spec_prune(now_us).entries.len() <= cache.entries.len(),
    decreases cache.entries.len(),
{
    if cache.entries.len() > 0 && crate::counting::elapsed(now_us, cache.entries[0].stored_at_us)
        > cache.max_age_us {
        law_pruned_cache_starts_young(
            CacheView { entries: cache.entries.skip(1), ..cache },
            now_us,
        );
    }
}

/// The packets were stored one after the other, as the clock went.
pub open spec fn stored_in_time(entries: Seq<CachedView>) -> bool {
    forall|i: int, j: int|
        #![trigger entries[i], entries[j]]
        0 <= i <= j < entries.len() ==> entries[i].stored_at_us <= entries[j].stored_at_us
}

/// Pruning takes away from the front only.
proof fn lemma_pruned_is_a_rest(entries: Seq<CachedView>, max_age_us: u64, now_us: u64)
    ensures
        pruned(entries, max_age_us, now_us).len() <= entries.len(),
        pruned(entries, max_age_us, now_us) == entries.skip(
            entries.len() - pruned(entries, max_age_us, now_us).len(),
        ),
        forall|i: int|
            0 <= i < entries.len() - pruned(entries, max_age_us, now_us).len()
                ==> crate::counting::elapsed(now_us, (#[trigger] entries[i]).stored_at_us)
                > max_age_us,
    decreases entries.len(),
{
    if entries.len() > 0 && crate::counting::elapsed(now_us, entries[0].stored_at_us)
        > max_age_us {
        let rest = entries.skip(1);
        let after = pruned(rest, max_age_us, now_us);
        lemma_pruned_is_a_rest(rest, max_age_us, now_us);
        assert(rest.skip(rest.len() - after.len()) =~= entries.skip(entries.len() - after.len()));
        assert forall|i: int| 0 <= i < entries.len() - after.len() implies crate::counting::elapsed(
            now_us,
            (#[trigger] entries[i]).stored_at_us,
        ) > max_age_us by {
            if i > 0 {
                assert(rest[i - 1] == entries[i]);
            }
        }
    } else {
        assert(entries.skip(0) =~= entries);
    }
}

/// Where the packets were stored in time, pruning keeps exactly those that are young enough, in
/// their order.
pub proof fn law_exactly_the_young_packets_stay(cache: CacheView, now_us: u64)
    requires
        stored_in_time(cache.entries),
    ensures
        ({
            let after = cache.spec_prune(now_us).entries;
            let gone = cache.entries.len() - after.len();
            &&& 0 <= gone
            &&& after == cache.entries.skip(gone)
            &&& forall|i: int|
                0 <= i < cache.entries.len() ==> (i >= gone <==> crate::counting::elapsed(
                    now_us,
                    (#[trigger] cache.entries[i]).stored_at_us,
                ) <= cache.max_age_us)
        }),
{
    let after = cache.spec_prune(now_us).entries;
    let gone = cache.entries.len() - after.len();
    lemma_pruned_is_a_rest(cache.entries, cache.max_age_us, now_us);
    law_pruned_cache_starts_young(cache, now_us);
    assert forall|i: int| gone <= i < cache.entries.len() implies crate::counting::elapsed(
        now_us,
        (#[trigger] cache.entries[i]).stored_at_us,
    ) <= cache.max_age_us by {
        assert(after[0] == cache.entries[gone]);
        assert(cache.entries[gone].stored_at_us <= cache.entries[i].stored_at_us);
    }
}

/// Packets that are stored as the clock goes stay stored in time.
pub proof fn law_stored_packets_stay_in_time(cache: CacheView, now_us: u64, packet: PacketView)
    requires
        cache.max_packets > 0,
        stored_in_time(cache.entries),
        cache.entries.len() > 0 ==> cache.entries.last().stored_at_us <= now_us,
    ensures
        stored_in_time(cache.spec_insert(now_us, packet).entries),
        stored_in_time(cache.spec_prune(now_us).entries),
{
    let kept = cache.spec_prune(now_us).entries;
    let room = newest(kept, cache.max_packets - 1);
    lemma_pruned_is_a_rest(cache.entries, cache.max_age_us, now_us);
    let gone = cache.entries.len() - room.len();
    assert(room =~= cache.entries.skip(gone));
    let after = cache.spec_insert(now_us, packet).entries;
    assert forall|i: int, j: int|
        #![trigger after[i], after[j]]
        0 <= i <= j < after.len() implies after[i].stored_at_us <= after[j].stored_at_us by {
        if i < room.len() {
            assert(after[i] == cache.entries[gone + i]);
            if j < room.len() {
                assert(after[j] == cache.entries[gone + j]);
            } else {
                assert(cache.entries[gone + i].stored_at_us
                    <= cache.entries[cache.entries.len() - 1].stored_at_us);
            }
        }
    }
    assert forall|i: int, j: int|
        #![trigger kept[i], kept[j]]
        0 <= i <= j < kept.len() implies kept[i].stored_at_us <= kept[j].stored_at_us by {
        let dropped = cache.entries.len() - kept.len();
        assert(cache.entries[dropped + i].stored_at_us <= cache.entries[dropped + j].stored_at_us);
    }
}

/// Pruning goes no further than to an entry that is young enough.
proof fn lemma_prune_stops_at_the_young(
    entries: Seq<CachedView>,
    max_age_us: u64,
    now_us: u64,
    at: int,
)
    requires
        0 <= at < entries.len(),
        crate::counting::elapsed(now_us, entries[at].stored_at_us) <= max_age_us,
    ensures
        pruned(entries, max_age_us, now_us).len() >= entries.len() - at,
{
    lemma_pruned_is_a_rest(entries, max_age_us, now_us);
}

/// The cache ends with `packets`, all stored at one time.
spec fn ends_with(cache: CacheView, stored_at_us: u64, packets: Seq<PacketView>) -> bool {
    &&& cache.entries.len() >= packets.len()
    &&& forall|j: int|
        0 <= j < packets.len() ==> #[trigger] cache.entries[cache.entries.len() - packets.len() + j]
            == (CachedView { stored_at_us, packet: packets[j] })
}

/// Packets that are stored together are all kept, where there is room for so many.
proof fn lemma_stored_together(cache: CacheView, stored_at_us: u64, packets: Seq<PacketView>)
    requires
        packets.len() <= cache.max_packets,
    ensures
        cache.spec_insert_all(stored_at_us, packets).max_packets == cache.max_packets,
        cache.spec_insert_all(stored_at_us, packets).max_age_us == cache.max_age_us,
        ends_with(cache.spec_insert_all(stored_at_us, packets), stored_at_us, packets),
    decreases packets.len(),
{
    if packets.len() > 0 {
        let front = packets.drop_last();
        let before = cache.spec_insert_all(stored_at_us, front);
        let after = cache.spec_insert_all(stored_at_us, packets);
        lemma_stored_together(cache, stored_at_us, front);
        let kept = pruned(before.entries, before.max_age_us, stored_at_us);
        lemma_pruned_is_a_rest(before.entries, before.max_age_us, stored_at_us);
        if front.len() > 0 {
            let at = before.entries.len() - front.len();
            assert(before.entries[at + 0] == (CachedView { stored_at_us, packet: front[0] }));
            lemma_prune_stops_at_the_young(before.entries, before.max_age_us, stored_at_us, at);
        }
        let room = newest(kept, before.max_packets - 1);
        let gone = before.entries.len() - room.len();
        assert(room =~= before.entries.skip(gone));
        assert forall|j: int| 0 <= j < packets.len() implies #[trigger] after.entries[
        after.entries.len() - packets.len() + j] == (CachedView {
            stored_at_us,
            packet: packets[j],
        }) by {
            if j < front.len() {
                let at = before.entries.len() - front.len() + j;
                assert(before.entries[at] == (CachedView { stored_at_us, packet: front[j] }));
                assert(after.entries[after.entries.len() - packets.len() + j] == room[at - gone]);
            }
        }
    }
}

/// What is found is the entry behind which none is for the same packet.
proof fn lemma_newest_packet(
    entries: Seq<CachedView>,
    frame_id: u64,
    packet_index: u16,
    at: int,
)
    requires
        0 <= at < entries.len(),
        entries[at].is_for(frame_id, packet_index),
        forall|j: int|
            at < j < entries.len() ==> !(#[trigger] entries[j]).is_for(frame_id, packet_index),
    ensures
        newest_packet(entries, frame_id, packet_index) == Some(entries[at].packet),
    decreases entries.len(),
{
    if at < entries.len() - 1 {
        assert(!entries[entries.len() - 1].is_for(frame_id, packet_index));
        let front = entries.drop_last();
        assert forall|j: int| at < j < front.len() implies !(#[trigger] front[j]).is_for(
            frame_id,
            packet_index,
        ) by {
            assert(front[j] == entries[j]);
        }
        lemma_newest_packet(front, frame_id, packet_index, at);
    }
}

/// Of packets that were stored together and fit into the cache, each is found until they are too
/// old, where none behind it is for the same place in the same frame.
pub proof fn law_packets_are_found_while_fresh(
    cache: CacheView,
    stored_at_us: u64,
    packets: Seq<PacketView>,
    now_us: u64,
    i: int,
)
    requires
        packets.len() <= cache.max_packets,
        crate::counting::elapsed(now_us, stored_at_us) <= cache.max_age_us,
        0 <= i < packets.len(),
        forall|j: int|
            i < j < packets.len() ==> (#[trigger] packets[j]).header.frame_id
                != packets[i].header.frame_id || packets[j].header.packet_index
                != packets[i].header.packet_index,
    ensures
        cache.spec_insert_all(stored_at_us, packets).spec_prune(now_us).spec_find(
            packets[i].header.frame_id,
            packets[i].header.packet_index,
        ) == Some(packets[i]),
{
    let stored = cache.spec_insert_all(stored_at_us, packets);
    lemma_stored_together(cache, stored_at_us, packets);
    let first = stored.entries.len() - packets.len();
    assert(stored.entries[first + 0] == (CachedView { stored_at_us, packet: packets[0] }));
    lemma_prune_stops_at_the_young(stored.entries, stored.max_age_us, now_us, first);
    lemma_pruned_is_a_rest(stored.entries, stored.max_age_us, now_us);
    let left = stored.spec_prune(now_us).entries;
    let gone = stored.entries.len() - left.len();
    let frame_id = packets[i].header.frame_id;
    let packet_index = packets[i].header.packet_index;
    let at = first + i - gone;
    assert(left[at] == stored.entries[first + i]);
    assert forall|j: int| at < j < left.len() implies !(#[trigger] left[j]).is_for(
        frame_id,
        packet_index,
    ) by {
        let p = j + gone - first;
        assert(left[j] == stored.entries[first + p]);
        assert(stored.entries[first + p].packet == packets[p]);
    }
    lemma_newest_packet(left, frame_id, packet_index, at);
}

/// Numbers go round: the one after the last is the first, and the distance undoes the step.
pub proof fn law_sequence_numbers_go_round(sequence: u32, by: int)
    requires
        0 <= by < 0x1_0000_0000,
    ensures
        sequence + by <= u32::MAX ==> sequence_after(sequence, by) == sequence + by,
        sequence + by > u32::MAX ==> sequence_after(sequence, by) == sequence + by - 0x1_0000_0000,
        sequence_ahead(sequence_after(sequence, by), sequence) == by,
{
}

/// A packet that skips some makes just these missing, as many as are tracked, and the number that
/// is told is that of all that were skipped. Every packet counts, one from before counts as such,
/// and no packet that was missing before is forgotten but the one that has come.
pub proof fn law_skipped_packets_are_missing(
    tracker: TrackerView,
    highest: u32,
    skipped: int,
    other: u32,
)
    requires
        tracker.highest == Some(highest),
        0 <= skipped < 0xFFFF_FFFF,
    ensures
        ({
            let expected = sequence_after(highest, 1);
            let sequence = sequence_after(expected, skipped);
            let after = tracker.spec_observe(sequence).0;
            let seen = tracker.spec_observe(sequence).1;
            let ahead = sequence_ahead(other, expected);
            &&& skipped == 0 ==> seen is InOrder && after.missing == tracker.missing
                && after.highest == Some(sequence)
            &&& 0 < skipped < 0x7FFF_FFFF ==> {
                &&& seen == (SequenceObservation::Gap { missing: skipped as u32 })
                &&& after.highest == Some(sequence)
                &&& after.reordered_or_duplicate == tracker.reordered_or_duplicate
                &&& after.missing.contains(other) <==> tracker.missing.contains(other) || (ahead
                    < skipped && ahead < 4096)
            }
            &&& skipped >= 0x7FFF_FFFF ==> {
                &&& seen is ReorderedOrDuplicate
                &&& after.highest == tracker.highest
                &&& after.missing.contains(other) <==> tracker.missing.contains(other) && other
                    != sequence
                &&& tracker.reordered_or_duplicate < u64::MAX ==> after.reordered_or_duplicate
                    == tracker.reordered_or_duplicate + 1
            }
            &&& tracker.received < u64::MAX ==> after.received == tracker.received + 1
        }),
{
}

/// The first packet is the highest, whatever its number is, and makes none missing.
pub proof fn law_first_packet_starts(tracker: TrackerView, sequence: u32)
    requires
        tracker.highest is None,
    ensures
        tracker.spec_observe(sequence).1 is First,
        tracker.spec_observe(sequence).0.highest == Some(sequence),
        tracker.spec_observe(sequence).0.missing == tracker.missing,
        tracker.received < u64::MAX ==> tracker.spec_observe(sequence).0.received
            == tracker.received + 1,
{
}

/// A packet that is stored pushes out the oldest only where there is no room, and all others of
/// those that are young enough stay, in their order.
pub proof fn law_storing_keeps_the_newest(cache: CacheView, now_us: u64, packet: PacketView, i: int)
    requires
        cache.max_packets > 0,
        cache.entries.len() <= cache.max_packets,
        0 <= i < cache.spec_prune(now_us).entries.len(),
    ensures
        ({
            let young = cache.spec_prune(now_us).entries;
            let after = cache.spec_insert(now_us, packet);
            let lost: int = if young.len() == cache.max_packets {
                1
            } else {
                0
            };
            &&& after.max_packets == cache.max_packets && after.max_age_us == cache.max_age_us
            &&& after.entries.len() == young.len() + 1 - lost
            &&& after.entries.last() == (CachedView { stored_at_us: now_us, packet })
            &&& i >= lost ==> after.entries[i - lost] == young[i]
        }),
{
    law_pruned_cache_starts_young(cache, now_us);
}

/// What is found is the newest packet with that frame and place, and none is found only where
/// there is none.
pub proof fn law_newest_packet_is_found(
    entries: Seq<CachedView>,
    frame_id: u64,
    packet_index: u16,
    i: int,
)
    requires
        0 <= i < entries.len(),
        entries[i].packet.header.frame_id == frame_id,
        entries[i].packet.header.packet_index == packet_index,
        forall|j: int|
            i < j < entries.len() ==> (#[trigger] entries[j]).packet.header.frame_id != frame_id
                || entries[j].packet.header.packet_index != packet_index,
    ensures
        newest_packet(entries, frame_id, packet_index) == Some(entries[i].packet),
    decreases entries.len(),
{
    if i < entries.len() - 1 {
        assert(!entries[entries.len() - 1].is_for(frame_id, packet_index));
        law_newest_packet_is_found(entries.drop_last(), frame_id, packet_index, i);
    }
}

/// A packet that is found is one of those in the cache, and it is the one that was asked for.
pub proof fn law_found_packet_was_stored(
    entries: Seq<CachedView>,
    frame_id: u64,
    packet_index: u16,
)
    ensures
        newest_packet(entries, frame_id, packet_index) matches Some(packet) ==> {
            &&& packet.header.frame_id == frame_id
            &&& packet.header.packet_index == packet_index
            &&& exists|i: int| 0 <= i < entries.len() && (#[trigger] entries[i]).packet == packet
        },
    decreases entries.len(),
{
    if entries.len() > 0 {
        let front = entries.drop_last();
        law_found_packet_was_stored(front, frame_id, packet_index);
        if !entries.last().is_for(frame_id, packet_index) {
            if newest_packet(front, frame_id, packet_index) is Some {
                let packet = newest_packet(front, frame_id, packet_index)->Some_0;
                let i = choose|i: int| 0 <= i < front.len() && (#[trigger] front[i]).packet
                    == packet;
                assert(entries[i].packet == packet);
            }
        } else {
            assert(entries[entries.len() - 1].packet == entries.last().packet);
        }
    }
}

} // verus!
