//! Which receivers share a stream.

use super::adaptation::{QualityTier, StreamDecision};
use super::MediaTransport;
use crate::ordered::{OrderedKey, OrderedMap};
use vstd::prelude::*;

verus! {

#[derive(Debug, Clone, Copy, PartialEq, Eq, PartialOrd, Ord, Hash, Structural)]
pub struct ReceiverId(pub u64);

impl OrderedKey for ReceiverId {
    open spec fn rank(self) -> int {
        self.0 as int
    }

    proof fn lemma_rank_injective(a: Self, b: Self) {
    }

    fn precedes(&self, other: &Self) -> (before: bool) {
        self.0 < other.0
    }
}

#[derive(Debug, Clone, Copy, PartialEq, Eq, PartialOrd, Ord, Hash, Structural)]
pub enum CohortKind {
    WiredMulticast,
    DirectUnicast,
    WebRtc,
    ReliableFallback,
}

impl CohortKind {
    /// The kind of the cohort that a transport serves.
    pub open spec fn spec_from_transport(transport: MediaTransport) -> Self {
        match transport {
            MediaTransport::UdpMulticast => CohortKind::WiredMulticast,
            MediaTransport::UdpUnicast => CohortKind::DirectUnicast,
            MediaTransport::QuicDatagram => CohortKind::DirectUnicast,
            MediaTransport::WebRtc => CohortKind::WebRtc,
            MediaTransport::ReliableFallback => CohortKind::ReliableFallback,
        }
    }

    #[must_use]
    pub fn from_transport(transport: MediaTransport) -> (kind: Self)
        ensures
            kind == Self::spec_from_transport(transport),
    {
        match transport {
            MediaTransport::UdpMulticast => CohortKind::WiredMulticast,
            MediaTransport::UdpUnicast => CohortKind::DirectUnicast,
            MediaTransport::QuicDatagram => CohortKind::DirectUnicast,
            MediaTransport::WebRtc => CohortKind::WebRtc,
            MediaTransport::ReliableFallback => CohortKind::ReliableFallback,
        }
    }

    /// The kind's place in the order of their declaration.
    pub open spec fn spec_place(self) -> int {
        match self {
            CohortKind::WiredMulticast => 0,
            CohortKind::DirectUnicast => 1,
            CohortKind::WebRtc => 2,
            CohortKind::ReliableFallback => 3,
        }
    }

    /// The kind's place in the order of their declaration.
    #[must_use]
    pub fn place(self) -> (place: u8)
        ensures
            place == self.spec_place(),
    {
        match self {
            CohortKind::WiredMulticast => 0,
            CohortKind::DirectUnicast => 1,
            CohortKind::WebRtc => 2,
            CohortKind::ReliableFallback => 3,
        }
    }
}

#[derive(Debug, Clone, Copy, PartialEq, Eq, PartialOrd, Ord, Hash, Structural)]
pub struct CohortKey {
    pub kind: CohortKind,
    pub tier: QualityTier,
}

impl OrderedKey for CohortKey {
    open spec fn rank(self) -> int {
        4 * self.kind.spec_place() + self.tier.spec_rank()
    }

    proof fn lemma_rank_injective(a: Self, b: Self) {
    }

    fn precedes(&self, other: &Self) -> (before: bool) {
        4 * self.kind.place() + self.tier.rank() < 4 * other.kind.place() + other.tier.rank()
    }
}

#[derive(Debug, Clone, Copy, PartialEq, Eq, Structural)]
pub struct ReceiverRoute {
    pub receiver: ReceiverId,
    pub cohort: CohortKey,
}

/// Maintains per-receiver routing without allowing one outlier to downgrade healthy peers.
#[derive(Debug)]
pub struct CohortRouter {
    routes: OrderedMap<ReceiverId, CohortKey>,
}

impl View for CohortRouter {
    type V = Map<ReceiverId, CohortKey>;

    closed spec fn view(&self) -> Map<ReceiverId, CohortKey> {
        self.routes@
    }
}

/// The cohort that a decision leads to.
pub open spec fn spec_cohort(decision: StreamDecision) -> CohortKey {
    CohortKey {
        kind: CohortKind::spec_from_transport(decision.transport),
        tier: decision.tier,
    }
}

/// The receivers of a cohort.
pub open spec fn spec_members(routes: Map<ReceiverId, CohortKey>, cohort: CohortKey) -> Set<
    ReceiverId,
> {
    Set::new(|r: ReceiverId| routes.contains_key(r) && routes[r] == cohort)
}

/// The number of receivers of every cohort that has any.
pub open spec fn is_cohort_count(
    counts: Map<CohortKey, usize>,
    routes: Map<ReceiverId, CohortKey>,
) -> bool {
    &&& forall|c: CohortKey| #[trigger]
        counts.contains_key(c) <==> exists|r: ReceiverId| spec_members(routes, c).contains(r)
    &&& forall|c: CohortKey| #[trigger]
        counts.contains_key(c) ==> counts[c] == spec_members(routes, c).len()
}

/// All counts together.
pub open spec fn total_of(counts: Seq<(CohortKey, usize)>) -> nat
    decreases counts.len(),
{
    if counts.len() == 0 {
        0
    } else {
        total_of(counts.drop_last()) + counts.last().1 as nat
    }
}

/// The receivers of a cohort among the first routes.
spec fn members_before(
    entries: Seq<(ReceiverId, CohortKey)>,
    count: int,
    cohort: CohortKey,
) -> Set<ReceiverId> {
    Set::new(
        |r: ReceiverId|
            exists|i: int| 0 <= i < count && #[trigger] entries[i] == (r, cohort),
    )
}

/// How one more route changes the receivers of a cohort.
proof fn lemma_one_more_member(
    entries: Seq<(ReceiverId, CohortKey)>,
    count: int,
    cohort: CohortKey,
)
    requires
        crate::ordered::ascending(entries),
        0 <= count < entries.len(),
    ensures
        members_before(entries, count + 1, cohort) == if entries[count].1 == cohort {
            members_before(entries, count, cohort).insert(entries[count].0)
        } else {
            members_before(entries, count, cohort)
        },
        !members_before(entries, count, cohort).contains(entries[count].0),
{
    let before = members_before(entries, count, cohort);
    let after = members_before(entries, count + 1, cohort);
    assert forall|r: ReceiverId| #[trigger] after.contains(r) <==> (before.contains(r) || (
    entries[count].1 == cohort && r == entries[count].0)) by {
        if after.contains(r) {
            let i = choose|i: int| 0 <= i < count + 1 && #[trigger] entries[i] == (r, cohort);
            if i < count {
                assert(before.contains(r));
            }
        }
        if before.contains(r) {
            let i = choose|i: int| 0 <= i < count && #[trigger] entries[i] == (r, cohort);
            assert(0 <= i < count + 1 && entries[i] == (r, cohort));
        }
        if entries[count].1 == cohort && r == entries[count].0 {
            assert(entries[count] == (r, cohort));
        }
    }
    if entries[count].1 == cohort {
        assert(after =~= before.insert(entries[count].0));
    } else {
        assert(after =~= before);
    }
    if before.contains(entries[count].0) {
        let i = choose|i: int|
            0 <= i < count && #[trigger] entries[i] == (entries[count].0, cohort);
        assert(entries[i].0.rank() < entries[count].0.rank());
    }
}

impl Default for CohortRouter {
    fn default() -> (router: Self)
        ensures
            router.wf(),
            router@ == Map::<ReceiverId, CohortKey>::empty(),
    {
        CohortRouter { routes: OrderedMap::new() }
    }
}

impl CohortRouter {
    /// The routes are in order.
    pub closed spec fn wf(self) -> bool {
        self.routes.wf()
    }

    pub fn update(&mut self, receiver: ReceiverId, decision: StreamDecision) -> (route:
        ReceiverRoute)
        requires
            old(self).wf(),
        ensures
            final(self).wf(),
            final(self)@ == old(self)@.insert(receiver, spec_cohort(decision)),
            route == (ReceiverRoute { receiver, cohort: spec_cohort(decision) }),
    {
        let cohort = CohortKey {
            kind: CohortKind::from_transport(decision.transport),
            tier: decision.tier,
        };
        let _ = self.routes.insert(receiver, cohort);
        ReceiverRoute { receiver, cohort }
    }

    /// Takes a receiver out, and tells whether it was there.
    pub fn remove(&mut self, receiver: ReceiverId) -> (removed: bool)
        requires
            old(self).wf(),
        ensures
            final(self).wf(),
            final(self)@ == old(self)@.remove(receiver),
            removed == old(self)@.contains_key(receiver),
    {
        self.routes.remove(&receiver).is_some()
    }

    #[must_use]
    pub fn route(&self, receiver: ReceiverId) -> (cohort: Option<CohortKey>)
        requires
            self.wf(),
        ensures
            cohort == if self@.contains_key(receiver) {
                Some(self@[receiver])
            } else {
                None
            },
    {
        match self.routes.get(&receiver) {
            Some(cohort) => Some(*cohort),
            None => None,
        }
    }

    /// The receivers of a cohort, in ascending order.
    #[must_use]
    pub fn members(&self, cohort: CohortKey) -> (members: Vec<ReceiverId>)
        requires
            self.wf(),
        ensures
            crate::ordered::lists(members@, spec_members(self@, cohort)),
    {
        let mut members: Vec<ReceiverId> = Vec::new();
        let mut i: usize = 0;
        let ghost entries = self.routes.spec_entries();
        proof {
            self.routes.lemma_view();
        }
        while i < self.routes.len()
            invariant
                self.wf(),
                entries == self.routes.spec_entries(),
                crate::ordered::ascending(entries),
                i <= entries.len(),
                crate::ordered::keys_ascend(members@),
                forall|r: ReceiverId| #[trigger]
                    members@.contains(r) <==> members_before(entries, i as int, cohort).contains(r),
            decreases entries.len() - i,
        {
            let ghost before = members@;
            proof {
                lemma_one_more_member(entries, i as int, cohort);
            }
            if *self.routes.value_at(i) == cohort {
                let receiver = self.routes.key_at(i);
                proof {
                    assert forall|j: int| 0 <= j < before.len() implies (
                    #[trigger] before[j]).rank() < receiver.rank() by {
                        assert(before.contains(before[j]));
                        let k = choose|k: int|
                            0 <= k < i && #[trigger] entries[k] == (before[j], cohort);
                        assert(entries[k].0.rank() < entries[i as int].0.rank());
                    }
                }
                members.push(receiver);
                proof {
                    assert forall|r: ReceiverId| #[trigger] members@.contains(r) <==> (
                    before.contains(r) || r == receiver) by {
                        if before.contains(r) {
                            let j = choose|j: int| 0 <= j < before.len() && before[j] == r;
                            assert(members@[j] == r);
                        }
                        if r == receiver {
                            assert(members@[before.len() as int] == r);
                        }
                        if members@.contains(r) {
                            let j = choose|j: int| 0 <= j < members@.len() && members@[j] == r;
                            if j < before.len() {
                                assert(before[j] == r);
                            }
                        }
                    }
                }
            }
            i += 1;
        }
        proof {
            self.routes.lemma_view();
            assert forall|r: ReceiverId| members_before(
                entries,
                entries.len() as int,
                cohort,
            ).contains(r) <==> #[trigger] spec_members(self@, cohort).contains(r) by {
                if self@.contains_key(r) {
                    let k = choose|k: int|
                        0 <= k < entries.len() && (#[trigger] entries[k]).0 == r;
                    if self@[r] == cohort {
                        assert(entries[k] == (r, cohort));
                    }
                }
            }
            assert(members@.to_set() =~= spec_members(self@, cohort));
        }
        members
    }

    /// The number of receivers of every cohort that has any.
    #[must_use]
    pub fn cohort_counts(&self) -> (counts: OrderedMap<CohortKey, usize>)
        requires
            self.wf(),
        ensures
            counts.wf(),
            is_cohort_count(counts@, self@),
            total_of(counts.spec_entries()) == self@.dom().len(),
    {
        let mut counts: OrderedMap<CohortKey, usize> = OrderedMap::new();
        let mut i: usize = 0;
        let ghost entries = self.routes.spec_entries();
        proof {
            self.routes.lemma_view();
            assert forall|c: CohortKey| #[trigger]
                members_before(entries, 0, c) =~= Set::<ReceiverId>::empty() by {}
        }
        let total: usize = self.routes.len();
        while i < total
            invariant
                self.wf(),
                entries == self.routes.spec_entries(),
                crate::ordered::ascending(entries),
                entries.len() == total,
                i <= entries.len(),
                counts.wf(),
                forall|c: CohortKey|
                    (#[trigger] members_before(entries, i as int, c)).finite() && members_before(
                        entries,
                        i as int,
                        c,
                    ).len() <= i,
                forall|c: CohortKey| #[trigger]
                    counts@.contains_key(c) <==> members_before(entries, i as int, c).len() > 0,
                forall|c: CohortKey| #[trigger]
                    counts@.contains_key(c) ==> counts@[c] == members_before(
                        entries,
                        i as int,
                        c,
                    ).len(),
            decreases entries.len() - i,
        {
            let cohort = *self.routes.value_at(i);
            let ghost before = counts@;
            let count: usize = match counts.get(&cohort) {
                Some(count) => *count,
                None => 0,
            };
            proof {
                assert(members_before(entries, i as int, cohort).len() <= i);
                assert(count == members_before(entries, i as int, cohort).len());
            }
            let _ = counts.insert(cohort, count + 1);
            proof {
                assert forall|c: CohortKey|
                    {
                        &&& (#[trigger] members_before(entries, i + 1, c)).finite()
                        &&& members_before(entries, i + 1, c).len() == members_before(
                            entries,
                            i as int,
                            c,
                        ).len() + if c == cohort {
                            1int
                        } else {
                            0
                        }
                    } by {
                    assert(members_before(entries, i as int, c).finite());
                    lemma_one_more_member(entries, i as int, c);
                }
                assert forall|c: CohortKey| #[trigger]
                    counts@.contains_key(c) <==> members_before(entries, i + 1, c).len() > 0 by {
                    assert(before.contains_key(c) <==> members_before(entries, i as int, c).len()
                        > 0);
                }
                assert forall|c: CohortKey| #[trigger]
                    counts@.contains_key(c) implies counts@[c] == members_before(
                    entries,
                    i + 1,
                    c,
                ).len() by {
                    assert(before.contains_key(c) <==> members_before(entries, i as int, c).len()
                        > 0);
                }
            }
            i += 1;
        }
        proof {
            self.routes.lemma_view();
            assert forall|c: CohortKey| #[trigger]
                members_before(entries, entries.len() as int, c) == spec_members(self@, c) by {
                assert forall|r: ReceiverId| members_before(
                    entries,
                    entries.len() as int,
                    c,
                ).contains(r) <==> #[trigger] spec_members(self@, c).contains(r) by {
                    if self@.contains_key(r) {
                        let k = choose|k: int|
                            0 <= k < entries.len() && (#[trigger] entries[k]).0 == r;
                        if self@[r] == c {
                            assert(entries[k] == (r, c));
                        }
                    }
                }
                assert(members_before(entries, entries.len() as int, c) =~= spec_members(self@, c));
            }
            assert forall|c: CohortKey| #[trigger]
                counts@.contains_key(c) <==> exists|r: ReceiverId|
                    spec_members(self@, c).contains(r) by {
                let members = members_before(entries, entries.len() as int, c);
                assert(members.finite());
                if members.len() > 0 {
                    assert(members.contains(members.choose()));
                    assert(spec_members(self@, c).contains(members.choose()));
                }
                if exists|r: ReceiverId| spec_members(self@, c).contains(r) {
                    let r = choose|r: ReceiverId| spec_members(self@, c).contains(r);
                    assert(members.contains(r));
                    assert(members.len() > 0) by {
                        if members.len() == 0 {
                            assert(members =~= Set::<ReceiverId>::empty());
                        }
                    }
                }
            }
            law_counts_share_out_the_receivers(self@, counts);
        }
        counts
    }

    #[must_use]
    pub fn len(&self) -> (len: usize)
        requires
            self.wf(),
        ensures
            len == self@.dom().len(),
    {
        self.routes.len()
    }

    #[must_use]
    pub fn is_empty(&self) -> (empty: bool)
        requires
            self.wf(),
        ensures
            empty == (self@.dom().len() == 0),
    {
        self.routes.len() == 0
    }
}

/// What is decided for one receiver leaves the cohorts of all others as they are.
pub proof fn law_update_leaves_others(
    routes: Map<ReceiverId, CohortKey>,
    receiver: ReceiverId,
    decision: StreamDecision,
    other: ReceiverId,
    cohort: CohortKey,
)
    requires
        other != receiver,
    ensures
        spec_members(routes.insert(receiver, spec_cohort(decision)), cohort).contains(other)
            == spec_members(routes, cohort).contains(other),
{
}

/// The receivers of the first cohorts that are counted.
spec fn counted_before(
    routes: Map<ReceiverId, CohortKey>,
    counts: Seq<(CohortKey, usize)>,
    count: int,
) -> Set<ReceiverId> {
    Set::new(
        |r: ReceiverId|
            routes.contains_key(r) && exists|i: int|
                0 <= i < count && (#[trigger] counts[i]).0 == routes[r],
    )
}

/// The first counts together are the number of the receivers of their cohorts.
proof fn lemma_counted_before(
    routes: Map<ReceiverId, CohortKey>,
    counts: Seq<(CohortKey, usize)>,
    count: int,
)
    requires
        routes.dom().finite(),
        crate::ordered::ascending(counts),
        forall|i: int|
            0 <= i < counts.len() ==> (#[trigger] counts[i]).1 == spec_members(
                routes,
                counts[i].0,
            ).len(),
        0 <= count <= counts.len(),
    ensures
        counted_before(routes, counts, count).finite(),
        total_of(counts.take(count)) == counted_before(routes, counts, count).len(),
    decreases count,
{
    let all = counted_before(routes, counts, count);
    vstd::set_lib::lemma_len_subset(all, routes.dom());
    if count == 0 {
        assert(all =~= Set::<ReceiverId>::empty());
        assert(counts.take(0) =~= Seq::<(CohortKey, usize)>::empty());
    } else {
        let before = counted_before(routes, counts, count - 1);
        let cohort = counts[count - 1].0;
        let members = spec_members(routes, cohort);
        lemma_counted_before(routes, counts, count - 1);
        vstd::set_lib::lemma_len_subset(members, routes.dom());
        assert forall|r: ReceiverId| #[trigger] all.contains(r) <==> before.contains(r)
            || members.contains(r) by {
            if before.contains(r) {
                let i = choose|i: int|
                    0 <= i < count - 1 && (#[trigger] counts[i]).0 == routes[r];
                assert(0 <= i < count && counts[i].0 == routes[r]);
            }
            if members.contains(r) {
                assert(counts[count - 1].0 == routes[r]);
            }
            if all.contains(r) && routes[r] != cohort {
                let i = choose|i: int| 0 <= i < count && (#[trigger] counts[i]).0 == routes[r];
                assert(0 <= i < count - 1 && counts[i].0 == routes[r]);
            }
        }
        assert(all =~= before + members);
        assert(before.disjoint(members)) by {
            assert forall|r: ReceiverId| before.contains(r) implies !members.contains(r) by {
                let i = choose|i: int|
                    0 <= i < count - 1 && (#[trigger] counts[i]).0 == routes[r];
                assert(counts[i].0.rank() < counts[count - 1].0.rank());
            }
        }
        vstd::set_lib::lemma_set_disjoint_lens(before, members);
        assert(counts.take(count).drop_last() =~= counts.take(count - 1));
    }
}

/// The cohorts share out the receivers: every receiver is counted in one of them, and in one
/// only, so that the counts together are the number of receivers.
pub proof fn law_counts_share_out_the_receivers(
    routes: Map<ReceiverId, CohortKey>,
    counts: OrderedMap<CohortKey, usize>,
)
    requires
        routes.dom().finite(),
        counts.wf(),
        is_cohort_count(counts@, routes),
    ensures
        total_of(counts.spec_entries()) == routes.dom().len(),
        forall|r: ReceiverId, c: CohortKey|
            #![trigger spec_members(routes, c).contains(r)]
            spec_members(routes, c).contains(r) <==> routes.contains_key(r) && routes[r] == c
                && counts@.contains_key(c),
{
    counts.lemma_view();
    let entries = counts.spec_entries();
    lemma_counted_before(routes, entries, entries.len() as int);
    assert(entries.take(entries.len() as int) =~= entries);
    let all = counted_before(routes, entries, entries.len() as int);
    assert forall|r: ReceiverId| #[trigger] routes.dom().contains(r) implies all.contains(r) by {
        assert(spec_members(routes, routes[r]).contains(r));
        assert(counts@.contains_key(routes[r]));
        let i = choose|i: int| 0 <= i < entries.len() && (#[trigger] entries[i]).0 == routes[r];
        assert(0 <= i < entries.len() && entries[i].0 == routes[r]);
    }
    assert(all =~= routes.dom());
    assert forall|r: ReceiverId, c: CohortKey|
        #![trigger spec_members(routes, c).contains(r)]
        spec_members(routes, c).contains(r) implies counts@.contains_key(c) by {
        assert(exists|q: ReceiverId| spec_members(routes, c).contains(q));
    }
}

/// Receivers share a stream where their packets can be the same: multicast, WebRTC and the
/// fallback each for themselves, and all that are sent to directly together. Quality is never
/// shared across tiers.
pub proof fn law_cohorts_follow_the_decision(a: StreamDecision, b: StreamDecision)
    ensures
        a.tier != b.tier ==> spec_cohort(a) != spec_cohort(b),
        a.tier == b.tier && a.transport == b.transport ==> spec_cohort(a) == spec_cohort(b),
        a.transport == MediaTransport::UdpMulticast && b.transport != MediaTransport::UdpMulticast
            ==> spec_cohort(a) != spec_cohort(b),
        a.transport == MediaTransport::WebRtc && b.transport != MediaTransport::WebRtc
            ==> spec_cohort(a) != spec_cohort(b),
        a.transport == MediaTransport::ReliableFallback && b.transport
            != MediaTransport::ReliableFallback ==> spec_cohort(a) != spec_cohort(b),
        a.tier == b.tier && a.transport == MediaTransport::UdpUnicast && b.transport
            == MediaTransport::QuicDatagram ==> spec_cohort(a) == spec_cohort(b),
        a.transport == MediaTransport::UdpMulticast ==> spec_cohort(a).kind
            == CohortKind::WiredMulticast,
        a.transport == MediaTransport::UdpUnicast ==> spec_cohort(a).kind
            == CohortKind::DirectUnicast,
        a.transport == MediaTransport::WebRtc ==> spec_cohort(a).kind == CohortKind::WebRtc,
        a.transport == MediaTransport::ReliableFallback ==> spec_cohort(a).kind
            == CohortKind::ReliableFallback,
        spec_cohort(a).tier == a.tier,
{
}

} // verus!
