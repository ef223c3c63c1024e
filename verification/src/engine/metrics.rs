//! Counters and latencies of the media pipeline.

use crate::measure::Measure;
use std::collections::VecDeque;
use vstd::prelude::*;

verus! {

#[derive(Debug, Clone, Copy, PartialEq, Eq, Structural)]
pub struct LatencySummary {
    pub samples: usize,
    pub p50_ms: Measure,
    pub p95_ms: Measure,
    pub max_ms: Measure,
}

/// The latest latencies, as many as the window holds.
#[derive(Debug)]
pub struct RollingLatency {
    values_ms: VecDeque<Measure>,
    capacity: usize,
}

/// A window: its values from the oldest to the newest, and how many it holds.
#[verifier::ext_equal]
pub struct LatencyView {
    pub values: Seq<Measure>,
    pub capacity: int,
}

impl View for RollingLatency {
    type V = LatencyView;

    closed spec fn view(&self) -> LatencyView {
        LatencyView { values: self.values_ms@, capacity: self.capacity as int }
    }
}

/// A latency is a finite number that is not negative.
pub open spec fn is_latency(value: Measure) -> bool {
    value.spec_is_finite() && !Measure::of(0).spec_exceeds(value)
}

/// The place of a measurement in the total order of IEEE 754, in which negative zero comes
/// before zero.
pub open spec fn total_place(value: Measure) -> int {
    if value.bits >= 0x8000_0000 {
        -1 - value.magnitude()
    } else {
        value.magnitude()
    }
}

/// The measurements ascend in the total order.
pub open spec fn sorted(values: Seq<Measure>) -> bool {
    forall|i: int, j: int|
        #![trigger values[i], values[j]]
        0 <= i <= j < values.len() ==> total_place(values[i]) <= total_place(values[j])
}

/// Where the given percentile stands among `count` sorted values: at the percentile of the
/// last place, rounded up.
pub open spec fn percentile_place(count: int, percentile: int) -> int {
    let last = count - 1;
    let scaled = if last * percentile > usize::MAX {
        usize::MAX as int
    } else {
        last * percentile
    };
    let place = (scaled + 99) / 100;
    if place < last {
        place
    } else {
        last
    }
}

/// `summary` is what sorting the values gives.
pub open spec fn summarizes(summary: LatencySummary, values: Seq<Measure>) -> bool {
    exists|ordered: Seq<Measure>|
        {
            &&& #[trigger] sorted(ordered)
            &&& ordered.to_multiset() == values.to_multiset()
            &&& ordered.len() == values.len()
            &&& summary.samples == values.len()
            &&& summary.p50_ms == ordered[percentile_place(values.len() as int, 50)]
            &&& summary.p95_ms == ordered[percentile_place(values.len() as int, 95)]
            &&& summary.max_ms == ordered.last()
        }
}

impl LatencyView {
    /// There is room for at least one value, not more values than room, and each is a latency.
    pub open spec fn is_sound(self) -> bool {
        &&& 1 <= self.capacity
        &&& self.values.len() <= self.capacity
        &&& forall|i: int| 0 <= i < self.values.len() ==> is_latency(#[trigger] self.values[i])
    }

    /// The window after a value was handed to it.
    pub open spec fn spec_recorded(self, value: Measure) -> Self {
        if !is_latency(value) {
            self
        } else if self.values.len() >= self.capacity {
            LatencyView { values: self.values.skip(1).push(value), ..self }
        } else {
            LatencyView { values: self.values.push(value), ..self }
        }
    }
}

/// Whether one measurement comes before another in the total order.
fn precedes(a: Measure, b: Measure) -> (before: bool)
    ensures
        before == (total_place(a) < total_place(b)),
{
    let sign: u32 = 0x8000_0000;
    if a.bits >= sign {
        b.bits < sign || a.bits > b.bits
    } else {
        b.bits < sign && a.bits < b.bits
    }
}

/// The values in the total order.
fn sort(values: &VecDeque<Measure>) -> (ordered: Vec<Measure>)
    ensures
        sorted(ordered@),
        ordered@.to_multiset() == values@.to_multiset(),
        ordered@.len() == values@.len(),
{
    let mut ordered: Vec<Measure> = Vec::new();
    let mut i: usize = 0;
    let total: usize = values.len();
    proof {
        assert(values@.take(0) =~= Seq::<Measure>::empty());
        assert(ordered@ =~= values@.take(0));
    }
    while i < total
        invariant
            i <= total,
            total == values@.len(),
            sorted(ordered@),
            ordered@.len() == i,
            ordered@.to_multiset() == values@.take(i as int).to_multiset(),
        decreases total - i,
    {
        let value = values[i];
        let ghost before = ordered@;
        let mut at: usize = i;
        while at > 0 && precedes(value, ordered[at - 1])
            invariant
                at <= i,
                ordered@ == before,
                before.len() == i,
                sorted(before),
                forall|j: int|
                    at <= j < i ==> total_place(value) < total_place(#[trigger] before[j]),
            decreases at,
        {
            at -= 1;
        }
        ordered.insert(at, value);
        proof {
            assert forall|a: int, b: int|
                #![trigger ordered@[a], ordered@[b]]
                0 <= a <= b < ordered@.len() implies total_place(ordered@[a]) <= total_place(
                ordered@[b],
            ) by {
                let x = if a < at {
                    a
                } else {
                    a - 1
                };
                let y = if b < at {
                    b
                } else {
                    b - 1
                };
                if a != at {
                    assert(ordered@[a] == before[x]);
                }
                if b != at {
                    assert(ordered@[b] == before[y]);
                }
                if a < at && b == at {
                    assert(total_place(before[a]) <= total_place(before[at - 1]));
                }
            }
            values@.take(i as int).to_multiset_ensures();
            ordered@.to_multiset_ensures();
            assert(values@.take(i + 1) =~= values@.take(i as int).push(value));
            assert(values@.take(i + 1).to_multiset() =~= values@.take(
                i as int,
            ).to_multiset().insert(value));
            assert(ordered@.remove(at as int) =~= before);
            assert(ordered@[at as int] == value);
            assert(ordered@.to_multiset().count(value) > 0);
            assert(ordered@.to_multiset() =~= before.to_multiset().insert(value));
        }
        i += 1;
    }
    proof {
        assert(values@.take(i as int) =~= values@);
    }
    ordered
}

fn percentile(ordered: &Vec<Measure>, percent: usize) -> (value: Measure)
    requires
        ordered@.len() > 0,
    ensures
        value == ordered@[percentile_place(ordered@.len() as int, percent as int)],
{
    let last: usize = ordered.len() - 1;
    let scaled: usize = match last.checked_mul(percent) {
        Some(product) => product,
        None => usize::MAX,
    };
    let whole: usize = scaled / 100;
    let place: usize = if scaled % 100 != 0 {
        whole + 1
    } else {
        whole
    };
    if place < last {
        ordered[place]
    } else {
        ordered[last]
    }
}

impl RollingLatency {
    /// The window holds latencies, within its capacity.
    pub closed spec fn wf(self) -> bool {
        self@.is_sound()
    }

    /// What soundness means of the view.
    pub proof fn lemma_sound(self)
        requires
            self.wf(),
        ensures
            self@.is_sound(),
    {
    }

    /// An empty window. It must hold at least one value.
    #[must_use]
    pub fn new(capacity: usize) -> (latency: Self)
        requires
            capacity > 0,
        ensures
            latency.wf(),
            latency@ == (LatencyView { values: Seq::empty(), capacity: capacity as int }),
    {
        RollingLatency { values_ms: VecDeque::new(), capacity }
    }

    /// Takes a value in, for which the oldest may have to leave. What is no latency is refused.
    pub fn record(&mut self, value_ms: Measure) -> (recorded: bool)
        requires
            old(self).wf(),
        ensures
            final(self).wf(),
            final(self)@ == old(self)@.spec_recorded(value_ms),
            recorded == is_latency(value_ms),
    {
        if !value_ms.is_finite() || Measure::from_bits(0).exceeds(value_ms) {
            return false;
        }
        if self.values_ms.len() >= self.capacity {
            let _ = self.values_ms.pop_front();
            proof {
                assert(self.values_ms@ =~= old(self)@.values.skip(1));
            }
        }
        self.values_ms.push_back(value_ms);
        true
    }

    /// The median, the 95th percentile and the largest of the values, if there are any.
    #[must_use]
    pub fn summary(&self) -> (summary: Option<LatencySummary>)
        ensures
            match summary {
                Some(summary) => self@.values.len() > 0 && summarizes(summary, self@.values),
                None => self@.values.len() == 0,
            },
    {
        if self.values_ms.len() == 0 {
            return None;
        }
        let ordered = sort(&self.values_ms);
        let summary = LatencySummary {
            samples: ordered.len(),
            p50_ms: percentile(&ordered, 50),
            p95_ms: percentile(&ordered, 95),
            max_ms: ordered[ordered.len() - 1],
        };
        proof {
            assert(sorted(ordered@));
            assert(summarizes(summary, self@.values));
        }
        Some(summary)
    }
}

#[derive(Debug, Clone, Copy, PartialEq, Eq, Structural)]
pub struct MediaCounters {
    pub captured_frames: u64,
    pub encoded_frames: u64,
    pub sent_packets: u64,
    pub received_packets: u64,
    pub decoded_frames: u64,
    pub rendered_frames: u64,
    pub dropped_frames: u64,
    pub dropped_packets: u64,
    pub reordered_packets: u64,
    pub keyframes: u64,
    pub nack_requests: u64,
    pub capture_recoveries: u64,
    pub codec_recoveries: u64,
}

impl Default for MediaCounters {
    fn default() -> (counters: Self)
        ensures
            counters == Self::zero(),
    {
        MediaCounters {
            captured_frames: 0,
            encoded_frames: 0,
            sent_packets: 0,
            received_packets: 0,
            decoded_frames: 0,
            rendered_frames: 0,
            dropped_frames: 0,
            dropped_packets: 0,
            reordered_packets: 0,
            keyframes: 0,
            nack_requests: 0,
            capture_recoveries: 0,
            codec_recoveries: 0,
        }
    }
}

impl MediaCounters {
    /// Nothing was counted.
    pub open spec fn zero() -> Self {
        MediaCounters {
            captured_frames: 0,
            encoded_frames: 0,
            sent_packets: 0,
            received_packets: 0,
            decoded_frames: 0,
            rendered_frames: 0,
            dropped_frames: 0,
            dropped_packets: 0,
            reordered_packets: 0,
            keyframes: 0,
            nack_requests: 0,
            capture_recoveries: 0,
            codec_recoveries: 0,
        }
    }

    /// Each counter grown by the other's, up to the largest number.
    pub open spec fn spec_grown(self, delta: Self) -> Self {
        MediaCounters {
            captured_frames: crate::counting::saturating_sum(
                self.captured_frames,
                delta.captured_frames as int,
            ),
            encoded_frames: crate::counting::saturating_sum(
                self.encoded_frames,
                delta.encoded_frames as int,
            ),
            sent_packets: crate::counting::saturating_sum(
                self.sent_packets,
                delta.sent_packets as int,
            ),
            received_packets: crate::counting::saturating_sum(
                self.received_packets,
                delta.received_packets as int,
            ),
            decoded_frames: crate::counting::saturating_sum(
                self.decoded_frames,
                delta.decoded_frames as int,
            ),
            rendered_frames: crate::counting::saturating_sum(
                self.rendered_frames,
                delta.rendered_frames as int,
            ),
            dropped_frames: crate::counting::saturating_sum(
                self.dropped_frames,
                delta.dropped_frames as int,
            ),
            dropped_packets: crate::counting::saturating_sum(
                self.dropped_packets,
                delta.dropped_packets as int,
            ),
            reordered_packets: crate::counting::saturating_sum(
                self.reordered_packets,
                delta.reordered_packets as int,
            ),
            keyframes: crate::counting::saturating_sum(self.keyframes, delta.keyframes as int),
            nack_requests: crate::counting::saturating_sum(
                self.nack_requests,
                delta.nack_requests as int,
            ),
            capture_recoveries: crate::counting::saturating_sum(
                self.capture_recoveries,
                delta.capture_recoveries as int,
            ),
            codec_recoveries: crate::counting::saturating_sum(
                self.codec_recoveries,
                delta.codec_recoveries as int,
            ),
        }
    }

    pub fn saturating_add_assign(&mut self, delta: Self)
        ensures
            *final(self) == old(self).spec_grown(delta),
    {
        self.captured_frames = self.captured_frames.saturating_add(delta.captured_frames);
        self.encoded_frames = self.encoded_frames.saturating_add(delta.encoded_frames);
        self.sent_packets = self.sent_packets.saturating_add(delta.sent_packets);
        self.received_packets = self.received_packets.saturating_add(delta.received_packets);
        self.decoded_frames = self.decoded_frames.saturating_add(delta.decoded_frames);
        self.rendered_frames = self.rendered_frames.saturating_add(delta.rendered_frames);
        self.dropped_frames = self.dropped_frames.saturating_add(delta.dropped_frames);
        self.dropped_packets = self.dropped_packets.saturating_add(delta.dropped_packets);
        self.reordered_packets = self.reordered_packets.saturating_add(delta.reordered_packets);
        self.keyframes = self.keyframes.saturating_add(delta.keyframes);
        self.nack_requests = self.nack_requests.saturating_add(delta.nack_requests);
        self.capture_recoveries = self.capture_recoveries.saturating_add(
            delta.capture_recoveries,
        );
        self.codec_recoveries = self.codec_recoveries.saturating_add(delta.codec_recoveries);
    }
}

#[derive(Debug, Clone, Copy, PartialEq, Eq, Structural)]
pub struct PipelineSnapshot {
    pub counters: MediaCounters,
    pub capture: Option<LatencySummary>,
    pub encode: Option<LatencySummary>,
    pub queue: Option<LatencySummary>,
    pub decode: Option<LatencySummary>,
    pub render: Option<LatencySummary>,
}

/// The counters of a pipeline and the latencies of its stages.
#[derive(Debug)]
pub struct PipelineMetrics {
    counters: MediaCounters,
    capture: RollingLatency,
    encode: RollingLatency,
    queue: RollingLatency,
    decode: RollingLatency,
    render: RollingLatency,
}

/// A pipeline's counters and the windows of its stages.
#[verifier::ext_equal]
pub struct PipelineView {
    pub counters: MediaCounters,
    pub capture: LatencyView,
    pub encode: LatencyView,
    pub queue: LatencyView,
    pub decode: LatencyView,
    pub render: LatencyView,
}

impl View for PipelineMetrics {
    type V = PipelineView;

    closed spec fn view(&self) -> PipelineView {
        PipelineView {
            counters: self.counters,
            capture: self.capture@,
            encode: self.encode@,
            queue: self.queue@,
            decode: self.decode@,
            render: self.render@,
        }
    }
}

/// `summary` belongs to a window: none where it is empty.
pub open spec fn is_summary_of(summary: Option<LatencySummary>, window: LatencyView) -> bool {
    match summary {
        Some(summary) => window.values.len() > 0 && summarizes(summary, window.values),
        None => window.values.len() == 0,
    }
}

impl PipelineMetrics {
    /// Every window is sound.
    pub closed spec fn wf(self) -> bool {
        &&& self.capture.wf()
        &&& self.encode.wf()
        &&& self.queue.wf()
        &&& self.decode.wf()
        &&& self.render.wf()
    }

    /// Empty windows of one size. It must not be zero.
    #[must_use]
    pub fn new(window_size: usize) -> (metrics: Self)
        requires
            window_size > 0,
        ensures
            metrics.wf(),
            ({
                let empty = LatencyView { values: Seq::empty(), capacity: window_size as int };
                metrics@ == PipelineView {
                    counters: MediaCounters::zero(),
                    capture: empty,
                    encode: empty,
                    queue: empty,
                    decode: empty,
                    render: empty,
                }
            }),
    {
        PipelineMetrics {
            counters: MediaCounters::default(),
            capture: RollingLatency::new(window_size),
            encode: RollingLatency::new(window_size),
            queue: RollingLatency::new(window_size),
            decode: RollingLatency::new(window_size),
            render: RollingLatency::new(window_size),
        }
    }

    pub fn add_counters(&mut self, delta: MediaCounters)
        requires
            old(self).wf(),
        ensures
            final(self).wf(),
            final(self)@ == (PipelineView {
                counters: old(self)@.counters.spec_grown(delta),
                ..old(self)@
            }),
    {
        self.counters.saturating_add_assign(delta);
    }

    pub fn record_capture_ms(&mut self, value: Measure) -> (recorded: bool)
        requires
            old(self).wf(),
        ensures
            final(self).wf(),
            final(self)@ == (PipelineView {
                capture: old(self)@.capture.spec_recorded(value),
                ..old(self)@
            }),
            recorded == is_latency(value),
    {
        self.capture.record(value)
    }

    pub fn record_encode_ms(&mut self, value: Measure) -> (recorded: bool)
        requires
            old(self).wf(),
        ensures
            final(self).wf(),
            final(self)@ == (PipelineView {
                encode: old(self)@.encode.spec_recorded(value),
                ..old(self)@
            }),
            recorded == is_latency(value),
    {
        self.encode.record(value)
    }

    pub fn record_queue_ms(&mut self, value: Measure) -> (recorded: bool)
        requires
            old(self).wf(),
        ensures
            final(self).wf(),
            final(self)@ == (PipelineView {
                queue: old(self)@.queue.spec_recorded(value),
                ..old(self)@
            }),
            recorded == is_latency(value),
    {
        self.queue.record(value)
    }

    pub fn record_decode_ms(&mut self, value: Measure) -> (recorded: bool)
        requires
            old(self).wf(),
        ensures
            final(self).wf(),
            final(self)@ == (PipelineView {
                decode: old(self)@.decode.spec_recorded(value),
                ..old(self)@
            }),
            recorded == is_latency(value),
    {
        self.decode.record(value)
    }

    pub fn record_render_ms(&mut self, value: Measure) -> (recorded: bool)
        requires
            old(self).wf(),
        ensures
            final(self).wf(),
            final(self)@ == (PipelineView {
                render: old(self)@.render.spec_recorded(value),
                ..old(self)@
            }),
            recorded == is_latency(value),
    {
        self.render.record(value)
    }

    #[must_use]
    pub fn snapshot(&self) -> (snapshot: PipelineSnapshot)
        ensures
            snapshot.counters == self@.counters,
            is_summary_of(snapshot.capture, self@.capture),
            is_summary_of(snapshot.encode, self@.encode),
            is_summary_of(snapshot.queue, self@.queue),
            is_summary_of(snapshot.decode, self@.decode),
            is_summary_of(snapshot.render, self@.render),
    {
        PipelineSnapshot {
            counters: self.counters,
            capture: self.capture.summary(),
            encode: self.encode.summary(),
            queue: self.queue.summary(),
            decode: self.decode.summary(),
            render: self.render.summary(),
        }
    }
}

/// Two summaries of the same values are the same: the order of sorting leaves no choice.
pub proof fn law_summary_is_unique(a: LatencySummary, b: LatencySummary, values: Seq<Measure>)
    requires
        values.len() > 0,
        summarizes(a, values),
        summarizes(b, values),
    ensures
        a == b,
{
    let first = choose|ordered: Seq<Measure>|
        {
            &&& #[trigger] sorted(ordered)
            &&& ordered.to_multiset() == values.to_multiset()
            &&& ordered.len() == values.len()
            &&& a.samples == values.len()
            &&& a.p50_ms == ordered[percentile_place(values.len() as int, 50)]
            &&& a.p95_ms == ordered[percentile_place(values.len() as int, 95)]
            &&& a.max_ms == ordered.last()
        };
    let second = choose|ordered: Seq<Measure>|
        {
            &&& #[trigger] sorted(ordered)
            &&& ordered.to_multiset() == values.to_multiset()
            &&& ordered.len() == values.len()
            &&& b.samples == values.len()
            &&& b.p50_ms == ordered[percentile_place(values.len() as int, 50)]
            &&& b.p95_ms == ordered[percentile_place(values.len() as int, 95)]
            &&& b.max_ms == ordered.last()
        };
    lemma_sorted_unique(first, second);
}

/// There is one way to sort.
proof fn lemma_sorted_unique(a: Seq<Measure>, b: Seq<Measure>)
    requires
        sorted(a),
        sorted(b),
        a.to_multiset() == b.to_multiset(),
    ensures
        a == b,
    decreases a.len(),
{
    broadcast use vstd::seq_lib::group_to_multiset_ensures;

    a.to_multiset_ensures();
    b.to_multiset_ensures();
    if a.len() == 0 {
        assert(a =~= b);
    } else {
        let x = a.last();
        let y = b.last();
        assert(a.to_multiset().contains(x));
        assert(b.contains(x));
        assert(b.to_multiset().contains(y));
        assert(a.contains(y));
        let i = choose|i: int| 0 <= i < b.len() && b[i] == x;
        let j = choose|j: int| 0 <= j < a.len() && a[j] == y;
        assert(total_place(b[i]) <= total_place(b[b.len() - 1]));
        assert(total_place(a[j]) <= total_place(a[a.len() - 1]));
        assert(total_place(x) == total_place(y));
        assert(x == y);
        assert(a.drop_last() =~= a.remove(a.len() - 1));
        assert(b.drop_last() =~= b.remove(b.len() - 1));
        assert(a.drop_last().to_multiset() =~= a.to_multiset().remove(x));
        assert(b.drop_last().to_multiset() =~= b.to_multiset().remove(y));
        lemma_sorted_unique(a.drop_last(), b.drop_last());
        assert(a =~= a.drop_last().push(x));
        assert(b =~= b.drop_last().push(y));
    }
}

/// A window never outgrows its size, and keeps the newest value.
pub proof fn law_window_is_bounded(window: LatencyView, value: Measure)
    requires
        window.is_sound(),
    ensures
        window.spec_recorded(value).is_sound(),
        is_latency(value) ==> window.spec_recorded(value).values.last() == value,
{
}

/// A percentile stands at the least place at or behind that share of the way to the last value.
pub proof fn law_percentile_is_the_nearest_rank(count: int, percentile: int)
    requires
        1 <= count,
        0 <= percentile <= 100,
        (count - 1) * percentile <= usize::MAX,
    ensures
        0 <= percentile_place(count, percentile) < count,
        100 * percentile_place(count, percentile) >= (count - 1) * percentile,
        percentile_place(count, percentile) > 0 ==> 100 * (percentile_place(count, percentile) - 1)
            < (count - 1) * percentile,
{
    let last = count - 1;
    assert(0 <= last * percentile <= 100 * last) by (nonlinear_arith)
        requires
            0 <= last,
            0 <= percentile <= 100,
    ;
}

/// The largest latency of a summary is one of the values, and none is larger. The median does
/// not exceed the 95th percentile, nor that the largest.
pub proof fn law_summary_bounds_the_values(summary: LatencySummary, values: Seq<Measure>, i: int)
    requires
        summarizes(summary, values),
        0 <= i < values.len(),
    ensures
        summary.samples == values.len(),
        values.contains(summary.max_ms),
        values.contains(summary.p50_ms),
        values.contains(summary.p95_ms),
        total_place(values[i]) <= total_place(summary.max_ms),
        total_place(summary.p50_ms) <= total_place(summary.p95_ms) <= total_place(summary.max_ms),
{
    let n = values.len() as int;
    let ordered = choose|ordered: Seq<Measure>|
        {
            &&& #[trigger] sorted(ordered)
            &&& ordered.to_multiset() == values.to_multiset()
            &&& ordered.len() == values.len()
            &&& summary.samples == values.len()
            &&& summary.p50_ms == ordered[percentile_place(n, 50)]
            &&& summary.p95_ms == ordered[percentile_place(n, 95)]
            &&& summary.max_ms == ordered.last()
        };
    values.to_multiset_ensures();
    ordered.to_multiset_ensures();
    assert(0 <= percentile_place(n, 50) <= percentile_place(n, 95) < n);
    assert(ordered.to_multiset().count(values[i]) > 0) by {
        assert(values.contains(values[i]));
    }
    assert(ordered.contains(values[i]));
    let j = choose|j: int| 0 <= j < ordered.len() && ordered[j] == values[i];
    assert(total_place(ordered[j]) <= total_place(ordered[n - 1]));
    assert(ordered.contains(ordered[n - 1]));
    assert(ordered.contains(ordered[percentile_place(n, 50)]));
    assert(ordered.contains(ordered[percentile_place(n, 95)]));
    assert(values.to_multiset().count(ordered[n - 1]) > 0);
    assert(values.to_multiset().count(ordered[percentile_place(n, 50)]) > 0);
    assert(values.to_multiset().count(ordered[percentile_place(n, 95)]) > 0);
}

/// A window takes in every finite value that is not negative, behind those that it holds, and
/// loses the oldest only where it has no room. Nothing else changes it.
pub proof fn law_window_forgets_the_oldest_only(window: LatencyView, value: Measure, i: int)
    requires
        window.is_sound(),
    ensures
        ({
            let after = window.spec_recorded(value);
            let taken = value.bits < 0x7F80_0000 || value.bits == 0x8000_0000;
            let lost: int = if window.values.len() == window.capacity {
                1
            } else {
                0
            };
            &&& is_latency(value) <==> taken
            &&& after.capacity == window.capacity
            &&& !taken ==> after == window
            &&& taken ==> after.values.len() == window.values.len() + 1 - lost
            &&& taken && lost <= i < window.values.len() ==> after.values[i - lost]
                == window.values[i]
        }),
{
}

/// Counters grow one by one, each by its own share.
pub proof fn law_counters_grow_by_their_share(counters: MediaCounters, delta: MediaCounters, i: int)
    requires
        0 <= i < 13,
    ensures
        ({
            let before = counters.spec_all()[i];
            let after = counters.spec_grown(delta).spec_all()[i];
            let share = delta.spec_all()[i];
            &&& before + share <= u64::MAX ==> after == before + share
            &&& before + share > u64::MAX ==> after == u64::MAX
        }),
{
}

impl MediaCounters {
    /// The counters in the order in which they are declared.
    pub open spec fn spec_all(self) -> Seq<u64> {
        seq![
            self.captured_frames,
            self.encoded_frames,
            self.sent_packets,
            self.received_packets,
            self.decoded_frames,
            self.rendered_frames,
            self.dropped_frames,
            self.dropped_packets,
            self.reordered_packets,
            self.keyframes,
            self.nack_requests,
            self.capture_recoveries,
            self.codec_recoveries,
        ]
    }
}

/// The total order tells every two patterns apart, and agrees with the order of the numbers.
pub proof fn law_total_order_agrees_with_the_numbers(a: Measure, b: Measure)
    ensures
        total_place(a) == total_place(b) ==> a == b,
        a.spec_exceeds(b) ==> total_place(a) > total_place(b),
{
}

/// The median and the 95th percentile stand at their rank among the values in order, whoever put
/// them in order, and the largest stands last.
pub proof fn law_percentiles_stand_at_their_rank(
    summary: LatencySummary,
    values: Seq<Measure>,
    ordered: Seq<Measure>,
    rank: int,
)
    requires
        summarizes(summary, values),
        0 < values.len(),
        (values.len() - 1) * 95 <= usize::MAX,
        forall|i: int, j: int|
            #![trigger ordered[i], ordered[j]]
            0 <= i <= j < ordered.len() ==> total_place(ordered[i]) <= total_place(ordered[j]),
        ordered.to_multiset() == values.to_multiset(),
        0 <= rank < values.len(),
    ensures
        ordered.len() == values.len(),
        100 * (rank - 1) < 50 * (values.len() - 1) <= 100 * rank ==> summary.p50_ms
            == ordered[rank],
        100 * (rank - 1) < 95 * (values.len() - 1) <= 100 * rank ==> summary.p95_ms
            == ordered[rank],
        summary.max_ms == ordered[values.len() - 1],
        summary.samples == values.len(),
{
    let n = values.len() as int;
    let found = choose|found: Seq<Measure>|
        {
            &&& #[trigger] sorted(found)
            &&& found.to_multiset() == values.to_multiset()
            &&& found.len() == values.len()
            &&& summary.samples == values.len()
            &&& summary.p50_ms == found[percentile_place(n, 50)]
            &&& summary.p95_ms == found[percentile_place(n, 95)]
            &&& summary.max_ms == found.last()
        };
    assert(sorted(ordered));
    lemma_sorted_unique(found, ordered);
}

} // verus!
