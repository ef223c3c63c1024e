//! A bounded queue that keeps what is newest.

use std::collections::VecDeque;
use vstd::prelude::*;

verus! {

/// A strictly bounded queue for live media where freshness is more valuable than completeness.
///
/// When the queue is full, pushing a new item evicts the oldest item. This is the intended
/// behavior for capture/encode/transport handoffs: ClassMesh must drop stale media rather than
/// accumulate end-to-end latency.
#[derive(Debug)]
pub struct LatestQueue<T> {
    items: VecDeque<T>,
    capacity: usize,
    dropped: u64,
}

/// A queue: its items from the oldest to the newest, its capacity, and how many it dropped.
#[verifier::ext_equal]
pub struct QueueView<T> {
    pub items: Seq<T>,
    pub capacity: int,
    pub dropped: u64,
}

impl<T> View for LatestQueue<T> {
    type V = QueueView<T>;

    closed spec fn view(&self) -> QueueView<T> {
        QueueView {
            items: self.items@,
            capacity: self.capacity as int,
            dropped: self.dropped,
        }
    }
}

impl<T> QueueView<T> {
    /// There is room for at least one item, and not more items than room.
    pub open spec fn is_bounded(self) -> bool {
        1 <= self.capacity && self.items.len() <= self.capacity
    }

    pub open spec fn is_full(self) -> bool {
        self.items.len() == self.capacity
    }

    /// The queue after an item was pushed.
    pub open spec fn spec_pushed(self, item: T) -> Self {
        if self.is_full() {
            QueueView {
                items: self.items.skip(1).push(item),
                dropped: crate::counting::saturating_sum(self.dropped, 1),
                ..self
            }
        } else {
            QueueView { items: self.items.push(item), ..self }
        }
    }

    /// The queue with only its newest item.
    pub open spec fn spec_latest(self) -> Self {
        if self.items.len() <= 1 {
            self
        } else {
            QueueView {
                items: seq![self.items.last()],
                dropped: crate::counting::saturating_sum(self.dropped, self.items.len() - 1),
                ..self
            }
        }
    }
}

impl<T> LatestQueue<T> {
    /// The queue keeps within its capacity.
    pub closed spec fn wf(self) -> bool {
        self@.is_bounded()
    }

    /// What soundness means of the view.
    pub proof fn lemma_bounded(self)
        requires
            self.wf(),
        ensures
            self@.is_bounded(),
    {
    }

    /// Creates a queue with a capacity, which must not be zero: an always-empty media queue is
    /// almost certainly a configuration bug.
    #[must_use]
    pub fn new(capacity: usize) -> (queue: Self)
        requires
            capacity > 0,
        ensures
            queue.wf(),
            queue@ == (QueueView { items: Seq::<T>::empty(), capacity: capacity as int, dropped: 0 }),
    {
        LatestQueue { items: VecDeque::new(), capacity, dropped: 0 }
    }

    /// Pushes an item and returns the evicted oldest item when the queue was already full.
    pub fn push(&mut self, item: T) -> (evicted: Option<T>)
        requires
            old(self).wf(),
        ensures
            final(self).wf(),
            final(self)@ == old(self)@.spec_pushed(item),
            evicted == if old(self)@.is_full() {
                Some(old(self)@.items[0])
            } else {
                None
            },
    {
        let evicted = if self.items.len() == self.capacity {
            self.dropped = self.dropped.saturating_add(1);
            self.items.pop_front()
        } else {
            None
        };
        self.items.push_back(item);
        proof {
            assert(old(self)@.items.skip(1) =~= old(self)@.items.subrange(
                1,
                old(self)@.items.len() as int,
            ));
            assert(self@ =~= old(self)@.spec_pushed(item));
        }
        evicted
    }

    /// Takes the oldest item.
    pub fn pop(&mut self) -> (item: Option<T>)
        requires
            old(self).wf(),
        ensures
            final(self).wf(),
            match item {
                Some(oldest) => old(self)@.items.len() > 0 && oldest == old(self)@.items[0]
                    && final(self)@ == (QueueView {
                    items: old(self)@.items.skip(1),
                    ..old(self)@
                }),
                None => old(self)@.items.len() == 0 && final(self)@ == old(self)@,
            },
    {
        let item = self.items.pop_front();
        proof {
            if item is Some {
                assert(self@.items =~= old(self)@.items.skip(1));
            }
        }
        item
    }

    /// Removes every queued item except the newest one.
    ///
    /// Returns the number of items discarded. Receivers can use this after a stall to immediately
    /// catch up to live media instead of draining obsolete frames.
    pub fn retain_latest(&mut self) -> (discarded: usize)
        requires
            old(self).wf(),
        ensures
            final(self).wf(),
            final(self)@ == old(self)@.spec_latest(),
            discarded == if old(self)@.items.len() > 1 {
                old(self)@.items.len() - 1
            } else {
                0
            },
    {
        let total: usize = self.items.len();
        let remove_count: usize = total.saturating_sub(1);
        let mut removed: usize = 0;
        while removed < remove_count
            invariant
                removed <= remove_count,
                remove_count == if total > 1 {
                    total - 1
                } else {
                    0
                },
                total == old(self).items@.len(),
                self.items@ == old(self).items@.skip(removed as int),
                self.capacity == old(self).capacity,
                self.dropped == old(self).dropped,
            decreases remove_count - removed,
        {
            let _ = self.items.pop_front();
            removed += 1;
            proof {
                assert(self.items@ =~= old(self).items@.skip(removed as int));
            }
        }
        self.dropped = self.dropped.saturating_add(remove_count as u64);
        proof {
            if total > 1 {
                assert(self.items@ =~= seq![old(self).items@.last()]);
            } else {
                assert(self.items@ =~= old(self).items@);
            }
            assert(self@ =~= old(self)@.spec_latest());
        }
        remove_count
    }

    #[must_use]
    pub fn len(&self) -> (len: usize)
        ensures
            len == self@.items.len(),
    {
        self.items.len()
    }

    #[must_use]
    pub fn is_empty(&self) -> (empty: bool)
        ensures
            empty == (self@.items.len() == 0),
    {
        self.items.len() == 0
    }

    #[must_use]
    pub fn capacity(&self) -> (capacity: usize)
        ensures
            capacity == self@.capacity,
    {
        self.capacity
    }

    #[must_use]
    pub fn dropped(&self) -> (dropped: u64)
        ensures
            dropped == self@.dropped,
    {
        self.dropped
    }
}

/// The newest item is never the one that is dropped, and the queue never outgrows its
/// capacity.
pub proof fn law_newest_item_stays<T>(queue: QueueView<T>, item: T)
    requires
        queue.is_bounded(),
    ensures
        queue.spec_pushed(item).is_bounded(),
        queue.spec_pushed(item).items.last() == item,
        queue.spec_pushed(item).spec_latest().items == seq![item],
{
    let latest = queue.spec_pushed(item).spec_latest();
    assert(latest.items =~= seq![item]);
}

/// Items leave in the order in which they came. A push loses the oldest only where the queue has
/// no room, and counts it; keeping the newest loses and counts all others.
pub proof fn law_queue_loses_the_oldest_only<T>(queue: QueueView<T>, item: T, i: int)
    requires
        queue.is_bounded(),
    ensures
        ({
            let after = queue.spec_pushed(item);
            let latest = queue.spec_latest();
            let lost: int = if queue.items.len() == queue.capacity {
                1
            } else {
                0
            };
            &&& after.items.len() == queue.items.len() + 1 - lost
            &&& lost <= i < queue.items.len() ==> after.items[i - lost] == queue.items[i]
            &&& after.capacity == queue.capacity && latest.capacity == queue.capacity
            &&& queue.dropped < u64::MAX ==> after.dropped == queue.dropped + lost
            &&& queue.items.len() == 0 ==> latest == queue
            &&& queue.items.len() > 0 ==> latest.items.len() == 1 && latest.items[0]
                == queue.items.last()
            &&& queue.items.len() > 0 && queue.dropped + queue.items.len() <= u64::MAX
                ==> latest.dropped + latest.items.len() == queue.dropped + queue.items.len()
        }),
{
}

} // verus!
