//! Maps and sets that keep their keys in ascending order, on sorted vectors.

use vstd::prelude::*;

verus! {

/// A key that has a place of its own on the number line, by which keys are ordered.
pub trait OrderedKey: Sized + Copy {
    /// The key's place.
    spec fn rank(self) -> int;

    /// No two keys share a place.
    proof fn lemma_rank_injective(a: Self, b: Self)
        requires
            a.rank() == b.rank(),
        ensures
            a == b,
    ;

    /// Whether this key comes before the other.
    fn precedes(&self, other: &Self) -> (before: bool)
        ensures
            before == (self.rank() < other.rank()),
    ;
}

impl OrderedKey for u64 {
    open spec fn rank(self) -> int {
        self as int
    }

    proof fn lemma_rank_injective(a: Self, b: Self) {
    }

    fn precedes(&self, other: &Self) -> (before: bool) {
        *self < *other
    }
}

impl OrderedKey for u32 {
    open spec fn rank(self) -> int {
        self as int
    }

    proof fn lemma_rank_injective(a: Self, b: Self) {
    }

    fn precedes(&self, other: &Self) -> (before: bool) {
        *self < *other
    }
}

/// The keys ascend strictly.
pub open spec fn ascending<K: OrderedKey, V>(entries: Seq<(K, V)>) -> bool {
    forall|i: int, j: int|
        #![trigger entries[i], entries[j]]
        0 <= i < j < entries.len() ==> entries[i].0.rank() < entries[j].0.rank()
}

/// What the entries map each key to.
pub open spec fn entries_map<K: OrderedKey, V>(entries: Seq<(K, V)>) -> Map<K, V>
    decreases entries.len(),
{
    if entries.len() == 0 {
        Map::empty()
    } else {
        entries_map(entries.drop_last()).insert(entries.last().0, entries.last().1)
    }
}

/// The entries of an ascending sequence are those of its map, and there are as many.
pub proof fn lemma_entries_map<K: OrderedKey, V>(entries: Seq<(K, V)>)
    requires
        ascending(entries),
    ensures
        forall|k: K| #[trigger]
            entries_map(entries).contains_key(k) <==> exists|i: int|
                0 <= i < entries.len() && (#[trigger] entries[i]).0 == k,
        forall|i: int|
            0 <= i < entries.len() ==> entries_map(entries).contains_key(
                (#[trigger] entries[i]).0,
            ) && entries_map(entries)[entries[i].0] == entries[i].1,
        entries_map(entries).dom().finite(),
        entries_map(entries).dom().len() == entries.len(),
    decreases entries.len(),
{
    if entries.len() > 0 {
        let front = entries.drop_last();
        let last = entries.last();
        lemma_entries_map(front);
        assert forall|k: K| #[trigger] entries_map(entries).contains_key(k) implies exists|i: int|
            0 <= i < entries.len() && (#[trigger] entries[i]).0 == k by {
            if k == last.0 {
                assert(entries[entries.len() - 1].0 == k);
            } else {
                let i = choose|i: int| 0 <= i < front.len() && (#[trigger] front[i]).0 == k;
                assert(entries[i].0 == k);
            }
        }
        assert forall|i: int| 0 <= i < entries.len() implies entries_map(entries).contains_key(
            (#[trigger] entries[i]).0,
        ) && entries_map(entries)[entries[i].0] == entries[i].1 by {
            if i < front.len() {
                assert(front[i] == entries[i]);
                assert(entries[i].0.rank() < entries[entries.len() - 1].0.rank());
            }
        }
        if entries_map(front).contains_key(last.0) {
            let i = choose|i: int| 0 <= i < front.len() && (#[trigger] front[i]).0 == last.0;
            assert(entries[i].0.rank() < entries[entries.len() - 1].0.rank());
        }
    }
}

/// Replacing the value of an entry replaces the value of its key.
pub proof fn lemma_update_entry<K: OrderedKey, V>(entries: Seq<(K, V)>, at: int, value: V)
    requires
        ascending(entries),
        0 <= at < entries.len(),
    ensures
        ascending(entries.update(at, (entries[at].0, value))),
        entries_map(entries.update(at, (entries[at].0, value))) == entries_map(entries).insert(
            entries[at].0,
            value,
        ),
{
    let key = entries[at].0;
    let after = entries.update(at, (key, value));
    assert forall|i: int, j: int|
        #![trigger after[i], after[j]]
        0 <= i < j < after.len() implies after[i].0.rank() < after[j].0.rank() by {
        assert(entries[i].0.rank() < entries[j].0.rank());
    }
    lemma_entries_map(entries);
    lemma_entries_map(after);
    let expected = entries_map(entries).insert(key, value);
    assert forall|k: K| entries_map(after).contains_key(k) <==> expected.contains_key(k) by {
        if entries_map(after).contains_key(k) {
            let i = choose|i: int| 0 <= i < after.len() && (#[trigger] after[i]).0 == k;
            assert(entries[i].0 == k);
        }
        if expected.contains_key(k) {
            assert(entries_map(entries).contains_key(k)) by {
                assert(entries[at].0 == key);
            }
            let i = choose|i: int| 0 <= i < entries.len() && (#[trigger] entries[i]).0 == k;
            assert(after[i].0 == k);
        }
    }
    assert forall|k: K| entries_map(after).contains_key(k) implies #[trigger] entries_map(
        after,
    )[k] == expected[k] by {
        let i = choose|i: int| 0 <= i < after.len() && (#[trigger] after[i]).0 == k;
        if i != at {
            assert(entries[i] == after[i]);
            assert(k != key) by {
                let low = if i < at { i } else { at };
                let high = if i < at { at } else { i };
                assert(entries[low].0.rank() < entries[high].0.rank());
            }
        }
    }
    assert(entries_map(after) =~= expected);
}

/// Putting a new key at its place in the order gives it its value in the map.
pub proof fn lemma_insert_entry<K: OrderedKey, V>(
    entries: Seq<(K, V)>,
    at: int,
    key: K,
    value: V,
)
    requires
        ascending(entries),
        0 <= at <= entries.len(),
        forall|i: int| 0 <= i < at ==> (#[trigger] entries[i]).0.rank() < key.rank(),
        forall|i: int| at <= i < entries.len() ==> (#[trigger] entries[i]).0.rank() > key.rank(),
    ensures
        ascending(entries.insert(at, (key, value))),
        entries_map(entries.insert(at, (key, value))) == entries_map(entries).insert(key, value),
{
    let after = entries.insert(at, (key, value));
    assert forall|i: int, j: int|
        #![trigger after[i], after[j]]
        0 <= i < j < after.len() implies after[i].0.rank() < after[j].0.rank() by {
        if i != at && j != at {
            let a = if i < at { i } else { i - 1 };
            let b = if j < at { j } else { j - 1 };
            assert(entries[a].0.rank() < entries[b].0.rank());
        } else if i == at {
            assert(entries[j - 1].0.rank() > key.rank());
        } else {
            assert(entries[i].0.rank() < key.rank());
        }
    }
    lemma_entries_map(entries);
    lemma_entries_map(after);
    let expected = entries_map(entries).insert(key, value);
    assert(after[at] == (key, value));
    assert forall|k: K| entries_map(after).contains_key(k) <==> expected.contains_key(k) by {
        if entries_map(after).contains_key(k) {
            let i = choose|i: int| 0 <= i < after.len() && (#[trigger] after[i]).0 == k;
            if i != at {
                let a = if i < at { i } else { i - 1 };
                assert(entries[a].0 == k);
            }
        }
        if entries_map(entries).contains_key(k) {
            let i = choose|i: int| 0 <= i < entries.len() && (#[trigger] entries[i]).0 == k;
            let a = if i < at { i } else { i + 1 };
            assert(after[a].0 == k);
        }
    }
    assert forall|k: K| entries_map(after).contains_key(k) implies #[trigger] entries_map(
        after,
    )[k] == expected[k] by {
        let i = choose|i: int| 0 <= i < after.len() && (#[trigger] after[i]).0 == k;
        if i != at {
            let a = if i < at { i } else { i - 1 };
            assert(entries[a] == after[i]);
        }
    }
    assert(entries_map(after) =~= expected);
}

/// The entries whose keys come before a place.
pub open spec fn entries_below<K: OrderedKey, V>(entries: Seq<(K, V)>, place: int) -> Seq<(K, V)>
    decreases entries.len(),
{
    if entries.len() == 0 {
        Seq::empty()
    } else if entries.last().0.rank() < place {
        entries_below(entries.drop_last(), place).push(entries.last())
    } else {
        entries_below(entries.drop_last(), place)
    }
}

/// The entries whose keys come behind a place.
pub open spec fn entries_above<K: OrderedKey, V>(entries: Seq<(K, V)>, place: int) -> Seq<(K, V)>
    decreases entries.len(),
{
    if entries.len() == 0 {
        Seq::empty()
    } else if entries.last().0.rank() > place {
        entries_above(entries.drop_last(), place).push(entries.last())
    } else {
        entries_above(entries.drop_last(), place)
    }
}

/// The entries with `key` at its place: behind those below it, before those above it.
pub open spec fn entries_with<K: OrderedKey, V>(
    entries: Seq<(K, V)>,
    key: K,
    value: V,
) -> Seq<(K, V)> {
    entries_below(entries, key.rank()).push((key, value)) + entries_above(entries, key.rank())
}

/// Where a place falls in the order, the entries are parted there.
pub proof fn lemma_entries_parted<K: OrderedKey, V>(
    entries: Seq<(K, V)>,
    place: int,
    low: int,
    high: int,
)
    requires
        0 <= low <= high <= entries.len(),
        forall|i: int| 0 <= i < low ==> (#[trigger] entries[i]).0.rank() < place,
        forall|i: int| low <= i < high ==> (#[trigger] entries[i]).0.rank() == place,
        forall|i: int| high <= i < entries.len() ==> (#[trigger] entries[i]).0.rank() > place,
    ensures
        entries_below(entries, place) == entries.take(low),
        entries_above(entries, place) == entries.skip(high),
    decreases entries.len(),
{
    if entries.len() > 0 {
        let front = entries.drop_last();
        let last = entries[entries.len() - 1];
        if high < entries.len() {
            lemma_entries_parted(front, place, low, high);
            assert(front.take(low) =~= entries.take(low));
            assert(front.skip(high).push(last) =~= entries.skip(high));
        } else if low < entries.len() {
            lemma_entries_parted(front, place, low, high - 1);
            assert(front.take(low) =~= entries.take(low));
            assert(front.skip(high - 1) =~= entries.skip(high));
        } else {
            lemma_entries_parted(front, place, low - 1, high - 1);
            assert(front.take(low - 1).push(last) =~= entries.take(low));
            assert(front.skip(high - 1) =~= entries.skip(high));
        }
    } else {
        assert(entries.take(low) =~= entries_below(entries, place));
        assert(entries.skip(high) =~= entries_above(entries, place));
    }
}

/// A map whose entries are kept in ascending order of their keys.
#[derive(Debug, Clone, PartialEq, Eq)]
pub struct OrderedMap<K, V> {
    entries: Vec<(K, V)>,
}

impl<K: OrderedKey, V> View for OrderedMap<K, V> {
    type V = Map<K, V>;

    closed spec fn view(&self) -> Map<K, V> {
        entries_map(self.entries@)
    }
}

impl<K: OrderedKey, V> OrderedMap<K, V> {
    /// The entries in order.
    pub closed spec fn spec_entries(self) -> Seq<(K, V)> {
        self.entries@
    }

    /// The entries ascend strictly.
    pub closed spec fn wf(self) -> bool {
        ascending(self.entries@)
    }

    /// How a map and its entries in order belong together.
    pub proof fn lemma_view(self)
        requires
            self.wf(),
        ensures
            ascending(self.spec_entries()),
            self@ == entries_map(self.spec_entries()),
            forall|k: K| #[trigger]
                self@.contains_key(k) <==> exists|i: int|
                    0 <= i < self.spec_entries().len() && (#[trigger] self.spec_entries()[i]).0
                        == k,
            forall|i: int|
                0 <= i < self.spec_entries().len() ==> self@.contains_key(
                    (#[trigger] self.spec_entries()[i]).0,
                ) && self@[self.spec_entries()[i].0] == self.spec_entries()[i].1,
            self@.dom().finite(),
            self@.dom().len() == self.spec_entries().len(),
    {
        lemma_entries_map(self.entries@);
    }

    /// The empty map.
    #[must_use]
    pub fn new() -> (map: Self)
        ensures
            map.wf(),
            map@ == Map::<K, V>::empty(),
            map.spec_entries() == Seq::<(K, V)>::empty(),
    {
        OrderedMap { entries: Vec::new() }
    }

    /// The number of entries.
    #[must_use]
    pub fn len(&self) -> (len: usize)
        requires
            self.wf(),
        ensures
            len == self@.dom().len(),
            len == self.spec_entries().len(),
            self@.dom().finite(),
    {
        proof {
            self.lemma_view();
        }
        self.entries.len()
    }

    #[must_use]
    pub fn is_empty(&self) -> (empty: bool)
        requires
            self.wf(),
        ensures
            empty == (self@ == Map::<K, V>::empty()),
            empty == (self.spec_entries().len() == 0),
    {
        proof {
            self.lemma_view();
            if self.entries@.len() > 0 {
                assert(self@.contains_key(self.entries@[0].0));
            }
        }
        self.entries.len() == 0
    }

    /// The number of keys that come before `key`.
    fn position(&self, key: &K) -> (at: usize)
        requires
            self.wf(),
        ensures
            at <= self.entries@.len(),
            forall|i: int| 0 <= i < at ==> (#[trigger] self.entries@[i]).0.rank() < key.rank(),
            forall|i: int|
                at <= i < self.entries@.len() ==> (#[trigger] self.entries@[i]).0.rank()
                    >= key.rank(),
    {
        let mut low: usize = 0;
        let mut high: usize = self.entries.len();
        while low < high
            invariant
                self.wf(),
                low <= high <= self.entries@.len(),
                forall|i: int| 0 <= i < low ==> (#[trigger] self.entries@[i]).0.rank() < key.rank(),
                forall|i: int|
                    high <= i < self.entries@.len() ==> (#[trigger] self.entries@[i]).0.rank()
                        >= key.rank(),
            decreases high - low,
        {
            let mid: usize = low + (high - low) / 2;
            if self.entries[mid].0.precedes(key) {
                low = mid + 1;
            } else {
                high = mid;
            }
        }
        low
    }

    /// Where `key` stands, if it is there.
    pub fn index_of(&self, key: &K) -> (index: Option<usize>)
        requires
            self.wf(),
        ensures
            match index {
                Some(i) => i < self.spec_entries().len() && self.spec_entries()[i as int].0 == *key
                    && self@.contains_key(*key) && self@[*key] == self.spec_entries()[i as int].1,
                None => !self@.contains_key(*key),
            },
    {
        let at: usize = self.position(key);
        proof {
            self.lemma_view();
        }
        if at < self.entries.len() && !key.precedes(&self.entries[at].0) {
            proof {
                K::lemma_rank_injective(self.entries@[at as int].0, *key);
            }
            Some(at)
        } else {
            proof {
                if self@.contains_key(*key) {
                    let i = choose|i: int|
                        0 <= i < self.entries@.len() && (#[trigger] self.entries@[i]).0 == *key;
                    assert(i >= at);
                    if i > at {
                        assert(self.entries@[at as int].0.rank() < self.entries@[i].0.rank());
                    }
                }
            }
            None
        }
    }

    #[must_use]
    pub fn contains_key(&self, key: &K) -> (contained: bool)
        requires
            self.wf(),
        ensures
            contained == self@.contains_key(*key),
    {
        self.index_of(key).is_some()
    }

    /// The value of `key`.
    #[must_use]
    pub fn get(&self, key: &K) -> (value: Option<&V>)
        requires
            self.wf(),
        ensures
            match value {
                Some(v) => self@.contains_key(*key) && *v == self@[*key],
                None => !self@.contains_key(*key),
            },
    {
        match self.index_of(key) {
            Some(i) => Some(&self.entries[i].1),
            None => None,
        }
    }

    /// The value of `key`, to be changed in place.
    pub fn get_mut(&mut self, key: &K) -> (value: Option<&mut V>)
        requires
            old(self).wf(),
        ensures
            final(self).wf(),
            match value {
                Some(v) => old(self)@.contains_key(*key) && *v == old(self)@[*key] && final(self)@
                    == old(self)@.insert(*key, *final(v)),
                None => !old(self)@.contains_key(*key) && *final(self) == *old(self),
            },
    {
        match self.index_of(key) {
            Some(i) => {
                proof {
                    assert forall|v: V|
                        #![trigger self.entries@.update(i as int, (*key, v))]
                        ascending(self.entries@.update(i as int, (*key, v))) && entries_map(
                            self.entries@.update(i as int, (*key, v)),
                        ) == self@.insert(*key, v) by {
                        lemma_update_entry(self.entries@, i as int, v);
                    }
                }
                let entry = &mut self.entries[i];
                Some(&mut entry.1)
            },
            None => None,
        }
    }

    /// The key at a place in the order.
    #[must_use]
    pub fn key_at(&self, index: usize) -> (key: K)
        requires
            self.wf(),
            index < self.spec_entries().len(),
        ensures
            key == self.spec_entries()[index as int].0,
            self@.contains_key(key),
    {
        proof {
            self.lemma_view();
        }
        self.entries[index].0
    }

    /// The value at a place in the order.
    #[must_use]
    pub fn value_at(&self, index: usize) -> (value: &V)
        requires
            self.wf(),
            index < self.spec_entries().len(),
        ensures
            *value == self.spec_entries()[index as int].1,
            *value == self@[self.spec_entries()[index as int].0],
    {
        proof {
            self.lemma_view();
        }
        &self.entries[index].1
    }

    /// The value at a place in the order, to be changed in place.
    pub fn value_at_mut(&mut self, index: usize) -> (value: &mut V)
        requires
            old(self).wf(),
            index < old(self).spec_entries().len(),
        ensures
            final(self).wf(),
            *value == old(self).spec_entries()[index as int].1,
            final(self).spec_entries() == old(self).spec_entries().update(
                index as int,
                (old(self).spec_entries()[index as int].0, *final(value)),
            ),
            final(self)@ == old(self)@.insert(
                old(self).spec_entries()[index as int].0,
                *final(value),
            ),
    {
        let ghost key = self.entries@[index as int].0;
        proof {
            assert forall|v: V|
                #![trigger self.entries@.update(index as int, (key, v))]
                ascending(self.entries@.update(index as int, (key, v))) && entries_map(
                    self.entries@.update(index as int, (key, v)),
                ) == self@.insert(key, v) by {
                lemma_update_entry(self.entries@, index as int, v);
            }
        }
        let entry = &mut self.entries[index];
        &mut entry.1
    }

    /// Gives `key` a value, and hands back the value that it had.
    pub fn insert(&mut self, key: K, value: V) -> (previous: Option<V>)
        requires
            old(self).wf(),
        ensures
            final(self).wf(),
            final(self)@ == old(self)@.insert(key, value),
            final(self).spec_entries() == entries_with(old(self).spec_entries(), key, value),
            match previous {
                Some(v) => old(self)@.contains_key(key) && v == old(self)@[key],
                None => !old(self)@.contains_key(key) && final(self).spec_entries() == old(
                    self,
                ).spec_entries().insert(
                    entries_below(old(self).spec_entries(), key.rank()).len() as int,
                    (key, value),
                ) && entries_below(old(self).spec_entries(), key.rank()).len() <= old(
                    self,
                ).spec_entries().len(),
            },
    {
        let at: usize = self.position(&key);
        let found = self.index_of(&key);
        let previous = match found {
            Some(i) => {
                let old_entry = self.entries.remove(i);
                self.entries.insert(i, (key, value));
                Some(old_entry.1)
            },
            None => {
                self.entries.insert(at, (key, value));
                None
            },
        };
        proof {
            let before = old(self).entries@;
            match found {
                Some(i) => {
                    lemma_update_entry(before, i as int, value);
                    assert(self.entries@ =~= before.update(i as int, (key, value)));
                    assert forall|j: int| i < j < before.len() implies (
                    #[trigger] before[j]).0.rank() > key.rank() by {
                        assert(before[i as int].0.rank() < before[j].0.rank());
                    }
                    assert forall|j: int| 0 <= j < i implies (#[trigger] before[j]).0.rank()
                        < key.rank() by {
                        assert(before[j].0.rank() < before[i as int].0.rank());
                    }
                    lemma_entries_parted(before, key.rank(), i as int, i + 1);
                    assert(self.entries@ =~= entries_with(before, key, value));
                },
                None => {
                    assert forall|i: int| at <= i < before.len() implies (
                    #[trigger] before[i]).0.rank() > key.rank() by {
                        if before[i].0.rank() == key.rank() {
                            K::lemma_rank_injective(before[i].0, key);
                            lemma_entries_map(before);
                        }
                    }
                    lemma_insert_entry(before, at as int, key, value);
                    lemma_entries_parted(before, key.rank(), at as int, at as int);
                    assert(self.entries@ =~= entries_with(before, key, value));
                },
            }
        }
        previous
    }

    /// Takes the entry at a place in the order out of the map.
    pub fn remove_at(&mut self, index: usize) -> (entry: (K, V))
        requires
            old(self).wf(),
            index < old(self).spec_entries().len(),
        ensures
            final(self).wf(),
            entry == old(self).spec_entries()[index as int],
            final(self).spec_entries() == old(self).spec_entries().remove(index as int),
            old(self)@.contains_key(entry.0),
            old(self)@[entry.0] == entry.1,
            final(self)@ == old(self)@.remove(entry.0),
    {
        let entry = self.entries.remove(index);
        proof {
            let before = old(self).entries@;
            let after = self.entries@;
            let at = index as int;
            assert forall|i: int, j: int|
                #![trigger after[i], after[j]]
                0 <= i < j < after.len() implies after[i].0.rank() < after[j].0.rank() by {
                let a = if i < at { i } else { i + 1 };
                let b = if j < at { j } else { j + 1 };
                assert(before[a].0.rank() < before[b].0.rank());
            }
            old(self).lemma_view();
            self.lemma_view();
            let removed = old(self)@.remove(entry.0);
            assert forall|k: K| self@.contains_key(k) <==> removed.contains_key(k) by {
                if self@.contains_key(k) {
                    let i = choose|i: int| 0 <= i < after.len() && (#[trigger] after[i]).0 == k;
                    let a = if i < at { i } else { i + 1 };
                    assert(before[a].0 == k);
                    if k == entry.0 {
                        let low = if a < at { a } else { at };
                        let high = if a < at { at } else { a };
                        assert(before[low].0.rank() < before[high].0.rank());
                    }
                }
                if removed.contains_key(k) {
                    let i = choose|i: int| 0 <= i < before.len() && (#[trigger] before[i]).0 == k;
                    let a = if i < at { i } else { i - 1 };
                    assert(i != at);
                    assert(after[a].0 == k);
                }
            }
            assert forall|k: K| self@.contains_key(k) implies #[trigger] self@[k] == removed[k] by {
                let i = choose|i: int| 0 <= i < after.len() && (#[trigger] after[i]).0 == k;
                let a = if i < at { i } else { i + 1 };
                assert(before[a] == after[i]);
            }
            assert(self@ =~= removed);
        }
        entry
    }

    /// The greatest key and its value.
    #[must_use]
    pub fn last(&self) -> (entry: Option<(K, &V)>)
        requires
            self.wf(),
        ensures
            match entry {
                Some((key, value)) => self.spec_entries().len() > 0 && key
                    == self.spec_entries().last().0 && *value == self.spec_entries().last().1,
                None => self.spec_entries().len() == 0,
            },
    {
        if self.entries.len() == 0 {
            None
        } else {
            let index: usize = self.entries.len() - 1;
            Some((self.entries[index].0, &self.entries[index].1))
        }
    }

    /// Takes `key` out of the map, and hands back the value that it had.
    pub fn remove(&mut self, key: &K) -> (previous: Option<V>)
        requires
            old(self).wf(),
        ensures
            final(self).wf(),
            final(self)@ == old(self)@.remove(*key),
            match previous {
                Some(v) => old(self)@.contains_key(*key) && v == old(self)@[*key],
                None => !old(self)@.contains_key(*key),
            },
    {
        match self.index_of(key) {
            Some(i) => Some(self.remove_at(i).1),
            None => {
                proof {
                    assert(self@.remove(*key) =~= self@);
                }
                None
            },
        }
    }

    /// Empties the map.
    pub fn clear(&mut self)
        ensures
            final(self).wf(),
            final(self)@ == Map::<K, V>::empty(),
            final(self).spec_entries() == Seq::<(K, V)>::empty(),
    {
        self.entries.clear();
    }
}

/// A set whose members are kept in ascending order.
#[derive(Debug, Clone, PartialEq, Eq)]
pub struct OrderedSet<K> {
    members: OrderedMap<K, ()>,
}

impl<K: OrderedKey> View for OrderedSet<K> {
    type V = Set<K>;

    closed spec fn view(&self) -> Set<K> {
        self.members@.dom()
    }
}

/// The members of a sequence of entries, in order.
pub open spec fn entry_keys<K, V>(entries: Seq<(K, V)>) -> Seq<K> {
    Seq::new(entries.len(), |i: int| entries[i].0)
}

/// The sequence ascends strictly.
pub open spec fn keys_ascend<K: OrderedKey>(keys: Seq<K>) -> bool {
    forall|i: int, j: int|
        #![trigger keys[i], keys[j]]
        0 <= i < j < keys.len() ==> keys[i].rank() < keys[j].rank()
}

/// The sequence lists the members of a set, each once and in ascending order.
pub open spec fn lists<K: OrderedKey>(keys: Seq<K>, set: Set<K>) -> bool {
    keys_ascend(keys) && keys.to_set() == set
}

/// The keys of ascending entries list the keys of their map.
pub proof fn lemma_entries_listed<K: OrderedKey, V>(entries: Seq<(K, V)>)
    requires
        ascending(entries),
    ensures
        lists(entry_keys(entries), entries_map(entries).dom()),
{
    lemma_entries_map(entries);
    let keys = entry_keys(entries);
    assert forall|i: int, j: int|
        #![trigger keys[i], keys[j]]
        0 <= i < j < keys.len() implies keys[i].rank() < keys[j].rank() by {
        assert(entries[i].0.rank() < entries[j].0.rank());
    }
    assert forall|k: K| keys.to_set().contains(k) <==> entries_map(entries).dom().contains(k) by {
        if keys.contains(k) {
            let i = choose|i: int| 0 <= i < keys.len() && keys[i] == k;
            assert(entries[i].0 == k);
        }
        if entries_map(entries).contains_key(k) {
            let i = choose|i: int| 0 <= i < entries.len() && (#[trigger] entries[i]).0 == k;
            assert(keys[i] == k);
        }
    }
    assert(keys.to_set() =~= entries_map(entries).dom());
}

impl<K: OrderedKey> OrderedSet<K> {
    /// The members ascend strictly.
    pub closed spec fn wf(self) -> bool {
        self.members.wf()
    }

    /// The members in order.
    pub closed spec fn spec_members(self) -> Seq<K> {
        entry_keys(self.members.spec_entries())
    }

    /// How a set and its members in order belong together.
    pub proof fn lemma_view(self)
        requires
            self.wf(),
        ensures
            keys_ascend(self.spec_members()),
            self@ == self.spec_members().to_set(),
            self@.finite(),
            self@.len() == self.spec_members().len(),
    {
        self.members.lemma_view();
        let entries = self.members.spec_entries();
        assert forall|k: K| self@.contains(k) <==> self.spec_members().to_set().contains(k) by {
            if self@.contains(k) {
                let i = choose|i: int| 0 <= i < entries.len() && (#[trigger] entries[i]).0 == k;
                assert(self.spec_members()[i] == k);
            }
            if self.spec_members().contains(k) {
                let i = choose|i: int|
                    0 <= i < self.spec_members().len() && self.spec_members()[i] == k;
                assert(entries[i].0 == k);
            }
        }
        assert(self@ =~= self.spec_members().to_set());
        assert forall|i: int, j: int|
            #![trigger self.spec_members()[i], self.spec_members()[j]]
            0 <= i < j < self.spec_members().len() implies self.spec_members()[i].rank()
            < self.spec_members()[j].rank() by {
            assert(entries[i].0.rank() < entries[j].0.rank());
        }
    }

    /// The empty set.
    #[must_use]
    pub fn new() -> (set: Self)
        ensures
            set.wf(),
            set@ == Set::<K>::empty(),
    {
        let set = OrderedSet { members: OrderedMap::new() };
        proof {
            assert(set@ =~= Set::<K>::empty());
        }
        set
    }

    #[must_use]
    pub fn len(&self) -> (len: usize)
        requires
            self.wf(),
        ensures
            len == self@.len(),
            len == self.spec_members().len(),
    {
        self.members.len()
    }

    #[must_use]
    pub fn is_empty(&self) -> (empty: bool)
        requires
            self.wf(),
        ensures
            empty == (self@ == Set::<K>::empty()),
            empty == (self.spec_members().len() == 0),
    {
        let empty = self.members.is_empty();
        proof {
            self.lemma_view();
            if !empty {
                assert(self@.contains(self.spec_members()[0]));
            } else {
                assert(self@ =~= Set::<K>::empty());
            }
        }
        empty
    }

    #[must_use]
    pub fn contains(&self, key: &K) -> (contained: bool)
        requires
            self.wf(),
        ensures
            contained == self@.contains(*key),
    {
        self.members.contains_key(key)
    }

    /// The member at a place in the order.
    #[must_use]
    pub fn at(&self, index: usize) -> (key: K)
        requires
            self.wf(),
            index < self.spec_members().len(),
        ensures
            key == self.spec_members()[index as int],
            self@.contains(key),
    {
        self.members.key_at(index)
    }

    /// Adds a member, and tells whether it is new.
    pub fn insert(&mut self, key: K) -> (new: bool)
        requires
            old(self).wf(),
        ensures
            final(self).wf(),
            final(self)@ == old(self)@.insert(key),
            new == !old(self)@.contains(key),
    {
        let previous = self.members.insert(key, ());
        proof {
            assert(self@ =~= old(self)@.insert(key));
        }
        previous.is_none()
    }

    /// Takes a member out, and tells whether it was there.
    pub fn remove(&mut self, key: &K) -> (removed: bool)
        requires
            old(self).wf(),
        ensures
            final(self).wf(),
            final(self)@ == old(self)@.remove(*key),
            removed == old(self)@.contains(*key),
    {
        let previous = self.members.remove(key);
        proof {
            assert(self@ =~= old(self)@.remove(*key));
        }
        previous.is_some()
    }

    /// The set of the given keys.
    #[must_use]
    pub fn from_slice(keys: &[K]) -> (set: Self)
        ensures
            set.wf(),
            set@ == keys@.to_set(),
    {
        let mut set = Self::new();
        let mut i: usize = 0;
        proof {
            assert(keys@.take(0).to_set() =~= Set::<K>::empty());
        }
        while i < keys.len()
            invariant
                i <= keys@.len(),
                set.wf(),
                set@ == keys@.take(i as int).to_set(),
            decreases keys@.len() - i,
        {
            set.insert(keys[i]);
            proof {
                let front = keys@.take(i as int);
                assert(keys@.take(i + 1) =~= front.push(keys@[i as int]));
                assert forall|k: K| front.push(keys@[i as int]).to_set().contains(k)
                    <==> front.to_set().insert(keys@[i as int]).contains(k) by {
                    if front.contains(k) {
                        let j = choose|j: int| 0 <= j < front.len() && front[j] == k;
                        assert(front.push(keys@[i as int])[j] == k);
                    }
                    if k == keys@[i as int] {
                        assert(front.push(keys@[i as int])[i as int] == k);
                    }
                }
                assert(keys@.take(i + 1).to_set() =~= front.to_set().insert(keys@[i as int]));
            }
            i += 1;
        }
        proof {
            assert(keys@.take(i as int) =~= keys@);
        }
        set
    }

    /// The members that are members of the other set too.
    #[must_use]
    pub fn intersection(&self, other: &Self) -> (set: Self)
        requires
            self.wf(),
            other.wf(),
        ensures
            set.wf(),
            set@ == self@.intersect(other@),
    {
        let mut set = Self::new();
        let mut i: usize = 0;
        proof {
            self.lemma_view();
        }
        while i < self.len()
            invariant
                self.wf(),
                other.wf(),
                set.wf(),
                i <= self.spec_members().len(),
                forall|k: K| #[trigger]
                    set@.contains(k) <==> other@.contains(k) && self.spec_members().take(
                        i as int,
                    ).contains(k),
            decreases self.spec_members().len() - i,
        {
            let member = self.at(i);
            let ghost before = set@;
            if other.contains(&member) {
                set.insert(member);
            }
            i += 1;
            proof {
                let front = self.spec_members().take(i - 1);
                let longer = self.spec_members().take(i as int);
                assert forall|k: K| #[trigger] longer.contains(k) <==> front.contains(k) || k
                    == member by {
                    if front.contains(k) {
                        let j = choose|j: int| 0 <= j < front.len() && front[j] == k;
                        assert(longer[j] == k);
                    }
                    if k == member {
                        assert(longer[i - 1] == k);
                    }
                    if longer.contains(k) {
                        let j = choose|j: int| 0 <= j < longer.len() && longer[j] == k;
                        if j < i - 1 {
                            assert(front[j] == k);
                        }
                    }
                }
                assert forall|k: K| #[trigger]
                    set@.contains(k) <==> other@.contains(k) && longer.contains(k) by {
                    assert(before.contains(k) <==> other@.contains(k) && front.contains(k));
                }
            }
        }
        proof {
            assert(self.spec_members().take(i as int) =~= self.spec_members());
            assert(set@ =~= self@.intersect(other@));
        }
        set
    }

    /// A copy of the set.
    #[must_use]
    pub fn duplicate(&self) -> (set: Self)
        requires
            self.wf(),
        ensures
            set.wf(),
            set@ == self@,
    {
        let mut keys: Vec<K> = Vec::new();
        let mut i: usize = 0;
        while i < self.len()
            invariant
                self.wf(),
                i <= self.spec_members().len(),
                keys@ == self.spec_members().take(i as int),
            decreases self.spec_members().len() - i,
        {
            keys.push(self.at(i));
            i += 1;
            proof {
                assert(keys@ =~= self.spec_members().take(i as int));
            }
        }
        proof {
            assert(keys@ =~= self.spec_members());
            self.lemma_view();
        }
        Self::from_slice(keys.as_slice())
    }

    /// The members in order.
    #[must_use]
    pub fn to_vec(&self) -> (keys: Vec<K>)
        requires
            self.wf(),
        ensures
            keys@ == self.spec_members(),
    {
        let mut keys: Vec<K> = Vec::new();
        let mut i: usize = 0;
        while i < self.len()
            invariant
                self.wf(),
                i <= self.spec_members().len(),
                keys@ == self.spec_members().take(i as int),
            decreases self.spec_members().len() - i,
        {
            keys.push(self.at(i));
            i += 1;
            proof {
                assert(keys@ =~= self.spec_members().take(i as int));
            }
        }
        proof {
            assert(keys@ =~= self.spec_members());
        }
        keys
    }
}

} // verus!
