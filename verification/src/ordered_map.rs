//! A bounded ordered map over a sorted vector.
//!
//! Keys are ordered by an integer rank. Every lookup is a binary search, and
//! iteration by index visits the entries in ascending key order.

use vstd::prelude::*;

use crate::domain::{AccountId, CommandId, OrderId, Price};
use crate::storage::{release_spare, try_vector, unrepresentable};

verus! {

/// A key ordered by an integer.
pub trait MapKey: Copy {
    /// Position of the key in the key order.
    spec fn rank(self) -> int;

    /// Keys of equal rank are equal.
    proof fn lemma_rank_injective(self, other: Self)
        requires
            self.rank() == other.rank(),
        ensures
            self == other,
    ;

    /// Returns whether this key is ordered before another.
    fn is_before(self, other: Self) -> (r: bool)
        ensures
            r == (self.rank() < other.rank()),
    ;
}

impl MapKey for OrderId {
    open spec fn rank(self) -> int {
        self.value as int
    }

    proof fn lemma_rank_injective(self, other: Self) {
    }

    fn is_before(self, other: Self) -> (r: bool) {
        self.value < other.value
    }
}

impl MapKey for AccountId {
    open spec fn rank(self) -> int {
        self.value as int
    }

    proof fn lemma_rank_injective(self, other: Self) {
    }

    fn is_before(self, other: Self) -> (r: bool) {
        self.value < other.value
    }
}

impl MapKey for CommandId {
    open spec fn rank(self) -> int {
        self.value as int
    }

    proof fn lemma_rank_injective(self, other: Self) {
    }

    fn is_before(self, other: Self) -> (r: bool) {
        self.value < other.value
    }
}

impl MapKey for Price {
    open spec fn rank(self) -> int {
        self.raw as int
    }

    proof fn lemma_rank_injective(self, other: Self) {
    }

    fn is_before(self, other: Self) -> (r: bool) {
        self.raw < other.raw
    }
}

/// The map that a list of entries represents; a later entry wins.
pub open spec fn entry_map<K, V>(entries: Seq<(K, V)>) -> Map<K, V>
    decreases entries.len(),
{
    if entries.len() == 0 {
        Map::empty()
    } else {
        entry_map(entries.drop_last()).insert(entries.last().0, entries.last().1)
    }
}

/// Entries in strictly ascending key order.
pub open spec fn entries_sorted<K: MapKey, V>(entries: Seq<(K, V)>) -> bool {
    forall|i: int, j: int|
        0 <= i < j < entries.len() ==> (#[trigger] entries[i]).0.rank() < (
        #[trigger] entries[j]).0.rank()
}

/// A bounded map whose entries are kept in ascending key order.
#[derive(Clone, Debug)]
pub struct OrderedMap<K, V> {
    /// Entries in ascending key order.
    pub entries: Vec<(K, V)>,
    /// Configured maximum number of entries.
    pub maximum: usize,
    /// Entries for which storage was reserved.
    pub reserved: usize,
    /// Slots that have held an entry since they were reserved.
    pub initialized: usize,
}

proof fn lemma_entry_map<K: MapKey, V>(entries: Seq<(K, V)>)
    requires
        entries_sorted(entries),
    ensures
        entry_map(entries).dom().finite(),
        entry_map(entries).len() == entries.len(),
        forall|i: int|
            0 <= i < entries.len() ==> entry_map(entries).dom().contains(
                (#[trigger] entries[i]).0,
            ) && entry_map(entries)[entries[i].0] == entries[i].1,
        forall|key: K| #[trigger]
            entry_map(entries).dom().contains(key) ==> exists|i: int|
                0 <= i < entries.len() && (#[trigger] entries[i]).0 == key,
    decreases entries.len(),
{
    if entries.len() > 0 {
        let shorter = entries.drop_last();
        let last = entries.last();
        assert forall|i: int, j: int| 0 <= i < j < shorter.len() implies (
        #[trigger] shorter[i]).0.rank() < (#[trigger] shorter[j]).0.rank() by {
            assert(shorter[i] == entries[i] && shorter[j] == entries[j]);
        }
        lemma_entry_map(shorter);
        assert(!entry_map(shorter).dom().contains(last.0)) by {
            if entry_map(shorter).dom().contains(last.0) {
                let i = choose|i: int| 0 <= i < shorter.len() && (#[trigger] shorter[i]).0 == last.0;
                assert(entries[i].0.rank() < entries[entries.len() - 1].0.rank());
            }
        }
        assert forall|i: int| 0 <= i < entries.len() implies entry_map(entries).dom().contains(
            (#[trigger] entries[i]).0,
        ) && entry_map(entries)[entries[i].0] == entries[i].1 by {
            if i < shorter.len() {
                assert(shorter[i] == entries[i]);
                assert(entries[i].0.rank() < entries[entries.len() - 1].0.rank());
            }
        }
        assert forall|key: K| #[trigger] entry_map(entries).dom().contains(key) implies exists|
            i: int,
        |
            0 <= i < entries.len() && (#[trigger] entries[i]).0 == key by {
            if key != last.0 {
                let i = choose|i: int| 0 <= i < shorter.len() && (#[trigger] shorter[i]).0 == key;
                assert(entries[i].0 == key);
            } else {
                assert(entries[entries.len() - 1].0 == key);
            }
        }
    }
}

impl<K: MapKey, V: Copy> OrderedMap<K, V> {
    /// The entries are in strictly ascending key order.
    pub open spec fn wf(&self) -> bool {
        entries_sorted(self.entries@)
    }

    /// The represented map.
    pub open spec fn view(&self) -> Map<K, V> {
        entry_map(self.entries@)
    }

    /// What the entry list says of the represented map.
    pub proof fn lemma_view(&self)
        requires
            self.wf(),
        ensures
            self@.dom().finite(),
            self@.len() == self.entries@.len(),
            forall|i: int|
                0 <= i < self.entries@.len() ==> self@.dom().contains(
                    (#[trigger] self.entries@[i]).0,
                ) && self@[self.entries@[i].0] == self.entries@[i].1,
            forall|key: K| #[trigger]
                self@.dom().contains(key) ==> exists|i: int|
                    0 <= i < self.entries@.len() && (#[trigger] self.entries@[i]).0 == key,
    {
        lemma_entry_map(self.entries@);
    }

    /// Creates an empty map without a maximum and without reserved storage.
    pub(crate) fn unbounded() -> (r: Self)
        ensures
            r.wf(),
            r@ == Map::<K, V>::empty(),
            r.entries@.len() == 0,
    {
        let map = OrderedMap { entries: Vec::new(), maximum: usize::MAX, reserved: 0, initialized: 0 };
        proof {
            map.lemma_view();
            assert(map@ =~= Map::<K, V>::empty());
        }
        map
    }

    /// Creates an empty map with room for `maximum` entries, unless the room
    /// cannot be reserved.
    ///
    /// No room is always granted, and room that no vector can hold is always
    /// refused. Otherwise the allocator decides.
    pub fn try_with_capacity(maximum: usize) -> (r: Option<Self>)
        ensures
            maximum == 0 ==> r is Some,
            unrepresentable::<(K, V)>(maximum as int) ==> r is None,
            r matches Some(map) ==> {
                &&& map.wf()
                &&& map@ == Map::<K, V>::empty()
                &&& map.entries@.len() == 0
                &&& map.maximum == maximum
                &&& map.reserved == maximum
                &&& map.initialized == 0
            },
    {
        match try_vector(maximum) {
            Some(entries) => Some(
                OrderedMap { entries, maximum, reserved: maximum, initialized: 0 },
            ),
            None => None,
        }
    }

    /// Returns the number of entries.
    pub fn len(&self) -> (r: usize)
        ensures
            r == self.entries@.len(),
            self.wf() ==> r == self@.len(),
    {
        proof {
            if self.wf() {
                self.lemma_view();
            }
        }
        self.entries.len()
    }

    /// Returns whether the map holds no entry.
    pub fn is_empty(&self) -> (r: bool)
        ensures
            r == (self.entries@.len() == 0),
            self.wf() ==> r == (self@ == Map::<K, V>::empty()),
    {
        proof {
            if self.wf() {
                self.lemma_view();
                if self.entries@.len() > 0 {
                    assert(self@.dom().contains(self.entries@[0].0));
                }
            }
        }
        self.entries.len() == 0
    }

    /// Returns the configured maximum.
    pub fn maximum(&self) -> (r: usize)
        ensures
            r == self.maximum,
    {
        self.maximum
    }

    /// Returns the number of reserved slots.
    pub fn allocation_capacity(&self) -> (r: usize)
        ensures
            r == self.reserved,
    {
        self.reserved
    }

    /// Gives reserved but unused slots back to the allocator.
    pub fn shrink_to_fit(&mut self)
        ensures
            final(self).entries@ == old(self).entries@,
            final(self).maximum == old(self).maximum,
            final(self).reserved == old(self).entries@.len(),
            final(self).initialized == old(self).entries@.len(),
    {
        release_spare(&mut self.entries);
        self.reserved = self.entries.len();
        self.initialized = self.entries.len();
    }

    /// Finds the first index whose key is not before `key`.
    fn position(&self, key: K) -> (r: usize)
        requires
            self.wf(),
        ensures
            r <= self.entries@.len(),
            forall|i: int|
                0 <= i < r ==> (#[trigger] self.entries@[i]).0.rank() < key.rank(),
            forall|i: int|
                r <= i < self.entries@.len() ==> key.rank() <= (
                #[trigger] self.entries@[i]).0.rank(),
    {
        let mut low: usize = 0;
        let mut high: usize = self.entries.len();
        while low < high
            invariant
                self.wf(),
                low <= high <= self.entries@.len(),
                forall|i: int| 0 <= i < low ==> (#[trigger] self.entries@[i]).0.rank() < key.rank(),
                forall|i: int|
                    high <= i < self.entries@.len() ==> key.rank() <= (
                    #[trigger] self.entries@[i]).0.rank(),
            decreases high - low,
        {
            let middle: usize = low + (high - low) / 2;
            if self.entries[middle].0.is_before(key) {
                low = middle + 1;
            } else {
                high = middle;
            }
        }
        low
    }

    /// Returns the index of a key.
    fn find(&self, key: K) -> (r: Option<usize>)
        requires
            self.wf(),
        ensures
            match r {
                Some(i) => i < self.entries@.len() && self.entries@[i as int].0 == key
                    && self@.dom().contains(key) && self@[key] == self.entries@[i as int].1,
                None => !self@.dom().contains(key),
            },
    {
        let i: usize = self.position(key);
        proof {
            self.lemma_view();
        }
        if i < self.entries.len() && !key.is_before(self.entries[i].0) {
            proof {
                self.entries@[i as int].0.lemma_rank_injective(key);
            }
            Some(i)
        } else {
            None
        }
    }

    /// Returns a copy of the value of a key.
    pub fn get(&self, key: K) -> (r: Option<V>)
        requires
            self.wf(),
        ensures
            r == (if self@.dom().contains(key) {
                Some(self@[key])
            } else {
                None
            }),
    {
        match self.find(key) {
            Some(i) => Some(self.entries[i].1),
            None => None,
        }
    }

    /// Returns the value of a present key.
    pub fn fetch(&self, key: K) -> (r: V)
        requires
            self.wf(),
            self@.dom().contains(key),
        ensures
            r == self@[key],
    {
        let i: usize = self.position(key);
        proof {
            self.lemma_view();
            let j = choose|j: int| 0 <= j < self.entries@.len() && (#[trigger] self.entries@[j]).0 == key;
            assert(self.entries@[j].0.rank() == key.rank());
            if j > i {
                assert(self.entries@[i as int].0.rank() < self.entries@[j].0.rank());
            }
        }
        self.entries[i].1
    }

    /// Returns whether a key is present.
    pub fn contains_key(&self, key: K) -> (r: bool)
        requires
            self.wf(),
        ensures
            r == self@.dom().contains(key),
    {
        self.find(key).is_some()
    }

    /// Returns the value of a key for modification.
    pub fn get_mut(&mut self, key: K) -> (r: Option<&mut V>)
        requires
            old(self).wf(),
        ensures
            match r {
                Some(value) => {
                    &&& old(self)@.dom().contains(key)
                    &&& *value == old(self)@[key]
                    &&& final(self).wf()
                    &&& final(self)@ == old(self)@.insert(key, *final(value))
                    &&& final(self).entries@.len() == old(self).entries@.len()
                    &&& final(self).maximum == old(self).maximum
                    &&& final(self).reserved == old(self).reserved
                    &&& final(self).initialized == old(self).initialized
                },
                None => !old(self)@.dom().contains(key) && *final(self) == *old(self),
            },
    {
        match self.find(key) {
            Some(i) => {
                let ghost before = self.entries@;
                proof {
                    assert forall|value: V| entries_sorted(
                        #[trigger] before.update(i as int, (key, value)),
                    ) && entry_map(before.update(i as int, (key, value))) == entry_map(
                        before,
                    ).insert(key, value) by {
                        lemma_update(before, i as int, key, value);
                    }
                }
                Some(&mut self.entries[i].1)
            },
            None => None,
        }
    }

    /// Adds or overwrites one entry and returns the value that it replaces.
    pub fn insert(&mut self, key: K, value: V) -> (r: Option<V>)
        requires
            old(self).wf(),
        ensures
            final(self).wf(),
            final(self)@ == old(self)@.insert(key, value),
            r == (if old(self)@.dom().contains(key) {
                Some(old(self)@[key])
            } else {
                None
            }),
            final(self).entries@.len() == old(self).entries@.len() + (if old(self)@.dom().contains(
                key,
            ) {
                0int
            } else {
                1int
            }),
            final(self).maximum == old(self).maximum,
            final(self).reserved == old(self).reserved,
            final(self).initialized == (if old(self).initialized >= final(self).entries@.len() {
                old(self).initialized as nat
            } else {
                final(self).entries@.len()
            }),
    {
        let i: usize = self.position(key);
        proof {
            self.lemma_view();
        }
        if i < self.entries.len() && !key.is_before(self.entries[i].0) {
            proof {
                self.entries@[i as int].0.lemma_rank_injective(key);
                lemma_update(self.entries@, i as int, key, value);
            }
            let replaced = self.entries[i].1;
            self.entries.set(i, (key, value));
            self.initialize();
            Some(replaced)
        } else {
            proof {
                lemma_insert(self.entries@, i as int, key, value);
            }
            self.entries.insert(i, (key, value));
            self.initialize();
            None
        }
    }

    /// Counts every occupied slot as initialized.
    fn initialize(&mut self)
        ensures
            final(self).entries == old(self).entries,
            final(self).maximum == old(self).maximum,
            final(self).reserved == old(self).reserved,
            final(self).initialized == (if old(self).initialized >= old(self).entries@.len() {
                old(self).initialized as nat
            } else {
                old(self).entries@.len()
            }),
    {
        if self.initialized < self.entries.len() {
            self.initialized = self.entries.len();
        }
    }

    /// Removes one entry and returns its value.
    pub fn remove(&mut self, key: K) -> (r: Option<V>)
        requires
            old(self).wf(),
        ensures
            final(self).wf(),
            final(self)@ == old(self)@.remove(key),
            r == (if old(self)@.dom().contains(key) {
                Some(old(self)@[key])
            } else {
                None
            }),
            final(self).entries@.len() == old(self).entries@.len() - (if old(self)@.dom().contains(
                key,
            ) {
                1int
            } else {
                0int
            }),
            final(self).maximum == old(self).maximum,
            final(self).reserved == old(self).reserved,
            final(self).initialized == old(self).initialized,
    {
        match self.find(key) {
            Some(i) => {
                proof {
                    lemma_remove(self.entries@, i as int);
                }
                let (_key, value) = self.entries.remove(i);
                Some(value)
            },
            None => {
                proof {
                    assert(self@.remove(key) =~= self@);
                }
                None
            },
        }
    }

    /// Removes every entry.
    pub fn clear(&mut self)
        ensures
            final(self).wf(),
            final(self)@ == Map::<K, V>::empty(),
            final(self).entries@.len() == 0,
            final(self).maximum == old(self).maximum,
            final(self).reserved == old(self).reserved,
            final(self).initialized == old(self).initialized,
    {
        self.entries.clear();
    }

    /// Returns the key at one position of the ascending order.
    pub fn key_at(&self, index: usize) -> (r: K)
        requires
            index < self.entries@.len(),
        ensures
            r == self.entries@[index as int].0,
            self.wf() ==> self@.dom().contains(r),
    {
        proof {
            if self.wf() {
                self.lemma_view();
            }
        }
        self.entries[index].0
    }

    /// Returns the value at one position of the ascending order.
    pub fn value_at(&self, index: usize) -> (r: V)
        requires
            index < self.entries@.len(),
        ensures
            r == self.entries@[index as int].1,
            self.wf() ==> r == self@[self.entries@[index as int].0],
    {
        proof {
            if self.wf() {
                self.lemma_view();
            }
        }
        self.entries[index].1
    }

    /// Returns whether the entries are in order and within the maximum.
    pub fn validate(&self) -> (r: bool)
        ensures
            r == (self.wf() && self.entries@.len() <= self.maximum),
    {
        self.entries.len() <= self.maximum && self.is_sorted()
    }

    /// Checks that keys strictly ascend.
    pub fn is_sorted(&self) -> (r: bool)
        ensures
            r == self.wf(),
    {
        let mut index: usize = 1;
        while index < self.entries.len()
            invariant
                1 <= index,
                forall|i: int, j: int|
                    0 <= i < j < index && j < self.entries@.len() ==> (
                    #[trigger] self.entries@[i]).0.rank() < (#[trigger] self.entries@[j]).0.rank(),
            decreases self.entries@.len() - index,
        {
            if !self.entries[index - 1].0.is_before(self.entries[index].0) {
                proof {
                    assert(!(self.entries@[index - 1].0.rank() < self.entries@[index as int].0.rank()));
                }
                return false;
            }
            proof {
                assert forall|i: int, j: int| 0 <= i < j < index + 1 implies (
                #[trigger] self.entries@[i]).0.rank() < (#[trigger] self.entries@[j]).0.rank() by {
                    if j == index && i < index - 1 {
                        assert(self.entries@[i].0.rank() < self.entries@[index - 1].0.rank());
                    }
                }
            }
            index += 1;
        }
        true
    }
}

proof fn lemma_update<K: MapKey, V>(entries: Seq<(K, V)>, index: int, key: K, value: V)
    requires
        entries_sorted(entries),
        0 <= index < entries.len(),
        entries[index].0 == key,
    ensures
        entries_sorted(entries.update(index, (key, value))),
        entry_map(entries.update(index, (key, value))) == entry_map(entries).insert(key, value),
{
    let updated = entries.update(index, (key, value));
    assert forall|i: int, j: int| 0 <= i < j < updated.len() implies (
    #[trigger] updated[i]).0.rank() < (#[trigger] updated[j]).0.rank() by {
        assert(entries[i].0.rank() < entries[j].0.rank());
    }
    lemma_entry_map(entries);
    lemma_entry_map(updated);
    let left = entry_map(updated);
    let right = entry_map(entries).insert(key, value);
    assert forall|k: K| left.dom().contains(k) == right.dom().contains(k) by {
        if left.dom().contains(k) {
            let i = choose|i: int| 0 <= i < updated.len() && (#[trigger] updated[i]).0 == k;
            assert(entries[i].0 == k);
        }
        if right.dom().contains(k) {
            if k == key {
                assert(updated[index].0 == key);
            } else {
                let i = choose|i: int| 0 <= i < entries.len() && (#[trigger] entries[i]).0 == k;
                assert(updated[i].0 == k);
            }
        }
    }
    assert forall|k: K| left.dom().contains(k) implies left[k] == right[k] by {
        let i = choose|i: int| 0 <= i < updated.len() && (#[trigger] updated[i]).0 == k;
        if i == index {
            assert(updated[index].1 == value);
        } else {
            assert(entries[i] == updated[i]);
            if k == key {
                assert(entries[i].0.rank() == entries[index].0.rank());
            }
        }
    }
    assert(left =~= right);
}

proof fn lemma_insert<K: MapKey, V>(entries: Seq<(K, V)>, index: int, key: K, value: V)
    requires
        entries_sorted(entries),
        0 <= index <= entries.len(),
        forall|i: int| 0 <= i < index ==> (#[trigger] entries[i]).0.rank() < key.rank(),
        forall|i: int| index <= i < entries.len() ==> key.rank() <= (#[trigger] entries[i]).0.rank(),
        index < entries.len() ==> key.rank() < entries[index].0.rank(),
    ensures
        entries_sorted(entries.insert(index, (key, value))),
        entry_map(entries.insert(index, (key, value))) == entry_map(entries).insert(key, value),
        !entry_map(entries).dom().contains(key),
{
    let updated = entries.insert(index, (key, value));
    assert forall|i: int| index <= i < entries.len() implies key.rank() < (
    #[trigger] entries[i]).0.rank() by {
        if i > index {
            assert(entries[index].0.rank() < entries[i].0.rank());
        }
    }
    assert forall|i: int, j: int| 0 <= i < j < updated.len() implies (
    #[trigger] updated[i]).0.rank() < (#[trigger] updated[j]).0.rank() by {
        let a = if i < index {
            i
        } else {
            i - 1
        };
        let b = if j < index {
            j
        } else {
            j - 1
        };
        if i == index {
            assert(updated[j] == entries[b]);
        } else if j == index {
            assert(updated[i] == entries[a]);
        } else {
            assert(updated[i] == entries[a] && updated[j] == entries[b]);
        }
    }
    lemma_entry_map(entries);
    lemma_entry_map(updated);
    let left = entry_map(updated);
    let right = entry_map(entries).insert(key, value);
    assert(!entry_map(entries).dom().contains(key)) by {
        if entry_map(entries).dom().contains(key) {
            let i = choose|i: int| 0 <= i < entries.len() && (#[trigger] entries[i]).0 == key;
            assert(entries[i].0.rank() == key.rank());
        }
    }
    assert forall|k: K| left.dom().contains(k) == right.dom().contains(k) by {
        if left.dom().contains(k) {
            let i = choose|i: int| 0 <= i < updated.len() && (#[trigger] updated[i]).0 == k;
            if i < index {
                assert(entries[i].0 == k);
            } else if i > index {
                assert(entries[i - 1].0 == k);
            }
        }
        if right.dom().contains(k) {
            if k == key {
                assert(updated[index].0 == key);
            } else {
                let i = choose|i: int| 0 <= i < entries.len() && (#[trigger] entries[i]).0 == k;
                if i < index {
                    assert(updated[i].0 == k);
                } else {
                    assert(updated[i + 1].0 == k);
                }
            }
        }
    }
    assert forall|k: K| left.dom().contains(k) implies left[k] == right[k] by {
        let i = choose|i: int| 0 <= i < updated.len() && (#[trigger] updated[i]).0 == k;
        if i < index {
            assert(entries[i] == updated[i]);
        } else if i > index {
            assert(entries[i - 1] == updated[i]);
        } else {
            assert(updated[index].1 == value);
        }
    }
    assert(left =~= right);
}

proof fn lemma_remove<K: MapKey, V>(entries: Seq<(K, V)>, index: int)
    requires
        entries_sorted(entries),
        0 <= index < entries.len(),
    ensures
        entries_sorted(entries.remove(index)),
        entry_map(entries.remove(index)) == entry_map(entries).remove(entries[index].0),
{
    let updated = entries.remove(index);
    let key = entries[index].0;
    assert forall|i: int, j: int| 0 <= i < j < updated.len() implies (
    #[trigger] updated[i]).0.rank() < (#[trigger] updated[j]).0.rank() by {
        let a = if i < index {
            i
        } else {
            i + 1
        };
        let b = if j < index {
            j
        } else {
            j + 1
        };
        assert(updated[i] == entries[a] && updated[j] == entries[b]);
    }
    lemma_entry_map(entries);
    lemma_entry_map(updated);
    let left = entry_map(updated);
    let right = entry_map(entries).remove(key);
    assert forall|k: K| left.dom().contains(k) == right.dom().contains(k) by {
        if left.dom().contains(k) {
            let i = choose|i: int| 0 <= i < updated.len() && (#[trigger] updated[i]).0 == k;
            let a = if i < index {
                i
            } else {
                i + 1
            };
            assert(entries[a] == updated[i]);
            if k == key {
                assert(entries[a].0.rank() == entries[index].0.rank());
            }
        }
        if right.dom().contains(k) {
            let i = choose|i: int| 0 <= i < entries.len() && (#[trigger] entries[i]).0 == k;
            assert(i != index);
            if i < index {
                assert(updated[i].0 == k);
            } else {
                assert(updated[i - 1].0 == k);
            }
        }
    }
    assert forall|k: K| left.dom().contains(k) implies left[k] == right[k] by {
        let i = choose|i: int| 0 <= i < updated.len() && (#[trigger] updated[i]).0 == k;
        let a = if i < index {
            i
        } else {
            i + 1
        };
        assert(entries[a] == updated[i]);
    }
    assert(left =~= right);
}

/// An empty index with room for a maximum.
pub open spec fn index_reserved<K: MapKey, V: Copy>(
    index: Option<OrderedMap<K, V>>,
    maximum: usize,
) -> bool {
    index matches Some(map) ==> {
        &&& map.wf()
        &&& map@ == Map::<K, V>::empty()
        &&& map.entries@.len() == 0
        &&& map.maximum == maximum == map.reserved
    }
}

} // verus!
