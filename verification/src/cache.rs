//! A cache that remembers how recently each of its entries was used.
//!
//! The entries lie in a binary heap ordered by the time of their last use, so that the entry that
//! has been left alone for the longest time is always at the root.

use vstd::prelude::*;

use crate::key_index::{
    bimap_contains_left, bimap_default, bimap_get_by_left, bimap_get_by_right, bimap_insert,
};

verus! {

use crate::key_index::{bimap_pairs, paired};

/// A cache of entries of type `T`, each under a key.
pub struct LRUCache<T> {
    cache: Vec<(usize, T)>,
    index_map: bimap::BiHashMap<u64, usize>,
    current_time: usize,
}

/// Whether key `k` sits in slot `j`.
pub open spec fn in_slot(pairs: Map<u64, usize>, k: u64, j: int) -> bool {
    pairs.contains_key(k) && pairs[k] == j
}

/// Whether some key sits in slot `j`.
pub open spec fn occupied(pairs: Map<u64, usize>, j: int) -> bool {
    exists|k: u64| #[trigger] in_slot(pairs, k, j)
}

/// Whether `pairs` puts its keys one to one into the slots below `n`.
pub open spec fn numbered(pairs: Map<u64, usize>, n: int) -> bool {
    &&& forall|k: u64| #[trigger] pairs.contains_key(k) ==> pairs[k] < n
    &&& forall|a: u64, b: u64| #[trigger]
        pairs.contains_key(a) && #[trigger] pairs.contains_key(b) && pairs[a] == pairs[b] ==> a == b
    &&& forall|j: int| 0 <= j < n ==> #[trigger] occupied(pairs, j)
}

/// Whether slot `j` was last used after its parent in the heap.
pub open spec fn after_parent<T>(slots: Seq<(usize, T)>, j: int) -> bool {
    slots[(j - 1) / 2].0 < slots[j].0
}

/// Whether `slots` is a heap whose root is the least recently used entry.
pub open spec fn heap_ordered<T>(slots: Seq<(usize, T)>) -> bool {
    forall|j: int| 0 < j < slots.len() ==> #[trigger] after_parent(slots, j)
}

/// Whether no two slots were last used at the same time.
pub open spec fn distinct_times<T>(slots: Seq<(usize, T)>) -> bool {
    forall|i: int, j: int|
        0 <= i < slots.len() && 0 <= j < slots.len() && i != j ==> (#[trigger] slots[i]).0 != (
        #[trigger] slots[j]).0
}

/// Whether no slot was last used after `time`.
pub open spec fn used_by<T>(slots: Seq<(usize, T)>, time: int) -> bool {
    forall|j: int| 0 <= j < slots.len() ==> (#[trigger] slots[j]).0 <= time
}

/// Whether the slots are a heap with distinct times, none after `time`, and the last is the most
/// recently used one.
pub open spec fn well_timed<T>(slots: Seq<(usize, T)>, time: int) -> bool {
    &&& distinct_times(slots)
    &&& heap_ordered(slots)
    &&& used_by(slots, time)
    &&& used_by(slots, slots[slots.len() - 1].0 as int)
}

/// The heap order, but for the place of slot `hole` among its children.
spec fn heap_but<T>(slots: Seq<(usize, T)>, hole: int) -> bool {
    &&& forall|j: int|
        0 < j < slots.len() && (j - 1) / 2 != hole ==> #[trigger] after_parent(slots, j)
    &&& forall|j: int|
        0 < j < slots.len() && (j - 1) / 2 == hole && hole > 0 ==> slots[(hole - 1) / 2].0 < (
        #[trigger] slots[j]).0
}

/// Whether the keys other than `aside` are the same before and after and have kept their slots'
/// contents, and now fill all the slots.
spec fn kept<T>(
    before: Map<u64, usize>,
    slots_before: Seq<(usize, T)>,
    after: Map<u64, usize>,
    slots_after: Seq<(usize, T)>,
    aside: u64,
) -> bool {
    &&& numbered(after.remove(aside), slots_after.len() as int)
    &&& after.contains_key(aside) ==> after[aside] == slots_after.len()
    &&& forall|k: u64|
        k != aside ==> (#[trigger] after.contains_key(k) <==> before.contains_key(k))
    &&& forall|k: u64|
        k != aside && #[trigger] after.contains_key(k) ==> slots_after[after[k] as int]
            == slots_before[before[k] as int]
}

/// Exchanging the keys of two slots together with the slots' contents changes no entry.
proof fn lemma_exchange<T>(
    pairs: Map<u64, usize>,
    slots: Seq<(usize, T)>,
    a: u64,
    i: usize,
    b: u64,
    j: usize,
    aside: u64,
)
    requires
        kept(pairs, slots, pairs, slots, aside),
        i < slots.len(),
        j < slots.len(),
        i != j,
        in_slot(pairs, a, i as int),
        in_slot(pairs, b, j as int),
    ensures
        kept(
            pairs,
            slots,
            paired(paired(pairs, b, i), a, j),
            slots.update(i as int, slots[j as int]).update(j as int, slots[i as int]),
            aside,
        ),
{
    let after = paired(paired(pairs, b, i), a, j);
    let slots_after = slots.update(i as int, slots[j as int]).update(j as int, slots[i as int]);
    assert(a != aside && b != aside);
    let p = pairs.remove(aside);
    let q = after.remove(aside);
    assert(p.contains_key(a) && p.contains_key(b));
    assert forall|k: u64| k != aside implies (#[trigger] after.contains_key(k)
        <==> pairs.contains_key(k)) by {
        if pairs.contains_key(k) {
            assert(p.contains_key(k));
        }
    }
    assert forall|k: u64| #[trigger] q.contains_key(k) implies q[k] < slots.len() by {
        assert(after.contains_key(k));
        assert(p.contains_key(k));
    }
    assert forall|k: u64, l: u64| #[trigger]
        q.contains_key(k) && #[trigger] q.contains_key(l) && q[k] == q[l] implies k == l by {
        assert(after.contains_key(k) && after.contains_key(l));
        assert(p.contains_key(k) && p.contains_key(l));
    }
    assert forall|s: int| 0 <= s < slots.len() implies #[trigger] occupied(q, s) by {
        assert(occupied(p, s));
        let k = choose|k: u64| in_slot(p, k, s);
        if s == i {
            assert(in_slot(q, b, s));
        } else if s == j {
            assert(in_slot(q, a, s));
        } else {
            assert(in_slot(q, k, s));
        }
    }
    assert forall|k: u64| k != aside && #[trigger] after.contains_key(k) implies slots_after[
        after[k] as int] == slots[pairs[k] as int] by {
        assert(p.contains_key(k));
    }
}

/// Once the entry in the hole was used before its children, the slots are a heap.
proof fn lemma_sunk<T>(slots: Seq<(usize, T)>, hole: int)
    requires
        0 <= hole,
        heap_but(slots, hole),
        2 * hole + 1 < slots.len() ==> slots[hole].0 < slots[2 * hole + 1].0,
        2 * hole + 2 < slots.len() ==> slots[hole].0 < slots[2 * hole + 2].0,
    ensures
        heap_ordered(slots),
{
    assert forall|j: int| 0 < j < slots.len() implies #[trigger] after_parent(slots, j) by {
        if (j - 1) / 2 == hole {
            assert(j == 2 * hole + 1 || j == 2 * hole + 2);
        }
    }
}

/// Exchanging the hole with the older of its children moves the hole one level down.
proof fn lemma_sink<T>(slots: Seq<(usize, T)>, hole: int, child: int)
    requires
        0 <= hole < child < slots.len(),
        child == 2 * hole + 1 || child == 2 * hole + 2,
        heap_but(slots, hole),
        slots[child].0 < slots[hole].0,
        child != 2 * hole + 1 ==> slots[child].0 < slots[2 * hole + 1].0,
        child != 2 * hole + 2 && 2 * hole + 2 < slots.len() ==> slots[child].0 < slots[2 * hole + 2].0,
    ensures
        heap_but(slots.update(hole, slots[child]).update(child, slots[hole]), child),
{
    let after = slots.update(hole, slots[child]).update(child, slots[hole]);
    assert forall|j: int|
        0 < j < after.len() && (j - 1) / 2 != child implies #[trigger] after_parent(after, j) by {
        if j == hole {
            assert(slots[(hole - 1) / 2].0 < slots[child].0);
        } else if (j - 1) / 2 == hole {
            assert(j == 2 * hole + 1 || j == 2 * hole + 2);
        } else {
            assert(after_parent(slots, j));
        }
    }
    assert forall|j: int| 0 < j < after.len() && (j - 1) / 2 == child implies after[(child - 1)
        / 2].0 < (#[trigger] after[j]).0 by {
        assert(after_parent(slots, j));
    }
}

/// Taking `index` out of its slot `i`, and moving the last slot there, keeps all other entries.
proof fn lemma_set_aside<T>(
    pairs: Map<u64, usize>,
    slots: Seq<(usize, T)>,
    index: u64,
    i: usize,
    moved: u64,
)
    requires
        numbered(pairs, slots.len() as int),
        distinct_times(slots),
        heap_ordered(slots),
        used_by(slots, slots[slots.len() - 1].0 as int),
        in_slot(pairs, index, i as int),
        in_slot(pairs, moved, slots.len() - 1),
    ensures
        ({
            let rest = slots.update(i as int, slots.last()).drop_last();
            &&& kept(pairs, slots, paired(pairs, moved, i), rest, index)
            &&& distinct_times(rest)
            &&& heap_but(rest, i as int)
        }),
{
    let rest = slots.update(i as int, slots.last()).drop_last();
    let after = paired(pairs, moved, i);
    let q = after.remove(index);
    assert forall|s: int| 0 <= s < rest.len() implies #[trigger] occupied(q, s) by {
        assert(occupied(pairs, s));
        let k = choose|k: u64| in_slot(pairs, k, s);
        if s == i {
            assert(in_slot(q, moved, s));
        } else {
            assert(in_slot(q, k, s));
        }
    }
    assert forall|j: int| 0 < j < rest.len() && (j - 1) / 2 != i implies #[trigger] after_parent(
        rest,
        j,
    ) by {
        assert(after_parent(slots, j));
    }
    assert forall|j: int| 0 < j < rest.len() && (j - 1) / 2 == i && i > 0 implies rest[(i - 1)
        / 2].0 < (#[trigger] rest[j]).0 by {
        assert(after_parent(slots, j));
        assert(after_parent(slots, i as int));
    }
}

/// Putting the entry of `index` back into a new last slot.
proof fn lemma_put_back<T>(
    before: Map<u64, usize>,
    slots_before: Seq<(usize, T)>,
    pairs: Map<u64, usize>,
    slots: Seq<(usize, T)>,
    index: u64,
    value: (usize, T),
)
    requires
        kept(before, slots_before, pairs, slots, index),
        distinct_times(slots),
        heap_ordered(slots),
        used_by(slots, value.0 - 1),
        slots.len() < usize::MAX,
    ensures
        ({
            let after = paired(pairs, index, slots.len() as usize);
            &&& numbered(after, slots.len() as int + 1)
            &&& after[index] == slots.len()
            &&& forall|k: u64| #[trigger] after.contains_key(k) <==> k == index || before.contains_key(k)
            &&& forall|k: u64| k != index && #[trigger] after.contains_key(k) ==> {
                &&& after[k] < slots.len()
                &&& slots[after[k] as int] == slots_before[before[k] as int]
            }
        }),
        forall|e: T| well_timed(#[trigger] slots.push((value.0, e)), value.0 as int),
{
    let after = paired(pairs, index, slots.len() as usize);
    let p = pairs.remove(index);
    assert forall|k: u64| k != index && #[trigger] after.contains_key(k) implies pairs.contains_key(k)
        && after[k] < slots.len() by {
        assert(p.contains_key(k));
    }
    assert forall|k: u64| k != index && #[trigger] before.contains_key(k) implies after.contains_key(k) by {
        assert(pairs.contains_key(k));
        assert(p.contains_key(k));
    }
    assert forall|s: int| 0 <= s < slots.len() + 1 implies #[trigger] occupied(after, s) by {
        if s == slots.len() {
            assert(in_slot(after, index, s));
        } else {
            assert(occupied(p, s));
            let k = choose|k: u64| in_slot(p, k, s);
            assert(in_slot(after, k, s));
        }
    }
    assert forall|a: u64, b: u64| #[trigger]
        after.contains_key(a) && #[trigger] after.contains_key(b) && after[a] == after[b] implies a == b by {
        assert(a != index ==> p.contains_key(a));
        assert(b != index ==> p.contains_key(b));
    }
    assert forall|e: T| well_timed(#[trigger] slots.push((value.0, e)), value.0 as int) by {
        let s = slots.push((value.0, e));
        assert forall|j: int| 0 < j < s.len() implies #[trigger] after_parent(s, j) by {
            if j < slots.len() {
                assert(after_parent(slots, j));
            }
        }
    }
}

/// Whether `after` is `before` with `value` as the entry for `index`, used just now.
pub open spec fn used<T>(before: LRUCache<T>, after: LRUCache<T>, index: u64, value: T) -> bool {
    &&& after.entries() == before.entries().insert(index, value)
    &&& after.last_use() == before.last_use().insert(index, (before.clock() + 1) as nat)
    &&& after.clock() == before.clock() + 1
}

/// Whether looking for `index` in `before` may give `entry` and leave `after`.
pub open spec fn gets<T>(before: LRUCache<T>, after: LRUCache<T>, index: u64, entry: Option<T>) -> bool {
    match entry {
        Some(value) => {
            &&& before.entries().contains_key(index)
            &&& value == before.entries()[index]
            &&& used(before, after, index, value)
        },
        None => {
            &&& !before.entries().contains_key(index)
            &&& after == before
        },
    }
}

impl<T> LRUCache<T> {
    /// The slot of each key.
    pub closed spec fn slot_of(self) -> Map<u64, usize> {
        bimap_pairs(self.index_map)
    }

    /// The slots: each holds the time of the last use of its entry, and the entry.
    pub closed spec fn slots(self) -> Seq<(usize, T)> {
        self.cache@
    }

    /// How many uses there have been so far.
    pub closed spec fn clock(self) -> nat {
        self.current_time as nat
    }

    /// The entries.
    pub open spec fn entries(self) -> Map<u64, T> {
        Map::new(
            |k: u64| self.slot_of().contains_key(k),
            |k: u64| self.slots()[self.slot_of()[k] as int].1,
        )
    }

    /// The time at which each entry was last used.
    pub open spec fn last_use(self) -> Map<u64, nat> {
        Map::new(
            |k: u64| self.slot_of().contains_key(k),
            |k: u64| self.slots()[self.slot_of()[k] as int].0 as nat,
        )
    }

    /// The cache is sound: each key has a slot of its own and each slot a key, no two entries were
    /// last used at the same time, none after the present, the slots form a heap, and the last
    /// slot is the most recently used one.
    pub open spec fn well_formed(self) -> bool {
        let slots = self.slots();
        &&& numbered(self.slot_of(), slots.len() as int)
        &&& well_timed(slots, self.clock() as int)
    }

    /// The key of the least recently used entry.
    pub open spec fn oldest(self) -> u64 {
        choose|k: u64| in_slot(self.slot_of(), k, 0)
    }

    /// An empty cache.
    pub fn new() -> (cache: Self)
        ensures
            cache.well_formed(),
            cache.entries() == Map::<u64, T>::empty(),
            cache.last_use() == Map::<u64, nat>::empty(),
            cache.clock() == 0,
    {
        LRUCache { cache: Vec::new(), index_map: bimap_default(), current_time: 0 }
    }

    /// Whether there is an entry for `index`.
    pub fn contains(&self, index: u64) -> (found: bool)
        ensures
            found == self.entries().contains_key(index),
    {
        bimap_contains_left(&self.index_map, index)
    }

    /// Exchanges slots `i` and `j` and the keys that sit in them.
    fn exchange(&mut self, i: usize, j: usize, Ghost(aside): Ghost<u64>)
        requires
            kept(old(self).slot_of(), old(self).slots(), old(self).slot_of(), old(self).slots(), aside),
            i < j < old(self).slots().len(),
        ensures
            kept(old(self).slot_of(), old(self).slots(), final(self).slot_of(), final(self).slots(), aside),
            final(self).slots() == old(self).slots().update(i as int, old(self).slots()[j as int]).update(
                j as int,
                old(self).slots()[i as int],
            ),
            final(self).clock() == old(self).clock(),
    {
        let ghost pairs = self.slot_of();
        let ghost slots = self.slots();
        proof {
            let p = pairs.remove(aside);
            assert(occupied(p, i as int) && occupied(p, j as int));
            let a = choose|k: u64| in_slot(p, k, i as int);
            let b = choose|k: u64| in_slot(p, k, j as int);
            assert(pairs.contains_key(a) && pairs.contains_key(b));
        }
        match (bimap_get_by_right(&self.index_map, i), bimap_get_by_right(&self.index_map, j)) {
            (Some(a), Some(b)) => {
                bimap_insert(&mut self.index_map, b, i);
                bimap_insert(&mut self.index_map, a, j);
                proof {
                    lemma_exchange(pairs, slots, a, i, b, j, aside);
                }
            },
            _ => {
                assert(false);
            },
        }
        let (low, high) = self.cache.as_mut_slice().split_at_mut(j);
        core::mem::swap(&mut low[i], &mut high[0]);
        assert(self.slots() =~= slots.update(i as int, slots[j as int]).update(
            j as int,
            slots[i as int],
        ));
    }

    /// Lets the entry in slot `start` sink until the slots are a heap again.
    fn sift_down(&mut self, start: usize, Ghost(aside): Ghost<u64>)
        requires
            kept(old(self).slot_of(), old(self).slots(), old(self).slot_of(), old(self).slots(), aside),
            start <= old(self).slots().len() < usize::MAX,
            distinct_times(old(self).slots()),
            heap_but(old(self).slots(), start as int),
            used_by(old(self).slots(), old(self).clock() as int),
        ensures
            kept(old(self).slot_of(), old(self).slots(), final(self).slot_of(), final(self).slots(), aside),
            final(self).slots().len() == old(self).slots().len(),
            distinct_times(final(self).slots()),
            heap_ordered(final(self).slots()),
            forall|time: int| used_by(old(self).slots(), time) ==> used_by(final(self).slots(), time),
            final(self).clock() == old(self).clock(),
    {
        let ghost pairs = self.slot_of();
        let ghost slots = self.slots();
        let mut current: usize = start;
        proof {
            if slots.len() - current <= current + 1 {
                lemma_sunk(slots, current as int);
            }
        }
        while current < self.cache.len() && self.cache.len() - current > current + 1
            invariant
                self.slots().len() == slots.len(),
                current <= slots.len() < usize::MAX,
                kept(pairs, slots, self.slot_of(), self.slots(), aside),
                kept(self.slot_of(), self.slots(), self.slot_of(), self.slots(), aside),
                distinct_times(self.slots()),
                heap_but(self.slots(), current as int),
                forall|time: int| used_by(slots, time) ==> used_by(self.slots(), time),
                self.clock() == old(self).clock(),
                slots.len() - current <= current + 1 ==> heap_ordered(self.slots()),
            ensures
                heap_ordered(self.slots()),
            decreases slots.len() - current,
        {
            let left: usize = current * 2 + 1;
            let has_right: bool = self.cache.len() - left > 1;
            let ghost here = self.slots();
            if self.cache[current].0 < self.cache[left].0 && (!has_right || self.cache[current].0
                < self.cache[left + 1].0) {
                proof {
                    lemma_sunk(here, current as int);
                }
                break;
            } else if !has_right || self.cache[left].0 < self.cache[left + 1].0 {
                self.exchange(current, left, Ghost(aside));
                proof {
                    lemma_sink(here, current as int, left as int);
                }
                current = left;
            } else {
                self.exchange(current, left + 1, Ghost(aside));
                proof {
                    lemma_sink(here, current as int, left + 1);
                }
                current = left + 1;
            }
            proof {
                if slots.len() - current <= current + 1 {
                    lemma_sunk(self.slots(), current as int);
                }
            }
        }
    }

    /// The entry for `index`, if there is one.  It counts as used.
    pub fn get_cache_mut(&mut self, index: u64) -> (entry: Option<&mut T>)
        requires
            old(self).well_formed(),
            old(self).clock() < usize::MAX,
        ensures
            final(self).well_formed(),
            match entry {
                Some(e) => {
                    &&& old(self).entries().contains_key(index)
                    &&& *e == old(self).entries()[index]
                    &&& used(*old(self), *final(self), index, *final(e))
                },
                None => {
                    &&& !old(self).entries().contains_key(index)
                    &&& *final(self) == *old(self)
                },
            },
    {
        match bimap_get_by_left(&self.index_map, index) {
            Some(i) => {
                let ghost before = *self;
                proof {
                    assert(i < self.cache.len() <= usize::MAX);
                    assert(occupied(self.slot_of(), self.slots().len() - 1));
                }
                let mut value = self.cache.swap_remove(i);
                self.current_time = self.current_time + 1;
                value.0 = self.current_time;
                let rest: usize = self.cache.len();
                match bimap_get_by_right(&self.index_map, rest) {
                    Some(moved) => {
                        bimap_insert(&mut self.index_map, moved, i);
                        proof {
                            lemma_set_aside(before.slot_of(), before.slots(), index, i, moved);
                        }
                    },
                    None => {
                        assert(false);
                    },
                }
                self.sift_down(i, Ghost(index));
                let ghost sifted = *self;
                bimap_insert(&mut self.index_map, index, rest);
                self.cache.push(value);
                proof {
                    lemma_put_back(before.slot_of(), before.slots(), sifted.slot_of(), sifted.slots(), index, value);
                }
                let ghost done = *final(self);
                let entry = &mut self.cache[rest].1;
                assert(done.slots() =~= sifted.slots().push((value.0, *final(entry))));
                assert(done.entries() =~= before.entries().insert(index, *final(entry)));
                assert(done.last_use() =~= before.last_use().insert(
                    index,
                    (before.clock() + 1) as nat,
                ));
                Some(entry)
            },
            None => None,
        }
    }

    /// The entry for `index`, if there is one, to be looked at.  It counts as used.
    pub fn get_cache(&mut self, index: u64) -> (entry: Option<&T>)
        requires
            old(self).well_formed(),
            old(self).clock() < usize::MAX,
        ensures
            final(self).well_formed(),
            match entry {
                Some(e) => {
                    &&& old(self).entries().contains_key(index)
                    &&& *e == old(self).entries()[index]
                    &&& used(*old(self), *final(self), index, *e)
                },
                None => {
                    &&& !old(self).entries().contains_key(index)
                    &&& *final(self) == *old(self)
                },
            },
            gets(
                *old(self),
                *final(self),
                index,
                match entry {
                    Some(e) => Some(*e),
                    None => None,
                },
            ),
    {
        match self.get_cache_mut(index) {
            Some(entry) => Some(&*entry),
            None => None,
        }
    }

    /// Makes `value` the entry for `index`.  It counts as used.
    pub fn insert_cache(&mut self, index: u64, value: T) -> (entry: &T)
        requires
            old(self).well_formed(),
            old(self).clock() < usize::MAX,
        ensures
            final(self).well_formed(),
            *entry == value,
            used(*old(self), *final(self), index, value),
    {
        if self.contains(index) {
            let entry = self.get_cache_mut(index).unwrap();
            *entry = value;
            entry
        } else {
            let ghost before = *self;
            self.current_time = self.current_time + 1;
            let slot: usize = self.cache.len();
            bimap_insert(&mut self.index_map, index, slot);
            self.cache.push((self.current_time, value));
            proof {
                assert(self.cache.len() <= usize::MAX);
                assert(before.slot_of().remove(index) =~= before.slot_of());
                lemma_put_back(
                    before.slot_of(),
                    before.slots(),
                    before.slot_of(),
                    before.slots(),
                    index,
                    (self.current_time, value),
                );
                assert(self.entries() =~= before.entries().insert(index, value));
                assert(self.last_use() =~= before.last_use().insert(
                    index,
                    (before.clock() + 1) as nat,
                ));
            }
            &self.cache[slot].1
        }
    }
}

/// A slot was never used before the root of the heap.
proof fn lemma_root_is_first<T>(slots: Seq<(usize, T)>, j: int)
    requires
        heap_ordered(slots),
        0 <= j < slots.len(),
    ensures
        slots[0].0 <= slots[j].0,
    decreases j,
{
    if j > 0 {
        assert(after_parent(slots, j));
        lemma_root_is_first(slots, (j - 1) / 2);
    }
}

/// Every entry of the cache was used after the oldest one, but for that entry itself.
pub proof fn law_oldest_is_least_recently_used<T>(cache: LRUCache<T>, key: u64)
    requires
        cache.well_formed(),
        cache.entries().contains_key(key),
    ensures
        cache.entries().contains_key(cache.oldest()),
        key != cache.oldest() ==> cache.last_use()[cache.oldest()] < cache.last_use()[key],
{
    let j = cache.slot_of()[key] as int;
    assert(occupied(cache.slot_of(), 0));
    lemma_root_is_first(cache.slots(), j);
    assert(cache.slots()[0].0 == cache.slots()[j].0 ==> j == 0);
}

/// What was put in for a key is what is found there, however often other keys are used.
pub proof fn law_entry_stays_until_replaced<T>(
    before: LRUCache<T>,
    after: LRUCache<T>,
    later: LRUCache<T>,
    key: u64,
    value: T,
    other: u64,
    other_value: T,
)
    requires
        used(before, after, key, value),
        used(after, later, other, other_value),
        other != key,
    ensures
        later.entries().contains_key(key),
        later.entries()[key] == value,
        later.last_use()[key] == after.last_use()[key],
{
}

/// An entry that has just been used is never the oldest, unless it is the only one.
pub proof fn law_just_used_is_not_oldest<T>(
    before: LRUCache<T>,
    after: LRUCache<T>,
    key: u64,
    value: T,
    other: u64,
)
    requires
        before.well_formed(),
        after.well_formed(),
        used(before, after, key, value),
        before.entries().contains_key(other),
        other != key,
    ensures
        after.oldest() != key,
{
    law_oldest_is_least_recently_used(after, other);
    assert(after.last_use()[key] == before.clock() + 1);
    assert(after.last_use()[other] == before.last_use()[other]);
}

/// The use of an entry makes it the one that was used last, and changes no other: all others are
/// there as before, with their values, and in the same order of their last uses.
pub proof fn law_use_changes_one_entry<T>(
    before: LRUCache<T>,
    after: LRUCache<T>,
    key: u64,
    value: T,
    a: u64,
    b: u64,
)
    requires
        before.well_formed(),
        used(before, after, key, value),
        a != key,
        b != key,
    ensures
        after.entries().contains_key(key),
        after.entries()[key] == value,
        after.entries().contains_key(a) <==> before.entries().contains_key(a),
        before.entries().contains_key(a) ==> after.entries()[a] == before.entries()[a],
        before.entries().contains_key(a) ==> after.last_use()[a] < after.last_use()[key],
        before.entries().contains_key(a) && before.entries().contains_key(b) ==> (
        after.last_use()[a] < after.last_use()[b] <==> before.last_use()[a] < before.last_use()[b]),
{
    if before.entries().contains_key(a) {
        let slot = before.slot_of()[a] as int;
        assert(before.slots()[slot].0 <= before.clock());
    }
}

/// What was put in for a key is what looking for it gives; looking for it again gives it again; and
/// looking for what was never put in gives nothing and changes nothing.
pub proof fn law_what_was_put_in_is_found<T>(
    before: LRUCache<T>,
    after: LRUCache<T>,
    later: LRUCache<T>,
    last: LRUCache<T>,
    key: u64,
    value: T,
    other: u64,
    first: Option<T>,
    second: Option<T>,
)
    requires
        used(before, after, key, value),
        gets(after, later, other, first),
        gets(later, last, other, second),
    ensures
        other == key ==> first == Some(value),
        other != key ==> (first is Some <==> before.entries().contains_key(other)),
        other != key && first is Some ==> first == Some(before.entries()[other]),
        first is None ==> later == after,
        second == first,
        later.entries() == after.entries(),
{
    assert(later.entries() =~= after.entries());
}

} // verus!
