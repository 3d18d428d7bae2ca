//! A fixed-size, first-in, first-out (FIFO) cache over a circular buffer.
//!
//! Lookups scan the filled slots, so they take time linear in `N`; the cache
//! is meant to be small. Slots fill in order; once all `N` are filled, each
//! insertion overwrites the slot that the write counter points at.
use crate::cache::{last_write, lemma_last_write};
use crate::keys::{hash_of_writes, CacheKey};
use vstd::prelude::*;

verus! {

/// The hash that the cache keeps beside a key of view `k`.
pub open spec fn stored_hash<K: CacheKey>(k: K::V) -> u64 {
    hash_of_writes(K::spec_hash_writes(k))
}

/// The values stored under a key of view `key`, in slot order.
pub open spec fn values_for_key<K: View, V>(keys: Seq<K>, values: Seq<V>, key: K::V) -> Seq<V>
    decreases keys.len(),
{
    if keys.len() == 0 || values.len() == 0 {
        Seq::empty()
    } else {
        let rest = values_for_key(keys.drop_last(), values.drop_last(), key);
        if keys.last()@ == key {
            rest.push(values.last())
        } else {
            rest
        }
    }
}

/// A first-in, first-out cache of at most `N` entries.
pub struct CircularCache<K: CacheKey, V, const N: usize> {
    keys: Vec<K>,
    hashes: Vec<u64>,
    values: Vec<V>,
    index: usize,
    length: usize,
}

impl<K: CacheKey, V, const N: usize> CircularCache<K, V, N> {
    /// The keys of the filled slots, in slot order.
    pub closed spec fn slot_keys(&self) -> Seq<K> {
        self.keys@
    }

    /// The values of the filled slots, in slot order.
    pub closed spec fn slot_values(&self) -> Seq<V> {
        self.values@
    }

    /// How many slots are filled.
    pub closed spec fn len(&self) -> nat {
        self.length as nat
    }

    /// The write counter: how many insertions there have been, wrapping at `usize::MAX`.
    pub closed spec fn write_index(&self) -> usize {
        self.index
    }

    /// The slots `0..len()` are filled, each with its key's hash; until the
    /// cache is full the counter equals the number of filled slots.
    pub closed spec fn wf(&self) -> bool {
        &&& N > 0
        &&& self.length <= N
        &&& self.keys@.len() == self.length
        &&& self.hashes@.len() == self.length
        &&& self.values@.len() == self.length
        &&& self.length < N ==> self.index == self.length
        &&& forall|i: int|
            0 <= i < self.length ==> #[trigger] self.hashes@[i] == stored_hash::<K>(self.keys@[i]@)
    }

    /// The lowest slot holding a key of view `key`, if any.
    pub open spec fn slot_of(&self, key: K::V) -> Option<int> {
        if exists|i: int| 0 <= i < self.len() && #[trigger] self.slot_keys()[i]@ == key {
            Some(
                choose|i: int|
                    0 <= i < self.len() && #[trigger] self.slot_keys()[i]@ == key && forall|j: int|
                        0 <= j < i ==> self.slot_keys()[j]@ != key,
            )
        } else {
            None
        }
    }

    /// The keys of the filled slots after storing `key`: appended while the
    /// cache is not full, else written over the slot the counter points at.
    pub open spec fn keys_after_insert(&self, key: K) -> Seq<K> {
        if self.len() < N {
            self.slot_keys().push(key)
        } else {
            self.slot_keys().update(self.write_index() as int % N as int, key)
        }
    }

    /// The values of the filled slots after storing `value`, as for the keys.
    pub open spec fn values_after_insert(&self, value: V) -> Seq<V> {
        if self.len() < N {
            self.slot_values().push(value)
        } else {
            self.slot_values().update(self.write_index() as int % N as int, value)
        }
    }

    /// What storing `key` and `value` into this cache does, leaving `after`
    /// and returning `evicted`: until the cache is full the pair is appended
    /// and nothing is evicted; after that it overwrites the slot
    /// `write_index() % N`, and the pair that slot held is returned.
    pub open spec fn insert_effect(&self, after: Self, key: K, value: V, evicted: (Option<K>, Option<V>)) -> bool {
        let slot = self.write_index() as int % N as int;
        &&& after.write_index() == if self.write_index() == usize::MAX {
            0
        } else {
            (self.write_index() + 1) as usize
        }
        &&& after.len() == if self.len() < N {
            self.len() + 1
        } else {
            N as nat
        }
        &&& after.slot_keys() == self.keys_after_insert(key)
        &&& after.slot_values() == self.values_after_insert(value)
        &&& evicted == if self.len() < N {
            (None::<K>, None::<V>)
        } else {
            (Some(self.slot_keys()[slot]), Some(self.slot_values()[slot]))
        }
    }

    /// The cache holds what storing the keys `ks` with the values `vs`, in
    /// order, into an empty cache leaves: the counter at the number stored,
    /// the first `N` slots filled in order, and in each filled slot the last
    /// pair written there, round-robin from slot 0.
    pub open spec fn holds_inserts(&self, ks: Seq<K>, vs: Seq<V>) -> bool {
        &&& ks.len() == vs.len()
        &&& self.write_index() == ks.len()
        &&& self.len() == if ks.len() < N {
            ks.len()
        } else {
            N as nat
        }
        &&& forall|s: int|
            0 <= s < self.len() ==> #[trigger] self.slot_keys()[s] == ks[last_write(ks.len() as int, N as int, s)]
                && self.slot_values()[s] == vs[last_write(ks.len() as int, N as int, s)]
    }

    proof fn lemma_lowest_holding(&self, key: K::V, w: int) -> (i: int)
        requires
            0 <= w < self.len(),
            self.slot_keys()[w]@ == key,
        ensures
            0 <= i <= w,
            self.slot_keys()[i]@ == key,
            forall|j: int| 0 <= j < i ==> self.slot_keys()[j]@ != key,
        decreases w,
    {
        if exists|j: int| 0 <= j < w && #[trigger] self.slot_keys()[j]@ == key {
            let j = choose|j: int| 0 <= j < w && #[trigger] self.slot_keys()[j]@ == key;
            self.lemma_lowest_holding(key, j)
        } else {
            w
        }
    }

    /// `slot_of` gives the lowest filled slot holding `key`, and nothing
    /// where no filled slot holds it.
    pub proof fn lemma_slot_of(&self, key: K::V)
        ensures
            match self.slot_of(key) {
                Some(i) => 0 <= i < self.len() && self.slot_keys()[i]@ == key && forall|j: int|
                    0 <= j < i ==> self.slot_keys()[j]@ != key,
                None => forall|i: int| 0 <= i < self.len() ==> #[trigger] self.slot_keys()[i]@ != key,
            },
    {
        if exists|i: int| 0 <= i < self.len() && #[trigger] self.slot_keys()[i]@ == key {
            let w = choose|i: int| 0 <= i < self.len() && #[trigger] self.slot_keys()[i]@ == key;
            let i = self.lemma_lowest_holding(key, w);
            self.lemma_first_slot(key, i);
        }
    }

    /// Every filled slot has a key and a value, and the counter's slot is
    /// filled once the cache is full.
    pub proof fn lemma_wf_shape(&self)
        requires
            self.wf(),
        ensures
            N > 0,
            self.len() <= N,
            self.slot_keys().len() == self.len(),
            self.slot_values().len() == self.len(),
    {
    }

    /// An empty cache; `N` must be positive.
    pub fn new() -> (cache: Self)
        requires
            N > 0,
        ensures
            cache.wf(),
            cache.len() == 0,
            cache.write_index() == 0,
            cache.holds_inserts(Seq::empty(), Seq::empty()),
    {
        CircularCache { keys: Vec::new(), hashes: Vec::new(), values: Vec::new(), index: 0, length: 0 }
    }

    fn hash(key: &K) -> (h: u64)
        ensures
            h == stored_hash::<K>(key@),
    {
        key.key_hash()
    }

    proof fn lemma_first_slot(&self, key: K::V, i: int)
        requires
            0 <= i < self.len(),
            self.slot_keys()[i]@ == key,
            forall|j: int| 0 <= j < i ==> self.slot_keys()[j]@ != key,
        ensures
            self.slot_of(key) == Some(i),
    {
        let k = choose|k: int|
            0 <= k < self.len() && #[trigger] self.slot_keys()[k]@ == key && forall|j: int|
                0 <= j < k ==> self.slot_keys()[j]@ != key;
        if k < i {
        } else if k > i {
        }
    }

    /// The value in the lowest slot whose key equals `key`.
    pub fn first(&self, key: &K) -> (found: Option<&V>)
        requires
            self.wf(),
        ensures
            match self.slot_of(key@) {
                Some(i) => found == Some(&self.slot_values()[i]),
                None => found is None,
            },
    {
        let search_hash = Self::hash(key);
        let mut i: usize = 0;
        while i < self.length
            invariant
                self.wf(),
                i <= self.length,
                search_hash == stored_hash::<K>(key@),
                forall|j: int| 0 <= j < i ==> self.keys@[j]@ != key@,
            decreases self.length - i,
        {
            if self.hashes[i] == search_hash && self.keys[i].key_eq(key) {
                proof {
                    self.lemma_first_slot(key@, i as int);
                }
                return Some(&self.values[i]);
            }
            proof {
                if self.keys@[i as int]@ == key@ {
                    assert(self.hashes@[i as int] == stored_hash::<K>(self.keys@[i as int]@));
                }
            }
            i = i + 1;
        }
        None
    }

    /// The values of all slots whose key equals `key`, in slot order.
    pub fn get(&self, key: &K) -> (found: Vec<&V>)
        requires
            self.wf(),
        ensures
            found@.len() == values_for_key(self.slot_keys(), self.slot_values(), key@).len(),
            forall|k: int|
                0 <= k < found@.len() ==> *#[trigger] found@[k] == values_for_key(
                    self.slot_keys(),
                    self.slot_values(),
                    key@,
                )[k],
    {
        let search_hash = Self::hash(key);
        let mut slices: Vec<&V> = Vec::new();
        let mut i: usize = 0;
        while i < self.length
            invariant
                self.wf(),
                i <= self.length,
                search_hash == stored_hash::<K>(key@),
                slices@.len() == values_for_key(
                    self.keys@.take(i as int),
                    self.values@.take(i as int),
                    key@,
                ).len(),
                forall|k: int|
                    0 <= k < slices@.len() ==> *#[trigger] slices@[k] == values_for_key(
                        self.keys@.take(i as int),
                        self.values@.take(i as int),
                        key@,
                    )[k],
            decreases self.length - i,
        {
            proof {
                assert(self.keys@.take(i + 1).drop_last() =~= self.keys@.take(i as int));
                assert(self.values@.take(i + 1).drop_last() =~= self.values@.take(i as int));
                assert(self.hashes@[i as int] == stored_hash::<K>(self.keys@[i as int]@));
            }
            if self.hashes[i] == search_hash && self.keys[i].key_eq(key) {
                slices.push(&self.values[i]);
            }
            i = i + 1;
        }
        assert(self.keys@.take(self.length as int) =~= self.keys@);
        assert(self.values@.take(self.length as int) =~= self.values@);
        slices
    }

    /// Whether some slot holds `key`.
    pub fn contains(&self, key: &K) -> (found: bool)
        requires
            self.wf(),
        ensures
            found == self.slot_of(key@) is Some,
            found == exists|i: int| 0 <= i < self.len() && #[trigger] self.slot_keys()[i]@ == key@,
    {
        let search_hash = Self::hash(key);
        let mut i: usize = 0;
        while i < self.length
            invariant
                self.wf(),
                i <= self.length,
                search_hash == stored_hash::<K>(key@),
                forall|j: int| 0 <= j < i ==> self.keys@[j]@ != key@,
            decreases self.length - i,
        {
            if self.hashes[i] == search_hash && self.keys[i].key_eq(key) {
                assert(self.slot_keys()[i as int]@ == key@);
                return true;
            }
            proof {
                if self.keys@[i as int]@ == key@ {
                    assert(self.hashes@[i as int] == stored_hash::<K>(self.keys@[i as int]@));
                }
            }
            i = i + 1;
        }
        false
    }

    /// Stores `key` and `value`. Until the cache is full the pair goes into
    /// the next free slot and nothing is evicted; after that it overwrites
    /// the slot `write_index() % N` and returns the key and value it held.
    pub fn insert(&mut self, key: K, value: V) -> (evicted: (Option<K>, Option<V>))
        requires
            old(self).wf(),
        ensures
            final(self).wf(),
            old(self).insert_effect(*final(self), key, value, evicted),
            final(self).slot_of(key@) is Some,
    {
        let slot: usize = self.index % N;
        proof {
            if self.length < N {
                vstd::arithmetic::div_mod::lemma_small_mod(self.index as nat, N as nat);
                assert(slot == self.length);
            }
        }
        self.index = self.index.wrapping_add(1);
        let new_hash = Self::hash(&key);
        let ghost old_keys = self.keys@;
        if self.length == N {
            let mut new_key = key;
            let mut new_value = value;
            std::mem::swap(&mut self.keys[slot], &mut new_key);
            std::mem::swap(&mut self.values[slot], &mut new_value);
            self.hashes.set(slot, new_hash);
            proof {
                assert forall|i: int| 0 <= i < self.length implies #[trigger] self.hashes@[i] == stored_hash::<K>(
                    self.keys@[i]@,
                ) by {
                    if i != slot as int {
                        assert(self.keys@[i] == old_keys[i]);
                    }
                }
                assert(self.slot_keys()[slot as int]@ == key@);
            }
            (Some(new_key), Some(new_value))
        } else {
            self.keys.push(key);
            self.hashes.push(new_hash);
            self.values.push(value);
            self.length = self.length + 1;
            proof {
                assert forall|i: int| 0 <= i < self.length implies #[trigger] self.hashes@[i] == stored_hash::<K>(
                    self.keys@[i]@,
                ) by {
                    if i < slot as int {
                        assert(self.keys@[i] == old_keys[i]);
                    }
                }
                assert(self.slot_keys()[slot as int]@ == key@);
            }
            (None, None)
        }
    }

    /// Gives the lowest slot whose key equals `key` the value `value` and
    /// returns the value it held; `None`, and no change, where no slot holds `key`.
    pub fn replace(&mut self, key: &K, value: V) -> (previous: Option<V>)
        requires
            old(self).wf(),
        ensures
            final(self).wf(),
            final(self).slot_keys() == old(self).slot_keys(),
            final(self).len() == old(self).len(),
            final(self).write_index() == old(self).write_index(),
            match old(self).slot_of(key@) {
                Some(i) => previous == Some(old(self).slot_values()[i]) && final(self).slot_values()
                    == old(self).slot_values().update(i, value),
                None => previous is None && final(self).slot_values() == old(self).slot_values(),
            },
    {
        if self.length == 0 {
            return None;
        }
        let mut i: usize = 0;
        while i < self.length
            invariant
                self.wf(),
                self == old(self),
                i <= self.length,
                forall|j: int| 0 <= j < i ==> self.keys@[j]@ != key@,
            decreases self.length - i,
        {
            if self.keys[i].key_eq(key) {
                proof {
                    self.lemma_first_slot(key@, i as int);
                }
                let mut new_value = value;
                std::mem::swap(&mut self.values[i], &mut new_value);
                return Some(new_value);
            }
            i = i + 1;
        }
        None
    }

    /// The values of the filled slots, in slot order.
    pub fn slice(&self) -> (filled: &[V])
        requires
            self.wf(),
        ensures
            filled@ == self.slot_values(),
    {
        self.values.as_slice()
    }
}

/// The values stored under `key` include the value of every slot whose key
/// is `key`.
pub proof fn lemma_values_for_key_has<K: View, V>(keys: Seq<K>, values: Seq<V>, key: K::V, i: int)
    requires
        keys.len() == values.len(),
        0 <= i < keys.len(),
        keys[i]@ == key,
    ensures
        values_for_key(keys, values, key).contains(values[i]),
    decreases keys.len(),
{
    let rest = values_for_key(keys.drop_last(), values.drop_last(), key);
    if i == keys.len() - 1 {
        assert(values_for_key(keys, values, key) == rest.push(values.last()));
        assert(values_for_key(keys, values, key)[rest.len() as int] == values[i]);
    } else {
        lemma_values_for_key_has(keys.drop_last(), values.drop_last(), key, i);
        let j = choose|j: int| 0 <= j < rest.len() && rest[j] == values[i];
        if keys.last()@ == key {
            assert(values_for_key(keys, values, key)[j] == values[i]);
        }
    }
}

/// What is stored can be read back: after storing `key` and `value`, the
/// cache holds `key` and the values stored under `key` include `value`,
/// whether or not the store evicted an older pair.
pub proof fn law_get_after_insert<K: CacheKey, V, const N: usize>(cache: CircularCache<K, V, N>, key: K, value: V)
    requires
        cache.wf(),
    ensures
        values_for_key(cache.keys_after_insert(key), cache.values_after_insert(value), key@).contains(value),
        exists|i: int| 0 <= i < cache.keys_after_insert(key).len() && #[trigger] cache.keys_after_insert(key)[i]@ == key@,
{
    cache.lemma_wf_shape();
    let keys = cache.keys_after_insert(key);
    let values = cache.values_after_insert(value);
    let slot: int = if cache.len() < N {
        cache.len() as int
    } else {
        cache.write_index() as int % N as int
    };
    assert(keys[slot] == key);
    assert(values[slot] == value);
    lemma_values_for_key_has(keys, values, key@, slot);
}

/// Stores into an empty cache fill its slots in order, then overwrite them
/// round-robin, first in, first out: where the cache holds what the keys
/// `ks` with the values `vs` leave, one more store of `key` and `value`
/// leaves what `ks` and `vs` with that pair appended leave, and evicts
/// nothing while fewer than `N` pairs came before, else the pair stored `N`
/// stores earlier.
pub proof fn law_inserts_first_in_first_out<K: CacheKey, V, const N: usize>(
    before: CircularCache<K, V, N>,
    after: CircularCache<K, V, N>,
    ks: Seq<K>,
    vs: Seq<V>,
    key: K,
    value: V,
    evicted: (Option<K>, Option<V>),
)
    requires
        before.wf(),
        before.holds_inserts(ks, vs),
        ks.len() < usize::MAX,
        before.insert_effect(after, key, value, evicted),
    ensures
        after.holds_inserts(ks.push(key), vs.push(value)),
        evicted == if ks.len() < N {
            (None::<K>, None::<V>)
        } else {
            (Some(ks[ks.len() - N]), Some(vs[ks.len() - N]))
        },
{
    before.lemma_wf_shape();
    let n = ks.len() as int;
    let slot = n % (N as int);
    if n < N {
        vstd::arithmetic::div_mod::lemma_small_mod(n as nat, N as nat);
    }
    assert forall|s: int| 0 <= s < after.len() implies #[trigger] after.slot_keys()[s] == ks.push(key)[last_write(
        n + 1,
        N as int,
        s,
    )] && after.slot_values()[s] == vs.push(value)[last_write(n + 1, N as int, s)] by {
        lemma_last_write(n, N as int, s);
        if s == slot {
            assert(ks.push(key)[n] == key);
            assert(vs.push(value)[n] == value);
        } else {
            let j = last_write(n, N as int, s);
            assert(before.slot_keys()[s] == ks[j]);
            assert(ks.push(key)[j] == ks[j]);
            assert(vs.push(value)[j] == vs[j]);
        }
    }
    lemma_last_write(n, N as int, slot);
}

} // verus!
