//! A fixed-size circular cache of `N` slots, written round-robin.
//!
//! Every slot holds a key, the key's hash and a value, or nothing. Lookups by
//! key compare hashes only; `replace` compares keys.
use crate::keys::{hash_of_writes, CacheKey};
use vstd::prelude::*;

verus! {

/// The hash that a cache stores for a key of view `k`.
pub open spec fn key_hash_of<K: CacheKey>(k: K::V) -> u64 {
    hash_of_writes(K::spec_hash_writes(k))
}

/// The write counter after one more insertion: `0` at first, then one more
/// (wrapping at `usize::MAX`).
pub open spec fn next_index(index: Option<usize>) -> usize {
    match index {
        Some(i) => if i == usize::MAX { 0 } else { (i + 1) as usize },
        None => 0,
    }
}

/// Whether a slot holds a key of view `key`.
pub open spec fn holds_key<K: View>(slot: Option<K>, key: K::V) -> bool {
    match slot {
        Some(k) => k@ == key,
        None => false,
    }
}

/// The values of the slots whose stored hash is `h`, in slot order.
pub open spec fn values_with_hash<V>(hashes: Seq<Option<u64>>, values: Seq<Option<V>>, h: u64) -> Seq<Option<V>>
    decreases hashes.len(),
{
    if hashes.len() == 0 || values.len() == 0 {
        Seq::empty()
    } else {
        let rest = values_with_hash(hashes.drop_last(), values.drop_last(), h);
        if hashes.last() == Some(h) {
            rest.push(values.last())
        } else {
            rest
        }
    }
}

/// A cache of `N` slots, written round-robin.
pub struct CircularCache<K: CacheKey, V, const N: usize> {
    keys: Vec<Option<K>>,
    hashes: Vec<Option<u64>>,
    values: Vec<Option<V>>,
    index: Option<usize>,
}

impl<K: CacheKey, V, const N: usize> CircularCache<K, V, N> {
    /// The keys of the slots.
    pub closed spec fn slot_keys(&self) -> Seq<Option<K>> {
        self.keys@
    }

    /// The stored hashes of the slots.
    pub closed spec fn slot_hashes(&self) -> Seq<Option<u64>> {
        self.hashes@
    }

    /// The values of the slots.
    pub closed spec fn slot_values(&self) -> Seq<Option<V>> {
        self.values@
    }

    /// The write counter: `None` before the first insertion.
    pub closed spec fn write_index(&self) -> Option<usize> {
        self.index
    }

    /// What inserting `key` and `value` into this cache does, leaving `after`
    /// and returning `evicted`: the counter moves on by one, the slot it then
    /// points at (modulo `N`) gets the key, its hash and the value, and what
    /// that slot held is returned.
    pub open spec fn insert_effect(&self, after: Self, key: K, value: V, evicted: (Option<K>, Option<V>)) -> bool {
        let slot = next_index(self.write_index()) as int % N as int;
        &&& after.write_index() == Some(next_index(self.write_index()))
        &&& after.slot_keys() == self.slot_keys().update(slot, Some(key))
        &&& after.slot_hashes() == self.slot_hashes().update(slot, Some(key_hash_of::<K>(key@)))
        &&& after.slot_values() == self.slot_values().update(slot, Some(value))
        &&& evicted.0 == self.slot_keys()[slot]
        &&& evicted.1 == self.slot_values()[slot]
    }

    /// The cache holds what inserting the keys `ks` with the values `vs`, in
    /// order, into an empty cache leaves: the counter at the last insertion,
    /// and in each slot the last pair written there, round-robin from slot 0.
    pub open spec fn holds_inserts(&self, ks: Seq<K>, vs: Seq<V>) -> bool {
        &&& ks.len() == vs.len()
        &&& self.write_index() == if ks.len() == 0 {
            None
        } else {
            Some((ks.len() - 1) as usize)
        }
        &&& forall|s: int|
            0 <= s < N ==> #[trigger] self.slot_keys()[s] == slot_after_writes(ks, N as nat, s)
                && self.slot_values()[s] == slot_after_writes(vs, N as nat, s)
    }

    /// The values written so far, as the counter gives them: none before the
    /// first insertion, the slots below the counter while it is below `N`,
    /// and every slot after that.
    pub open spec fn written_values(&self) -> Seq<Option<V>> {
        match self.write_index() {
            None => Seq::empty(),
            Some(i) => if i < N {
                self.slot_values().take(i as int)
            } else {
                self.slot_values()
            },
        }
    }

    /// Every slot is empty or holds a key, its hash and a value.
    pub closed spec fn wf(&self) -> bool {
        &&& self.keys@.len() == N
        &&& self.hashes@.len() == N
        &&& self.values@.len() == N
        &&& forall|i: int|
            #![trigger self.keys@[i]]
            #![trigger self.hashes@[i]]
            #![trigger self.values@[i]]
            0 <= i < N ==> {
                &&& (self.keys@[i] is Some <==> self.hashes@[i] is Some)
                &&& (self.keys@[i] is Some <==> self.values@[i] is Some)
                &&& (self.keys@[i] is Some ==> self.hashes@[i] == Some(
                    key_hash_of::<K>(self.keys@[i]->0@),
                ))
            }
    }

    /// Every slot is there; a slot holds a key exactly when it holds a
    /// hash and a value, and the hash it holds is that of its key.
    pub proof fn lemma_wf_shape(&self)
        requires
            self.wf(),
        ensures
            self.slot_keys().len() == N,
            self.slot_hashes().len() == N,
            self.slot_values().len() == N,
            forall|i: int|
                0 <= i < N ==> (#[trigger] self.slot_keys()[i] is Some <==> self.slot_hashes()[i] is Some)
                    && (self.slot_keys()[i] is Some <==> self.slot_values()[i] is Some)
                    && (self.slot_keys()[i] is Some ==> self.slot_hashes()[i] == Some(
                    key_hash_of::<K>(self.slot_keys()[i]->0@),
                )),
    {
        assert forall|i: int| 0 <= i < N implies (#[trigger] self.slot_keys()[i] is Some <==> self.slot_hashes()[i] is Some)
            && (self.slot_keys()[i] is Some <==> self.slot_values()[i] is Some)
            && (self.slot_keys()[i] is Some ==> self.slot_hashes()[i] == Some(key_hash_of::<K>(self.slot_keys()[i]->0@))) by {
            assert(self.keys@[i] == self.slot_keys()[i]);
        }
    }

    /// An empty cache.
    pub fn new() -> (cache: Self)
        ensures
            cache.wf(),
            cache.write_index() is None,
            forall|i: int| 0 <= i < N ==> #[trigger] cache.slot_keys()[i] is None,
            forall|i: int| 0 <= i < N ==> #[trigger] cache.slot_values()[i] is None,
            forall|i: int| 0 <= i < N ==> #[trigger] cache.slot_hashes()[i] is None,
            cache.holds_inserts(Seq::empty(), Seq::empty()),
    {
        let mut keys: Vec<Option<K>> = Vec::new();
        let mut hashes: Vec<Option<u64>> = Vec::new();
        let mut values: Vec<Option<V>> = Vec::new();
        let mut i: usize = 0;
        while i < N
            invariant
                i <= N,
                keys@.len() == i,
                hashes@.len() == i,
                values@.len() == i,
                forall|j: int| 0 <= j < i ==> #[trigger] keys@[j] is None,
                forall|j: int| 0 <= j < i ==> #[trigger] hashes@[j] is None,
                forall|j: int| 0 <= j < i ==> #[trigger] values@[j] is None,
            decreases N - i,
        {
            keys.push(None);
            hashes.push(None);
            values.push(None);
            i = i + 1;
        }
        CircularCache { keys, hashes, values, index: None }
    }

    /// The keys of all slots.
    pub fn keys(&self) -> (keys: &[Option<K>])
        ensures
            keys@ == self.slot_keys(),
    {
        self.keys.as_slice()
    }

    /// The values of all slots.
    pub fn values(&self) -> (values: &[Option<V>])
        ensures
            values@ == self.slot_values(),
    {
        self.values.as_slice()
    }

    /// The value of the lowest slot whose stored hash is the hash of `key`.
    pub fn first(&self, key: &K) -> (found: Option<&V>)
        requires
            self.wf(),
        ensures
            match found {
                Some(v) => exists|i: int|
                    0 <= i < N && self.slot_hashes()[i] == Some(key_hash_of::<K>(key@))
                        && (forall|j: int| 0 <= j < i ==> self.slot_hashes()[j] != Some(key_hash_of::<K>(key@)))
                        && #[trigger] self.slot_values()[i] == Some(*v),
                None => forall|i: int|
                    0 <= i < N ==> #[trigger] self.slot_hashes()[i] != Some(key_hash_of::<K>(key@)),
            },
    {
        let search_hash = key.key_hash();
        let mut i: usize = 0;
        while i < N
            invariant
                self.wf(),
                i <= N,
                search_hash == key_hash_of::<K>(key@),
                forall|j: int| 0 <= j < i ==> self.hashes@[j] != Some(search_hash),
            decreases N - i,
        {
            if self.hashes[i] == Some(search_hash) {
                let found = self.values[i].as_ref();
                assert(self.values@[i as int] is Some);
                assert(self.slot_values()[i as int] == Some(*found.unwrap()));
                assert(self.slot_hashes()[i as int] == Some(key_hash_of::<K>(key@)));
                return found;
            }
            i = i + 1;
        }
        None
    }

    /// The values of all slots whose stored hash is the hash of `key`, in slot order.
    pub fn get(&self, key: &K) -> (found: Vec<&Option<V>>)
        requires
            self.wf(),
        ensures
            found@.len() == values_with_hash(self.slot_hashes(), self.slot_values(), key_hash_of::<K>(key@)).len(),
            forall|k: int|
                0 <= k < found@.len() ==> *#[trigger] found@[k] == values_with_hash(
                    self.slot_hashes(),
                    self.slot_values(),
                    key_hash_of::<K>(key@),
                )[k],
    {
        self.matching_values(key)
    }

    /// The values of all slots whose stored hash is the hash of `key`, in slot order.
    pub fn get_all(&self, key: &K) -> (found: Vec<&Option<V>>)
        requires
            self.wf(),
        ensures
            found@.len() == values_with_hash(self.slot_hashes(), self.slot_values(), key_hash_of::<K>(key@)).len(),
            forall|k: int|
                0 <= k < found@.len() ==> *#[trigger] found@[k] == values_with_hash(
                    self.slot_hashes(),
                    self.slot_values(),
                    key_hash_of::<K>(key@),
                )[k],
    {
        self.matching_values(key)
    }

    fn matching_values(&self, key: &K) -> (found: Vec<&Option<V>>)
        requires
            self.wf(),
        ensures
            found@.len() == values_with_hash(self.hashes@, self.values@, key_hash_of::<K>(key@)).len(),
            forall|k: int|
                0 <= k < found@.len() ==> *#[trigger] found@[k] == values_with_hash(
                    self.hashes@,
                    self.values@,
                    key_hash_of::<K>(key@),
                )[k],
    {
        let search_hash = key.key_hash();
        let mut slices: Vec<&Option<V>> = Vec::new();
        let mut i: usize = 0;
        while i < N
            invariant
                self.wf(),
                i <= N,
                search_hash == key_hash_of::<K>(key@),
                slices@.len() == values_with_hash(
                    self.hashes@.take(i as int),
                    self.values@.take(i as int),
                    search_hash,
                ).len(),
                forall|k: int|
                    0 <= k < slices@.len() ==> *#[trigger] slices@[k] == values_with_hash(
                        self.hashes@.take(i as int),
                        self.values@.take(i as int),
                        search_hash,
                    )[k],
            decreases N - i,
        {
            proof {
                let hs = self.hashes@.take(i + 1);
                let vs = self.values@.take(i + 1);
                assert(hs.drop_last() =~= self.hashes@.take(i as int));
                assert(vs.drop_last() =~= self.values@.take(i as int));
            }
            if self.hashes[i] == Some(search_hash) {
                slices.push(&self.values[i]);
            }
            i = i + 1;
        }
        assert(self.hashes@.take(N as int) =~= self.hashes@);
        assert(self.values@.take(N as int) =~= self.values@);
        slices
    }

    /// Whether some slot stores the hash of `key`.
    pub fn contains(&self, key: &K) -> (found: bool)
        requires
            self.wf(),
        ensures
            found == exists|i: int|
                0 <= i < N && #[trigger] self.slot_hashes()[i] == Some(key_hash_of::<K>(key@)),
    {
        let search_hash = key.key_hash();
        let mut i: usize = 0;
        while i < N
            invariant
                self.wf(),
                i <= N,
                search_hash == key_hash_of::<K>(key@),
                forall|j: int| 0 <= j < i ==> self.hashes@[j] != Some(search_hash),
            decreases N - i,
        {
            if self.hashes[i] == Some(search_hash) {
                return true;
            }
            i = i + 1;
        }
        false
    }

    /// Writes `key` and `value` into the next slot and returns what that slot held.
    pub fn insert(&mut self, key: K, value: V) -> (evicted: (Option<K>, Option<V>))
        requires
            old(self).wf(),
            N > 0,
        ensures
            final(self).wf(),
            old(self).insert_effect(*final(self), key, value, evicted),
            exists|i: int|
                0 <= i < N && #[trigger] final(self).slot_hashes()[i] == Some(key_hash_of::<K>(key@))
                    && final(self).slot_values()[i] == Some(value),
    {
        let index: usize = match self.index {
            Some(i) => i.wrapping_add(1),
            None => 0,
        };
        self.index = Some(index);
        let slot: usize = index % N;
        let hash = key.key_hash();
        let mut new_key: Option<K> = Some(key);
        let mut new_hash: Option<u64> = Some(hash);
        let mut new_value: Option<V> = Some(value);
        std::mem::swap(&mut self.keys[slot], &mut new_key);
        std::mem::swap(&mut self.hashes[slot], &mut new_hash);
        std::mem::swap(&mut self.values[slot], &mut new_value);
        proof {
            assert forall|i: int| 0 <= i < N implies {
                &&& (self.keys@[i] is Some <==> self.hashes@[i] is Some)
                &&& (self.keys@[i] is Some <==> self.values@[i] is Some)
                &&& (#[trigger] self.keys@[i] is Some ==> self.hashes@[i] == Some(
                    key_hash_of::<K>(self.keys@[i]->0@),
                ))
            } by {
                if i != slot as int {
                    assert(self.keys@[i] == old(self).keys@[i]);
                }
            }
        }
        assert(self.slot_hashes()[slot as int] == Some(key_hash_of::<K>(self.keys@[slot as int]->0@)));
        (new_key, new_value)
    }

    /// Gives the lowest slot whose key equals `key` the value `value`, and
    /// returns the value it held; `None`, and no change, where no slot holds `key`.
    pub fn replace(&mut self, key: K, value: V) -> (previous: Option<V>)
        requires
            old(self).wf(),
        ensures
            final(self).wf(),
            final(self).slot_keys() == old(self).slot_keys(),
            final(self).slot_hashes() == old(self).slot_hashes(),
            final(self).write_index() == old(self).write_index(),
            match previous {
                Some(p) => exists|i: int|
                    0 <= i < N && holds_key(#[trigger] old(self).slot_keys()[i], key@)
                        && (forall|j: int| 0 <= j < i ==> !holds_key(old(self).slot_keys()[j], key@))
                        && old(self).slot_values()[i] == Some(p)
                        && final(self).slot_values() == old(self).slot_values().update(i, Some(value)),
                None => (forall|i: int| 0 <= i < N ==> !holds_key(#[trigger] old(self).slot_keys()[i], key@))
                    && final(self).slot_values() == old(self).slot_values(),
            },
    {
        let mut i: usize = 0;
        while i < N
            invariant
                self.wf(),
                self == old(self),
                i <= N,
                forall|j: int| 0 <= j < i ==> !holds_key(self.keys@[j], key@),
            decreases N - i,
        {
            let is_key = match &self.keys[i] {
                Some(k) => k.key_eq(&key),
                None => false,
            };
            if is_key {
                let mut new_value: Option<V> = Some(value);
                std::mem::swap(&mut self.values[i], &mut new_value);
                proof {
                    assert forall|j: int| 0 <= j < N implies {
                        &&& (self.keys@[j] is Some <==> self.hashes@[j] is Some)
                        &&& (self.keys@[j] is Some <==> self.values@[j] is Some)
                        &&& (#[trigger] self.keys@[j] is Some ==> self.hashes@[j] == Some(
                            key_hash_of::<K>(self.keys@[j]->0@),
                        ))
                    } by {
                        if j != i as int {
                            assert(self.values@[j] == old(self).values@[j]);
                        }
                    }
                }
                return new_value;
            }
            i = i + 1;
        }
        None
    }

    /// The values written so far: see `written_values`.
    pub fn slice(&self) -> (written: &[Option<V>])
        requires
            self.wf(),
        ensures
            written@ == self.written_values(),
    {
        match self.index {
            None => {
                let empty: &[Option<V>] = &[];
                assert(empty@ =~= Seq::<Option<V>>::empty());
                empty
            },
            Some(index) => {
                if index < N {
                    let all = self.values.as_slice();
                    let part = &all[0..index];
                    assert(part@ =~= self.values@.take(index as int));
                    part
                } else {
                    self.values.as_slice()
                }
            },
        }
    }
}

/// The slot a cache writes next.
pub open spec fn next_slot(index: Option<usize>, n: nat) -> int {
    next_index(index) as int % n as int
}

/// The values stored under a hash include the value of every slot that
/// stores that hash.
pub proof fn lemma_values_with_hash_has<V>(hashes: Seq<Option<u64>>, values: Seq<Option<V>>, h: u64, i: int)
    requires
        hashes.len() == values.len(),
        0 <= i < hashes.len(),
        hashes[i] == Some(h),
    ensures
        values_with_hash(hashes, values, h).contains(values[i]),
    decreases hashes.len(),
{
    let rest = values_with_hash(hashes.drop_last(), values.drop_last(), h);
    if i == hashes.len() - 1 {
        assert(values_with_hash(hashes, values, h) == rest.push(values.last()));
        assert(values_with_hash(hashes, values, h)[rest.len() as int] == values[i]);
    } else {
        lemma_values_with_hash_has(hashes.drop_last(), values.drop_last(), h, i);
        let j = choose|j: int| 0 <= j < rest.len() && rest[j] == values[i];
        if hashes.last() == Some(h) {
            assert(values_with_hash(hashes, values, h)[j] == values[i]);
        }
    }
}

/// What is written can be read back: after writing `key` and `value` into
/// the next slot, some slot stores the key's hash (so `contains` holds) and
/// the values that `get` lists for `key` include `value`.
pub proof fn law_get_after_insert<K: CacheKey, V, const N: usize>(cache: CircularCache<K, V, N>, key: K, value: V)
    requires
        cache.wf(),
        N > 0,
    ensures
        ({
            let slot = next_slot(cache.write_index(), N as nat);
            let hashes = cache.slot_hashes().update(slot, Some(key_hash_of::<K>(key@)));
            let values = cache.slot_values().update(slot, Some(value));
            &&& exists|i: int| 0 <= i < N && #[trigger] hashes[i] == Some(key_hash_of::<K>(key@))
            &&& values_with_hash(hashes, values, key_hash_of::<K>(key@)).contains(Some(value))
        }),
{
    let slot = next_slot(cache.write_index(), N as nat);
    let hashes = cache.slot_hashes().update(slot, Some(key_hash_of::<K>(key@)));
    let values = cache.slot_values().update(slot, Some(value));
    cache.lemma_wf_shape();
    assert(hashes[slot] == Some(key_hash_of::<K>(key@)));
    lemma_values_with_hash_has(hashes, values, key_hash_of::<K>(key@), slot);
}

/// Of `count` writes made round-robin over `n` slots from slot 0, the
/// position of the last one that went to slot `s` (where `s < count`).
pub open spec fn last_write(count: int, n: int, s: int) -> int {
    s + n * ((count - 1 - s) / n)
}

/// What slot `s` holds after the writes `xs`, made round-robin over `n`
/// slots from slot 0: the last one that went there, or nothing.
pub open spec fn slot_after_writes<T>(xs: Seq<T>, n: nat, s: int) -> Option<T> {
    if s < xs.len() {
        Some(xs[last_write(xs.len() as int, n as int, s)])
    } else {
        None
    }
}

/// How one more write moves the last write of each slot.
pub proof fn lemma_last_write(count: int, n: int, s: int)
    requires
        n > 0,
        0 <= count,
        0 <= s < n,
    ensures
        s == count % n ==> last_write(count + 1, n, s) == count,
        s == count % n && count >= n ==> last_write(count, n, s) == count - n,
        s != count % n && s < count ==> last_write(count + 1, n, s) == last_write(count, n, s),
        s < count && count <= n ==> last_write(count, n, s) == s,
        s < count ==> 0 <= last_write(count, n, s) < count,
        s < count ==> last_write(count, n, s) % n == s,
{
    let q = count / n;
    let r = count % n;
    vstd::arithmetic::div_mod::lemma_fundamental_div_mod(count, n);
    assert(count == q * n + r) by (nonlinear_arith)
        requires
            count == n * q + r,
    ;
    assert(0 <= r < n);
    if s == r {
        vstd::arithmetic::div_mod::lemma_fundamental_div_mod_converse(count - s, n, q, 0);
        assert(n * q == q * n) by (nonlinear_arith);
        if count >= n {
            assert(q >= 1) by (nonlinear_arith)
                requires
                    count == q * n + r,
                    r < n,
                    count >= n,
                    n > 0,
            ;
            assert(count - 1 - s == (q - 1) * n + (n - 1)) by (nonlinear_arith)
                requires
                    count == q * n + r,
                    s == r,
            ;
            vstd::arithmetic::div_mod::lemma_fundamental_div_mod_converse(count - 1 - s, n, q - 1, n - 1);
            assert(n * (q - 1) == q * n - n) by (nonlinear_arith);
        }
    } else if s < count {
        if s < r {
            assert(count - s == q * n + (r - s));
            assert(count - 1 - s == q * n + (r - s - 1));
            vstd::arithmetic::div_mod::lemma_fundamental_div_mod_converse(count - s, n, q, r - s);
            vstd::arithmetic::div_mod::lemma_fundamental_div_mod_converse(count - 1 - s, n, q, r - s - 1);
        } else {
            assert(count - s == (q - 1) * n + (n + r - s)) by (nonlinear_arith)
                requires
                    count == q * n + r,
            ;
            assert(count - 1 - s == (q - 1) * n + (n + r - s - 1)) by (nonlinear_arith)
                requires
                    count == q * n + r,
            ;
            vstd::arithmetic::div_mod::lemma_fundamental_div_mod_converse(count - s, n, q - 1, n + r - s);
            vstd::arithmetic::div_mod::lemma_fundamental_div_mod_converse(count - 1 - s, n, q - 1, n + r - s - 1);
        }
    }
    if s < count {
        let d = (count - 1 - s) / n;
        let m = (count - 1 - s) % n;
        vstd::arithmetic::div_mod::lemma_fundamental_div_mod(count - 1 - s, n);
        assert(0 <= m < n);
        assert(d >= 0 && n * d <= count - 1 - s) by (nonlinear_arith)
            requires
                count - 1 - s == n * d + m,
                0 <= m < n,
                count - 1 - s >= 0,
                n > 0,
        ;
        if count <= n {
            vstd::arithmetic::div_mod::lemma_fundamental_div_mod_converse(count - 1 - s, n, 0, count - 1 - s);
        }
        assert(s + n * d == d * n + s) by (nonlinear_arith);
        vstd::arithmetic::div_mod::lemma_fundamental_div_mod_converse(s + n * d, n, d, s);
    }
}

/// Insertions into an empty cache fill its slots round-robin, first in,
/// first out: where the cache holds what the keys `ks` with the values `vs`
/// leave, one more insertion of `key` and `value` leaves what `ks` and `vs`
/// with that pair appended leave, and evicts nothing while fewer than `N`
/// pairs came before, else the pair inserted `N` insertions earlier.
pub proof fn law_inserts_round_robin<K: CacheKey, V, const N: usize>(
    before: CircularCache<K, V, N>,
    after: CircularCache<K, V, N>,
    ks: Seq<K>,
    vs: Seq<V>,
    key: K,
    value: V,
    evicted: (Option<K>, Option<V>),
)
    requires
        N > 0,
        before.wf(),
        before.holds_inserts(ks, vs),
        ks.len() < usize::MAX,
        before.insert_effect(after, key, value, evicted),
    ensures
        after.holds_inserts(ks.push(key), vs.push(value)),
        evicted == if ks.len() < N {
            (None::<K>, None::<V>)
        } else {
            (Some(ks[ks.len() - N]), Some(vs[ks.len() - N]))
        },
{
    before.lemma_wf_shape();
    let n = ks.len() as int;
    let slot = n % (N as int);
    assert(next_index(before.write_index()) == n);
    if n < N {
        vstd::arithmetic::div_mod::lemma_small_mod(n as nat, N as nat);
    }
    assert forall|s: int| 0 <= s < N implies #[trigger] after.slot_keys()[s] == slot_after_writes(
        ks.push(key),
        N as nat,
        s,
    ) && after.slot_values()[s] == slot_after_writes(vs.push(value), N as nat, s) by {
        lemma_last_write(n, N as int, s);
        if s == slot {
            assert(ks.push(key)[n] == key);
            assert(vs.push(value)[n] == value);
        } else if s < n {
            let j = last_write(n, N as int, s);
            assert(ks.push(key)[j] == ks[j]);
            assert(vs.push(value)[j] == vs[j]);
        }
    }
    lemma_last_write(n, N as int, slot);
    if n >= N {
        assert(before.slot_keys()[slot] == slot_after_writes(ks, N as nat, slot));
    }
}

/// What `slice` gives after the insertions of the values `vs` into an empty
/// cache: nothing after none; while at most `N` came, every value but the
/// last, in order; after more, every slot.
pub proof fn law_slice_after_inserts<K: CacheKey, V, const N: usize>(cache: CircularCache<K, V, N>, ks: Seq<K>, vs: Seq<V>)
    requires
        N > 0,
        cache.wf(),
        cache.holds_inserts(ks, vs),
        vs.len() <= usize::MAX,
    ensures
        vs.len() == 0 ==> cache.written_values() == Seq::<Option<V>>::empty(),
        1 <= vs.len() <= N ==> cache.written_values() == vs.take(vs.len() - 1).map_values(|v: V| Some(v)),
        vs.len() > N ==> cache.written_values() == cache.slot_values(),
{
    cache.lemma_wf_shape();
    let n = vs.len() as int;
    if 1 <= n <= N {
        let expected = vs.take(n - 1).map_values(|v: V| Some(v));
        assert forall|s: int| 0 <= s < n - 1 implies #[trigger] cache.slot_values()[s] == expected[s] by {
            lemma_last_write(n, N as int, s);
        }
        assert(cache.written_values() =~= expected);
    }
}

} // verus!
