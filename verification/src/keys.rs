//! Keys of the circular caches: a key knows its hash and how to compare itself.
use std::hash::Hasher;
use std::collections::hash_map::DefaultHasher;
use vstd::prelude::*;
use vstd::std_specs::hash::DefaultHasherAdditionalSpecFns;

verus! {

/// Little-endian bytes of a `u64`, lowest byte first.
pub open spec fn le_bytes_u64(k: u64) -> Seq<u8> {
    Seq::new(8, |i: int| ((k as nat / pow256(i)) % 256) as u8)
}

/// `256` raised to `i`.
pub open spec fn pow256(i: int) -> nat
    decreases i,
{
    if i <= 0 {
        1
    } else {
        256 * pow256(i - 1)
    }
}

/// The hash of a key, as a fresh `DefaultHasher` finishes it after the key's writes.
pub open spec fn hash_of_writes(writes: Seq<Seq<u8>>) -> u64 {
    DefaultHasher::spec_finish(writes)
}

/// A key that a circular cache can store: its hash is a function of its view,
/// and equality of keys is equality of views.
pub trait CacheKey: View + Sized {
    /// The bytes that hashing the key writes, one sequence per write.
    spec fn spec_hash_writes(key: Self::V) -> Seq<Seq<u8>>;

    /// Hashes the key with a fresh `DefaultHasher`.
    fn key_hash(&self) -> (h: u64)
        ensures
            h == hash_of_writes(Self::spec_hash_writes(self@)),
    ;

    /// Compares two keys.
    fn key_eq(&self, other: &Self) -> (b: bool)
        ensures
            b == (self@ == other@),
    ;
}

fn u64_le_bytes(k: u64) -> (bytes: Vec<u8>)
    ensures
        bytes@ == le_bytes_u64(k),
{
    let mut bytes: Vec<u8> = Vec::new();
    let mut rest: u64 = k;
    let mut i: usize = 0;
    assert(pow256(0) == 1);
    assert(k as nat / 1 == k as nat);
    while i < 8
        invariant
            i <= 8,
            bytes@.len() == i,
            rest as nat == k as nat / pow256(i as int),
            forall|j: int| 0 <= j < i ==> bytes@[j] == ((k as nat / pow256(j)) % 256) as u8,
        decreases 8 - i,
    {
        let b: u8 = (rest % 256) as u8;
        bytes.push(b);
        proof {
            let p = pow256(i as int);
            assert(pow256(i as int + 1) == 256 * p);
            assert(p > 0) by {
                lemma_pow256_pos(i as int);
            }
            assert((k as nat / p) / 256 == k as nat / (p * 256)) by {
                vstd::arithmetic::div_mod::lemma_div_denominator(k as int, p as int, 256);
            }
            assert(p * 256 == 256 * p) by (nonlinear_arith);
        }
        rest = rest / 256;
        i = i + 1;
    }
    assert(bytes@ =~= le_bytes_u64(k));
    bytes
}

proof fn lemma_pow256_pos(i: int)
    ensures
        pow256(i) > 0,
    decreases i,
{
    if i > 0 {
        lemma_pow256_pos(i - 1);
    }
}

impl CacheKey for u64 {
    open spec fn spec_hash_writes(key: u64) -> Seq<Seq<u8>> {
        seq![le_bytes_u64(key)]
    }

    fn key_hash(&self) -> (h: u64) {
        let bytes = u64_le_bytes(*self);
        let mut hasher = DefaultHasher::new();
        hasher.write(bytes.as_slice());
        let h = hasher.finish();
        assert(hasher@ =~= seq![le_bytes_u64(*self)]);
        h
    }

    fn key_eq(&self, other: &Self) -> (b: bool) {
        *self == *other
    }
}

impl CacheKey for String {
    open spec fn spec_hash_writes(key: Seq<char>) -> Seq<Seq<u8>> {
        seq![vstd::utf8::encode_utf8(key), seq![0xffu8]]
    }

    fn key_hash(&self) -> (h: u64) {
        let mut hasher = DefaultHasher::new();
        let text: &str = self.as_str();
        let text_bytes: &[u8] = text.as_bytes();
        assert(text_bytes@ == vstd::utf8::encode_utf8(self@));
        hasher.write(text_bytes);
        let mut terminator: Vec<u8> = Vec::new();
        terminator.push(0xffu8);
        assert(terminator@ =~= seq![0xffu8]);
        hasher.write(terminator.as_slice());
        let h = hasher.finish();
        assert(hasher@ =~= seq![vstd::utf8::encode_utf8(self@), seq![0xffu8]]);
        h
    }

    fn key_eq(&self, other: &Self) -> (b: bool) {
        self.eq(other)
    }
}

} // verus!
