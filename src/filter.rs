//! The Bloom filter: a fixed number of bits, all clear at first, and a number
//! `k` of hash rounds. A key stands for the `k` digests that hashing it gives;
//! the bit positions it touches are those digests modulo the number of bits.
use crate::bits::{bit_at, bits_of, cleared_bits, set_bit};
use crate::hashing::{digest_of, feed_key, finish_digest, fresh_hasher};
use bit_vec::BitVec;
use fxhash::FxHasher;
use std::hash::Hash;
use std::marker::PhantomData;
use vstd::prelude::*;

verus! {

/// The bit position that a digest selects in an array of `n` bits.
pub open spec fn position(digest: u64, n: nat) -> int {
    digest as int % n as int
}

/// Whether one of the digests selects bit `j` of an array of `n` bits.
pub open spec fn selects(digests: Seq<u64>, n: nat, j: int) -> bool {
    exists|i: int| 0 <= i < digests.len() && #[trigger] position(digests[i], n) == j
}

/// The bits after setting every position that the digests select.
pub open spec fn with_positions(bits: Seq<bool>, digests: Seq<u64>) -> Seq<bool> {
    Seq::new(bits.len(), |j: int| bits[j] || selects(digests, bits.len(), j))
}

/// Whether every position that the digests select is set.
pub open spec fn all_positions_set(bits: Seq<bool>, digests: Seq<u64>) -> bool {
    forall|i: int| 0 <= i < digests.len() ==> bits[position(#[trigger] digests[i], bits.len())]
}

/// The error of a construction with a zero size.
#[derive(Debug, Clone, Copy, PartialEq, Eq, Structural)]
pub enum ConfigError {
    /// The filter was asked for zero bits.
    ZeroBits,
    /// The filter was asked for zero hash rounds.
    ZeroRounds,
}

/// A Bloom filter over keys of type `K`.
///
/// Membership queries can report a key that was never inserted (a false
/// positive), but never miss one that was.
pub struct BloomFilter<K: Hash> {
    /// The bit array.
    inner: BitVec<u32>,
    /// The number of bits of the array.
    n_bits: usize,
    /// The number of hash rounds per key.
    k: usize,
    _phantom: PhantomData<K>,
}

impl<K: Hash> View for BloomFilter<K> {
    type V = Seq<bool>;

    /// The bits of the filter, in order.
    closed spec fn view(&self) -> Seq<bool> {
        bits_of(self.inner)
    }
}

impl<K: Hash> BloomFilter<K> {
    /// The number of bits that the filter was made with.
    pub closed spec fn spec_n_bits(&self) -> nat {
        self.n_bits as nat
    }

    /// The number of hash rounds that the filter was made with.
    pub closed spec fn spec_k(&self) -> nat {
        self.k as nat
    }

    /// The bit array has the filter's size, and both sizes are positive.
    pub open spec fn wf(&self) -> bool {
        &&& self@.len() == self.spec_n_bits()
        &&& self.spec_n_bits() > 0
        &&& self.spec_k() > 0
    }

    /// A filter of `n_bits` clear bits that hashes each key `k` times.
    pub fn new(n_bits: usize, k: usize) -> (r: Self)
        requires
            n_bits > 0,
            k > 0,
        ensures
            r.wf(),
            r.spec_n_bits() == n_bits,
            r.spec_k() == k,
            r@ == Seq::new(n_bits as nat, |i: int| false),
    {
        BloomFilter { inner: cleared_bits(n_bits), n_bits, k, _phantom: PhantomData }
    }

    /// As `new`, but a zero size is refused with an error instead of being
    /// ruled out by the precondition.
    pub fn try_new(n_bits: usize, k: usize) -> (r: Result<Self, ConfigError>)
        ensures
            r == Err::<Self, ConfigError>(ConfigError::ZeroBits) <==> n_bits == 0,
            r == Err::<Self, ConfigError>(ConfigError::ZeroRounds) <==> n_bits > 0 && k == 0,
            r is Ok <==> n_bits > 0 && k > 0,
            r matches Ok(f) ==> {
                &&& f.wf()
                &&& f.spec_n_bits() == n_bits
                &&& f.spec_k() == k
                &&& f@ == Seq::new(n_bits as nat, |i: int| false)
            },
    {
        if n_bits == 0 {
            Err(ConfigError::ZeroBits)
        } else if k == 0 {
            Err(ConfigError::ZeroRounds)
        } else {
            Ok(Self::new(n_bits, k))
        }
    }

    /// The number of bits of the filter.
    pub fn n_bits(&self) -> (r: usize)
        requires
            self.wf(),
        ensures
            r == self.spec_n_bits(),
            r == self@.len(),
    {
        self.n_bits
    }

    /// The number of hash rounds per key.
    pub fn k(&self) -> (r: usize)
        ensures
            r == self.spec_k(),
    {
        self.k
    }

    /// The bit position that `digest` selects in this filter.
    pub fn index_of(&self, digest: u64) -> (r: usize)
        requires
            self.wf(),
        ensures
            r == position(digest, self@.len()),
            r < self@.len(),
    {
        (digest % (self.n_bits as u64)) as usize
    }

    /// Sets every position that `digests` select.
    pub fn insert_digests(&mut self, digests: &Vec<u64>)
        requires
            old(self).wf(),
        ensures
            final(self).wf(),
            final(self).spec_n_bits() == old(self).spec_n_bits(),
            final(self).spec_k() == old(self).spec_k(),
            final(self)@ == with_positions(old(self)@, digests@),
    {
        let ghost start = self@;
        let ghost n = start.len();
        let mut i: usize = 0;
        while i < digests.len()
            invariant
                self.wf(),
                self.spec_n_bits() == old(self).spec_n_bits(),
                self.spec_k() == old(self).spec_k(),
                start == old(self)@,
                n == start.len(),
                0 <= i <= digests.len(),
                self@ == with_positions(start, digests@.take(i as int)),
            decreases digests.len() - i,
        {
            let index = self.index_of(digests[i]);
            let ghost before = self@;
            set_bit(&mut self.inner, index);
            proof {
                let done = digests@.take(i as int);
                let next = digests@.take(i + 1);
                assert forall|j: int| 0 <= j < n implies
                    #[trigger] selects(next, n, j) == (selects(done, n, j) || j == index) by {
                    if j == index {
                        assert(next[i as int] == digests@[i as int]);
                        assert(position(next[i as int], n) == j);
                    }
                    if selects(done, n, j) {
                        let a = choose|a: int| 0 <= a < done.len() && #[trigger] position(done[a], n) == j;
                        assert(next[a] == done[a]);
                    }
                    if selects(next, n, j) && j != index {
                        let a = choose|a: int| 0 <= a < next.len() && #[trigger] position(next[a], n) == j;
                        assert(done[a] == next[a]);
                    }
                }
                assert(self@ =~= with_positions(start, next));
            }
            i = i + 1;
        }
        assert(digests@.take(digests.len() as int) =~= digests@);
    }

    /// One hash round: feeds `key` into `hasher` and returns the digest of
    /// everything fed so far.
    fn digest_round(key: &K, hasher: &mut FxHasher) -> (r: u64)
        ensures
            r == digest_of(*final(hasher)),
    {
        feed_key(key, hasher);
        finish_digest(hasher)
    }

    /// One hash round, reduced to a bit position of this filter: the digest
    /// of the hasher once `key` is fed into it, modulo the number of bits.
    pub fn hash_index(&self, key: &K, hasher: &mut FxHasher) -> (r: usize)
        requires
            self.wf(),
        ensures
            r == position(digest_of(*final(hasher)), self@.len()),
            r < self@.len(),
    {
        let digest = Self::digest_round(key, hasher);
        self.index_of(digest)
    }

    /// The `k` digests of `key`: a fresh hasher is fed the key once per
    /// round, and each round's digest is taken after feeding.
    pub fn round_digests(&self, key: &K) -> (r: Vec<u64>)
        ensures
            r@.len() == self.spec_k(),
    {
        let mut hasher = fresh_hasher();
        let mut digests: Vec<u64> = Vec::new();
        let mut round: usize = 0;
        while round < self.k
            invariant
                0 <= round <= self.k,
                digests@.len() == round,
            decreases self.k - round,
        {
            let digest = Self::digest_round(key, &mut hasher);
            digests.push(digest);
            round = round + 1;
        }
        digests
    }

    /// Inserts `key`: sets the positions that its `k` digests select.
    pub fn insert(&mut self, key: K)
        requires
            old(self).wf(),
        ensures
            final(self).wf(),
            final(self).spec_n_bits() == old(self).spec_n_bits(),
            final(self).spec_k() == old(self).spec_k(),
            exists|ds: Seq<u64>|
                ds.len() == old(self).spec_k() && final(self)@ == #[trigger] with_positions(
                    old(self)@,
                    ds,
                ),
    {
        let digests = self.round_digests(&key);
        self.insert_digests(&digests);
        assert(self@ == with_positions(old(self)@, digests@));
    }

    /// Whether `key` may have been inserted: `false` means that it certainly
    /// was not, `true` that every position its `k` digests select is set.
    pub fn check(&mut self, key: K) -> (r: bool)
        requires
            old(self).wf(),
        ensures
            *final(self) == *old(self),
            exists|ds: Seq<u64>|
                ds.len() == old(self).spec_k() && r == #[trigger] all_positions_set(old(self)@, ds),
    {
        let digests = self.round_digests(&key);
        let r = self.check_digests(&digests);
        assert(r == all_positions_set(self@, digests@));
        r
    }

    /// The bits of the filter, in order.
    pub fn bits(&self) -> (r: Vec<bool>)
        requires
            self.wf(),
        ensures
            r@ == self@,
    {
        let mut out: Vec<bool> = Vec::new();
        let mut i: usize = 0;
        while i < self.n_bits
            invariant
                self.wf(),
                0 <= i <= self.n_bits,
                self.n_bits == self@.len(),
                out@ == self@.take(i as int),
            decreases self.n_bits - i,
        {
            out.push(bit_at(&self.inner, i));
            i = i + 1;
            assert(out@ =~= self@.take(i as int));
        }
        assert(self@.take(i as int) =~= self@);
        out
    }

    /// Whether every position that `digests` select is set.
    pub fn check_digests(&self, digests: &Vec<u64>) -> (r: bool)
        requires
            self.wf(),
        ensures
            r == all_positions_set(self@, digests@),
    {
        let mut i: usize = 0;
        while i < digests.len()
            invariant
                self.wf(),
                0 <= i <= digests.len(),
                forall|a: int| 0 <= a < i ==> self@[position(#[trigger] digests@[a], self@.len())],
            decreases digests.len() - i,
        {
            let index = self.index_of(digests[i]);
            if !bit_at(&self.inner, index) {
                return false;
            }
            i = i + 1;
        }
        true
    }
}

} // verus!
