//! The filter itself: construction, insertion, query and introspection.

use crate::bits::{bit_values, bits_from_elem, bits_get, bits_len, bits_set};
use crate::hashing::{bucket_of, digest_of, fresh_hasher};
use crate::model::{
    lemma_cleared_contains_nothing, lemma_contains_next, lemma_marked_next, lemma_marked_none,
    marked, FilterState,
};
use crate::sizing::{floor_hashers, hashers_for, n_hashers_for, Rounding};
use bit_vec::BitVec;
use std::collections::hash_map::RandomState;
use std::hash::BuildHasher;
use std::hash::Hash;
use vstd::prelude::*;

verus! {

/// Why a filter could not be built.
#[derive(Clone, Copy, Debug, PartialEq, Eq, Structural)]
pub enum SizingError {
    /// The expected number of elements is zero.
    ZeroElements,
    /// The bit array would have no bucket.
    ZeroBuckets,
    /// The sizing rule gives no hasher for this shape.
    ZeroHashers,
}

/// Space-efficient probabilistic hash set.
///
/// `S` is the kind of hasher the filter uses: anything that can digest a
/// hashable value. Unless chosen otherwise it is the standard library's
/// randomly seeded `RandomState`.
#[derive(Debug)]
pub struct BloomFilter<S = RandomState> {
    buffer: BitVec<u32>,
    size: usize,
    hashers: Vec<S>,
}

impl<S> View for BloomFilter<S> {
    type V = FilterState;

    closed spec fn view(&self) -> FilterState {
        FilterState {
            bits: bit_values(self.buffer),
            n_hashers: self.hashers@.len(),
            size: self.size as nat,
        }
    }
}

impl BloomFilter<RandomState> {
    /// Create a new Bloom Filter with specified buffer size, under an
    /// explicit rounding policy for the number of hashers.
    ///
    /// # Arguments
    /// * `n_elems`: expected number of elements
    /// * `size`: desired buffer size
    /// * `rounding`: how the optimal number of hashers is made whole
    ///
    /// A shape with no expected element, no bucket or no hasher is refused,
    /// in that order of precedence.
    pub fn new_with_rounding(n_elems: usize, size: usize, rounding: Rounding) -> (made: Result<
        BloomFilter,
        SizingError,
    >)
        ensures
            match made {
                Ok(filter) => {
                    &&& n_elems > 0
                    &&& size > 0
                    &&& hashers_for(size as nat, n_elems as nat, rounding) > 0
                    &&& filter@.is_fresh(
                        size as nat,
                        hashers_for(size as nat, n_elems as nat, rounding),
                    )
                },
                Err(SizingError::ZeroElements) => n_elems == 0,
                Err(SizingError::ZeroBuckets) => n_elems > 0 && size == 0,
                Err(SizingError::ZeroHashers) => {
                    &&& n_elems > 0
                    &&& size > 0
                    &&& hashers_for(size as nat, n_elems as nat, rounding) == 0
                },
            },
    {
        if n_elems == 0 {
            return Err(SizingError::ZeroElements);
        }
        if size == 0 {
            return Err(SizingError::ZeroBuckets);
        }
        let n_hashers = n_hashers_for(size, n_elems, rounding);
        if n_hashers == 0 {
            return Err(SizingError::ZeroHashers);
        }
        let mut hashers: Vec<RandomState> = Vec::new();
        while hashers.len() < n_hashers
            invariant
                hashers.len() <= n_hashers,
            decreases n_hashers - hashers.len(),
        {
            hashers.push(fresh_hasher());
        }
        BloomFilter::new_with_hashers(size, hashers)
    }

    /// Create a new Bloom Filter with specified buffer size. The number of
    /// hashers is the optimum for that size, rounded down.
    ///
    /// # Arguments
    /// * `n_elems`: expected number of elements
    /// * `size`: desired buffer size
    pub fn new_with_size(n_elems: usize, size: usize) -> (made: Result<BloomFilter, SizingError>)
        ensures
            match made {
                Ok(filter) => {
                    &&& n_elems > 0
                    &&& size > 0
                    &&& floor_hashers(size as nat, n_elems as nat) > 0
                    &&& filter@.is_fresh(size as nat, floor_hashers(size as nat, n_elems as nat))
                },
                Err(SizingError::ZeroElements) => n_elems == 0,
                Err(SizingError::ZeroBuckets) => n_elems > 0 && size == 0,
                Err(SizingError::ZeroHashers) => {
                    &&& n_elems > 0
                    &&& size > 0
                    &&& floor_hashers(size as nat, n_elems as nat) == 0
                },
            },
    {
        BloomFilter::new_with_rounding(n_elems, size, Rounding::Truncation)
    }
}

impl<S> BloomFilter<S> {
    #[verifier::type_invariant]
    spec fn inv(&self) -> bool {
        self@.wf()
    }

    /// The hashers, in their fixed order.
    pub closed spec fn hashers(&self) -> Seq<S> {
        self.hashers@
    }

    /// Create a new Bloom Filter with specified buffer size around hashers
    /// that the caller supplies. The filter keeps them, in their order, for
    /// its whole life.
    ///
    /// # Arguments
    /// * `size`: desired buffer size
    /// * `hashers`: the hashers to use, one bucket per hasher and element
    ///
    /// A filter with no bucket is refused, and then one with no hasher.
    pub fn new_with_hashers(size: usize, hashers: Vec<S>) -> (made: Result<
        BloomFilter<S>,
        SizingError,
    >)
        ensures
            match made {
                Ok(filter) => {
                    &&& size > 0
                    &&& hashers@.len() > 0
                    &&& filter@.is_fresh(size as nat, hashers@.len())
                    &&& filter.hashers() == hashers@
                },
                Err(SizingError::ZeroElements) => false,
                Err(SizingError::ZeroBuckets) => size == 0,
                Err(SizingError::ZeroHashers) => size > 0 && hashers@.len() == 0,
            },
    {
        if size == 0 {
            return Err(SizingError::ZeroBuckets);
        }
        if hashers.len() == 0 {
            return Err(SizingError::ZeroHashers);
        }
        Ok(BloomFilter { size: 0, buffer: bits_from_elem(size, false), hashers })
    }

    /// Number of elements in the `BloomFilter`
    pub fn size(&self) -> (n: usize)
        ensures
            n == self@.size,
    {
        self.size
    }

    /// Number of buckets that a member can occupy
    pub fn buckets(&self) -> (n: usize)
        ensures
            n == self@.bits.len(),
            n >= 1,
    {
        proof {
            use_type_invariant(self);
        }
        bits_len(&self.buffer)
    }

    /// Number of hashers being used
    pub fn n_hashers(&self) -> (n: usize)
        ensures
            n == self@.n_hashers,
            n == self.hashers().len(),
            n >= 1,
    {
        proof {
            use_type_invariant(self);
        }
        self.hashers.len()
    }

    /// Add a member by the positions it hashes to: the buckets at `idxs`
    /// are set, every other bucket stays as it is, and the count of
    /// insertions goes up by one.
    pub fn add_indexes(&mut self, idxs: &[usize])
        requires
            old(self)@.in_range(idxs@),
            old(self)@.size < usize::MAX,
        ensures
            final(self)@ == old(self)@.insert(idxs@),
            final(self).hashers() == old(self).hashers(),
    {
        proof {
            use_type_invariant(&*self);
            lemma_marked_none(self@.bits);
        }
        let mut j: usize = 0;
        while j < idxs.len()
            invariant
                j <= idxs.len(),
                old(self)@.wf(),
                old(self)@.in_range(idxs@),
                self.size == old(self).size,
                self.hashers == old(self).hashers,
                bit_values(self.buffer) == marked(old(self)@.bits, idxs@.take(j as int)),
            decreases idxs.len() - j,
        {
            proof {
                lemma_marked_next(old(self)@.bits, idxs@, j as int);
            }
            bits_set(&mut self.buffer, idxs[j], true);
            j += 1;
        }
        assert(idxs@.take(j as int) == idxs@);
        self.size += 1;
    }

    /// Check membership by the positions an element hashes to: whether
    /// every bucket at `idxs` is set. The answer depends on nothing but the
    /// buckets and the positions asked for.
    pub fn may_contain_indexes(&self, idxs: &[usize]) -> (found: bool)
        requires
            self@.in_range(idxs@),
        ensures
            found == self@.contains(idxs@),
    {
        let mut may_contain = true;
        let mut j: usize = 0;
        while j < idxs.len()
            invariant
                j <= idxs.len(),
                self@.in_range(idxs@),
                may_contain == self@.contains(idxs@.take(j as int)),
            decreases idxs.len() - j,
        {
            proof {
                lemma_contains_next(self@, idxs@, j as int);
            }
            let bit = bits_get(&self.buffer, idxs[j]).unwrap();
            may_contain = may_contain && bit;
            j += 1;
        }
        assert(idxs@.take(j as int) == idxs@);
        may_contain
    }
}

impl<S: BuildHasher> BloomFilter<S> {
    /// The indexes that an element hashes to: one per hasher, in the
    /// hashers' order, each the hasher's digest of `e` reduced to a bucket.
    ///
    /// Which buckets come out rests with the hashers, so the contract gives
    /// only their number and their range.
    pub fn indexes<T: Hash>(&self, e: &T) -> (idxs: Vec<usize>)
        ensures
            self@.probes(idxs@),
    {
        proof {
            use_type_invariant(self);
        }
        let n_buckets = bits_len(&self.buffer);
        let mut idxs: Vec<usize> = Vec::new();
        let mut j: usize = 0;
        while j < self.hashers.len()
            invariant
                j <= self.hashers.len(),
                idxs.len() == j,
                n_buckets == self@.bits.len(),
                n_buckets > 0,
                self@.in_range(idxs@),
            decreases self.hashers.len() - j,
        {
            let digest = digest_of(&self.hashers[j], e);
            idxs.push(bucket_of(digest, n_buckets));
            j += 1;
        }
        idxs
    }

    /// Add a member
    ///
    /// The buckets that `e` hashes to are set and the count of insertions
    /// goes up by one; nothing else changes. The count must not already be
    /// at the largest value it can hold.
    pub fn add<T: Hash>(&mut self, e: &T)
        requires
            old(self)@.size < usize::MAX,
        ensures
            exists|idxs: Seq<usize>| #[trigger]
                old(self)@.probes(idxs) && final(self)@ == old(self)@.insert(idxs),
            final(self)@.size == old(self)@.size + 1,
            final(self).hashers() == old(self).hashers(),
            final(self)@.bits.len() == old(self)@.bits.len(),
            forall|p: int|
                0 <= p < old(self)@.bits.len() && old(self)@.bits[p]
                    ==> #[trigger] final(self)@.bits[p],
    {
        let idxs = self.indexes(e);
        self.add_indexes(idxs.as_slice());
    }

    /// Check membership
    ///
    /// Answers whether every bucket that `e` hashes to is set. A filter
    /// with no bucket set answers `false` whatever the element.
    pub fn may_contain<T: Hash>(&self, e: &T) -> (found: bool)
        ensures
            exists|idxs: Seq<usize>| #[trigger] self@.probes(idxs) && found == self@.contains(idxs),
            self@.is_cleared() ==> !found,
    {
        let idxs = self.indexes(e);
        proof {
            use_type_invariant(self);
            if self@.is_cleared() {
                lemma_cleared_contains_nothing(self@, idxs@);
            }
        }
        self.may_contain_indexes(idxs.as_slice())
    }
}

} // verus!
