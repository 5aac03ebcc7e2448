//! Hashers and the reduction of a digest to a bucket.

use std::collections::hash_map::RandomState;
use std::hash::BuildHasher;
use std::hash::Hash;
use vstd::prelude::*;

verus! {

/// `RandomState::new`: a hasher seeded from process-wide randomness. The seed
/// is not observable, so nothing is claimed of the result.
#[verifier::external_body]
pub(crate) fn fresh_hasher() -> (hasher: RandomState) {
    RandomState::new()
}

/// `BuildHasher::hash_one`: the 64-bit digest of `e` under `hasher`. The
/// digest depends on the hasher's seed and on how `T` feeds itself to a
/// hasher, so nothing is claimed of its value.
#[verifier::external_body]
pub(crate) fn digest_of<S: BuildHasher, T: Hash>(hasher: &S, e: &T) -> (digest: u64) {
    hasher.hash_one(e)
}

/// The bucket that a digest falls into: the digest modulo the bucket count.
pub open spec fn bucket_index(digest: u64, n_buckets: nat) -> nat
    recommends
        n_buckets > 0,
{
    digest as nat % n_buckets
}

/// Reduces a 64-bit digest to a position in `[0, n_buckets)`.
pub fn bucket_of(digest: u64, n_buckets: usize) -> (idx: usize)
    requires
        n_buckets > 0,
    ensures
        idx == bucket_index(digest, n_buckets as nat),
        idx < n_buckets,
{
    (digest % (n_buckets as u64)) as usize
}

} // verus!
