//! The mathematical model of a filter, and the laws that hold of it.
//!
//! A filter is seen as its sequence of bits, the number of its hashers and
//! the count of insertions so far. An element enters the model as the
//! sequence of bucket positions that the hashers give it.

use vstd::prelude::*;

verus! {

/// What a filter is, to its contracts.
pub struct FilterState {
    /// One flag per bucket.
    pub bits: Seq<bool>,
    /// How many hashers the filter has.
    pub n_hashers: nat,
    /// How many insertions have been made, duplicates included.
    pub size: nat,
}

/// Whether some entry of `idxs` is the position `p`.
pub open spec fn hits(idxs: Seq<usize>, p: int) -> bool {
    exists|j: int| 0 <= j < idxs.len() && #[trigger] idxs[j] == p
}

/// The bit array `bits` with every bucket at a position of `idxs` set, and
/// every other bucket as it was.
pub open spec fn marked(bits: Seq<bool>, idxs: Seq<usize>) -> Seq<bool> {
    Seq::new(bits.len(), |p: int| bits[p] || hits(idxs, p))
}

impl FilterState {
    /// At least one bucket and at least one hasher.
    pub open spec fn wf(self) -> bool {
        self.bits.len() >= 1 && self.n_hashers >= 1
    }

    /// A filter as it is right after construction: `n_buckets` cleared
    /// buckets, `n_hashers` hashers and no insertion yet.
    pub open spec fn is_fresh(self, n_buckets: nat, n_hashers: nat) -> bool {
        &&& self.bits == Seq::new(n_buckets, |p: int| false)
        &&& self.n_hashers == n_hashers
        &&& self.size == 0
    }

    /// No bucket is set.
    pub open spec fn is_cleared(self) -> bool {
        forall|p: int| 0 <= p < self.bits.len() ==> !#[trigger] self.bits[p]
    }

    /// Every position of `idxs` names a bucket of this filter.
    pub open spec fn in_range(self, idxs: Seq<usize>) -> bool {
        forall|j: int| 0 <= j < idxs.len() ==> #[trigger] idxs[j] < self.bits.len()
    }

    /// `idxs` has the shape of what this filter's hashers give for one
    /// element: one position per hasher, each naming a bucket.
    pub open spec fn probes(self, idxs: Seq<usize>) -> bool {
        idxs.len() == self.n_hashers && self.in_range(idxs)
    }

    /// The filter after an insertion at the positions `idxs`: those buckets
    /// are set, every other bucket is as before, and the count goes up by one.
    pub open spec fn insert(self, idxs: Seq<usize>) -> FilterState {
        FilterState {
            bits: marked(self.bits, idxs),
            n_hashers: self.n_hashers,
            size: self.size + 1,
        }
    }

    /// Whether every bucket at the positions `idxs` is set.
    pub open spec fn contains(self, idxs: Seq<usize>) -> bool {
        forall|j: int| 0 <= j < idxs.len() ==> self.bits[#[trigger] idxs[j] as int]
    }

    /// The filter after one insertion for each entry of `batches`, in order.
    pub open spec fn insert_all(self, batches: Seq<Seq<usize>>) -> FilterState
        decreases batches.len(),
    {
        if batches.len() == 0 {
            self
        } else {
            self.insert_all(batches.drop_last()).insert(batches.last())
        }
    }
}

/// Marking with no position changes nothing.
pub proof fn lemma_marked_none(bits: Seq<bool>)
    ensures
        marked(bits, Seq::<usize>::empty()) == bits,
{
    assert(marked(bits, Seq::<usize>::empty()) =~= bits);
}

/// Marking one more position is one more bit set.
pub proof fn lemma_marked_next(bits: Seq<bool>, idxs: Seq<usize>, j: int)
    requires
        0 <= j < idxs.len(),
        idxs[j] < bits.len(),
    ensures
        marked(bits, idxs.take(j + 1)) == marked(bits, idxs.take(j)).update(idxs[j] as int, true),
{
    let shorter = idxs.take(j);
    let longer = idxs.take(j + 1);
    assert forall|p: int| 0 <= p < bits.len() implies hits(longer, p) == (hits(shorter, p)
        || idxs[j] == p) by {
        if hits(shorter, p) {
            let k = choose|k: int| 0 <= k < shorter.len() && #[trigger] shorter[k] == p;
            assert(longer[k] == p);
        }
        if idxs[j] == p {
            assert(longer[j] == p);
        }
        if hits(longer, p) {
            let k = choose|k: int| 0 <= k < longer.len() && #[trigger] longer[k] == p;
            if k < j {
                assert(shorter[k] == p);
            }
        }
    }
    assert(marked(bits, longer) =~= marked(bits, shorter).update(idxs[j] as int, true));
}

/// Looking at one more position asks for one more bit to be set.
pub proof fn lemma_contains_next(s: FilterState, idxs: Seq<usize>, j: int)
    requires
        0 <= j < idxs.len(),
    ensures
        s.contains(idxs.take(j + 1)) == (s.contains(idxs.take(j)) && s.bits[idxs[j] as int]),
{
    let shorter = idxs.take(j);
    let longer = idxs.take(j + 1);
    if s.contains(longer) {
        assert forall|k: int| 0 <= k < shorter.len() implies s.bits[#[trigger] shorter[k]
            as int] by {
            assert(longer[k] == shorter[k]);
        }
        assert(longer[j] == idxs[j]);
    }
    if s.contains(shorter) && s.bits[idxs[j] as int] {
        assert forall|k: int| 0 <= k < longer.len() implies s.bits[#[trigger] longer[k]
            as int] by {
            if k < j {
                assert(longer[k] == shorter[k]);
            }
        }
    }
}

/// An insertion changes neither the number of buckets nor the number of
/// hashers, and it never clears a bucket: bits only ever go from unset to set.
pub proof fn lemma_insert_only_sets(s: FilterState, idxs: Seq<usize>)
    ensures
        s.insert(idxs).bits.len() == s.bits.len(),
        s.insert(idxs).n_hashers == s.n_hashers,
        s.insert(idxs).wf() == s.wf(),
        forall|p: int| 0 <= p < s.bits.len() && s.bits[p] ==> #[trigger] s.insert(idxs).bits[p],
{
}

/// The positions just inserted are found.
pub proof fn lemma_inserted_is_found(s: FilterState, idxs: Seq<usize>)
    requires
        s.in_range(idxs),
    ensures
        s.insert(idxs).contains(idxs),
{
    assert forall|j: int| 0 <= j < idxs.len() implies s.insert(idxs).bits[#[trigger] idxs[j]
        as int] by {
        assert(hits(idxs, idxs[j] as int));
    }
}

/// A later insertion does not undo an earlier answer of "possibly present":
/// positions that were found before it are found after it.
pub proof fn lemma_insert_keeps_found(s: FilterState, earlier: Seq<usize>, idxs: Seq<usize>)
    requires
        s.in_range(earlier),
        s.contains(earlier),
    ensures
        s.insert(idxs).contains(earlier),
{
}

/// After any run of insertions the filter has as many buckets and hashers
/// as before, and its count has grown by the number of insertions: starting
/// from a fresh filter, `n` insertions give a count of `n`, whatever
/// positions were inserted and however often.
pub proof fn lemma_size_counts_insertions(s: FilterState, batches: Seq<Seq<usize>>)
    ensures
        s.insert_all(batches).size == s.size + batches.len(),
        s.insert_all(batches).bits.len() == s.bits.len(),
        s.insert_all(batches).n_hashers == s.n_hashers,
    decreases batches.len(),
{
    if batches.len() > 0 {
        lemma_size_counts_insertions(s, batches.drop_last());
    }
}

/// A bucket that is set stays set through any run of insertions.
pub proof fn lemma_bits_never_cleared(s: FilterState, batches: Seq<Seq<usize>>, p: int)
    requires
        0 <= p < s.bits.len(),
        s.bits[p],
    ensures
        s.insert_all(batches).bits[p],
    decreases batches.len(),
{
    if batches.len() > 0 {
        lemma_bits_never_cleared(s, batches.drop_last(), p);
        lemma_size_counts_insertions(s, batches.drop_last());
    }
}

/// No false negatives: the positions inserted at some point are found at
/// every later point, however many insertions follow. For an element this
/// says that it is found for as long as the hashers keep giving it the
/// positions under which it was inserted.
pub proof fn lemma_no_false_negatives(s: FilterState, batches: Seq<Seq<usize>>, i: int)
    requires
        0 <= i < batches.len(),
        forall|k: int| 0 <= k < batches.len() ==> s.in_range(#[trigger] batches[k]),
    ensures
        s.insert_all(batches).contains(batches[i]),
    decreases batches.len(),
{
    let before = s.insert_all(batches.drop_last());
    lemma_size_counts_insertions(s, batches.drop_last());
    assert(before.in_range(batches.last()));
    if i == batches.len() - 1 {
        lemma_inserted_is_found(before, batches.last());
    } else {
        assert(batches.drop_last()[i] == batches[i]);
        assert forall|k: int| 0 <= k < batches.drop_last().len() implies s.in_range(
            #[trigger] batches.drop_last()[k],
        ) by {
            assert(batches.drop_last()[k] == batches[k]);
        }
        lemma_no_false_negatives(s, batches.drop_last(), i);
        assert(before.in_range(batches[i]));
        lemma_insert_keeps_found(before, batches[i], batches.last());
    }
}

/// A filter with no bucket set answers "definitely absent" to every query
/// that looks at one bucket or more.
pub proof fn lemma_cleared_contains_nothing(s: FilterState, idxs: Seq<usize>)
    requires
        s.is_cleared(),
        s.in_range(idxs),
        idxs.len() > 0,
    ensures
        !s.contains(idxs),
{
    assert(!s.bits[idxs[0] as int]);
}

} // verus!
