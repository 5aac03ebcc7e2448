//! The bit array behind the filter: a `bit_vec::BitVec`, seen by the verifier
//! as the sequence of booleans it holds.

use bit_vec::BitVec;
use vstd::prelude::*;

verus! {

/// `bit_vec::BitVec`, whose storage stays hidden: contracts speak of it
/// through [`bit_values`] alone.
#[verifier::external_type_specification]
#[verifier::external_body]
#[verifier::reject_recursive_types(B)]
pub struct ExBitVec<B>(BitVec<B>);

/// The bits held by a bit vector, in index order.
pub uninterp spec fn bit_values(v: BitVec<u32>) -> Seq<bool>;

/// `BitVec::from_elem`: a vector of `nbits` bits, every one equal to `bit`.
#[verifier::external_body]
pub(crate) fn bits_from_elem(nbits: usize, bit: bool) -> (v: BitVec<u32>)
    ensures
        bit_values(v) == Seq::new(nbits as nat, |i: int| bit),
{
    BitVec::from_elem(nbits, bit)
}

/// `BitVec::len`: the number of bits held.
#[verifier::external_body]
pub(crate) fn bits_len(v: &BitVec<u32>) -> (n: usize)
    ensures
        n == bit_values(*v).len(),
{
    v.len()
}

/// `BitVec::get`: the bit at index `i`, or `None` when `i` is past the end.
#[verifier::external_body]
pub(crate) fn bits_get(v: &BitVec<u32>, i: usize) -> (bit: Option<bool>)
    ensures
        bit == (if i < bit_values(*v).len() {
            Some(bit_values(*v)[i as int])
        } else {
            None
        }),
{
    v.get(i)
}

/// `BitVec::set`: overwrites the bit at index `i` with `x` and leaves every
/// other bit alone. The outside function panics exactly when `i` is past the
/// end; that is ruled out here, so the call always returns.
#[verifier::external_body]
pub(crate) fn bits_set(v: &mut BitVec<u32>, i: usize, x: bool)
    requires
        i < bit_values(*old(v)).len(),
    ensures
        bit_values(*final(v)) == bit_values(*old(v)).update(i as int, x),
    no_unwind
{
    v.set(i, x)
}

} // verus!
