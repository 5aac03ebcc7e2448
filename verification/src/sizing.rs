//! Sizing arithmetic: how many hashers a filter of a given shape should use.
//!
//! For `m` buckets and `n` expected elements the false-positive rate is
//! smallest near `k = (m / n) * ln 2` hashers. The functions here compute that
//! quantity in exact integer arithmetic, with `ln 2` taken to 64 binary places
//! as the fraction `LN2_NUM / LN2_DEN`, and round it by one of two named
//! policies.

use vstd::prelude::*;

verus! {

/// Numerator of the fixed-point value used for `ln 2`: `ln 2` times two to
/// the sixty-fourth, rounded down.
pub const LN2_NUM: u128 = 0xB172_17F7_D1CF_79AB;

/// Denominator of the fixed-point value used for `ln 2`: two to the
/// sixty-fourth.
pub const LN2_DEN: u128 = 0x1_0000_0000_0000_0000;

/// How a fractional hasher count is turned into a whole number.
///
/// The two policies give different filters for the same shape, so the choice
/// is always spelled out: the filter constructors say which one they use.
#[derive(Clone, Copy, Debug, PartialEq, Eq, Structural)]
pub enum Rounding {
    /// Round up: never fewer hashers than the optimum.
    Ceiling,
    /// Round down: never more hashers than the optimum. May give zero.
    Truncation,
}

/// `a / b` rounded up.
pub open spec fn ceil_div(a: nat, b: nat) -> nat
    recommends
        b > 0,
{
    if a % b == 0 {
        a / b
    } else {
        a / b + 1
    }
}

/// The bucket count times the numerator of `ln 2`.
pub open spec fn scaled_buckets(n_buckets: nat) -> nat {
    n_buckets * LN2_NUM as nat
}

/// The element count times the denominator of `ln 2`.
pub open spec fn scaled_elems(n_elems: nat) -> nat {
    n_elems * LN2_DEN as nat
}

/// `(n_buckets / n_elems) * ln 2`, rounded up.
pub open spec fn ceil_hashers(n_buckets: nat, n_elems: nat) -> nat
    recommends
        n_elems > 0,
{
    ceil_div(scaled_buckets(n_buckets), scaled_elems(n_elems))
}

/// `(n_buckets / n_elems) * ln 2`, rounded down.
pub open spec fn floor_hashers(n_buckets: nat, n_elems: nat) -> nat
    recommends
        n_elems > 0,
{
    scaled_buckets(n_buckets) / scaled_elems(n_elems)
}

/// The hasher count for a filter shape under a rounding policy.
pub open spec fn hashers_for(n_buckets: nat, n_elems: nat, rounding: Rounding) -> nat
    recommends
        n_elems > 0,
{
    match rounding {
        Rounding::Ceiling => ceil_hashers(n_buckets, n_elems),
        Rounding::Truncation => floor_hashers(n_buckets, n_elems),
    }
}

/// The fixed-point value agrees with `ln 2 = 0.693147180559945309...` in its
/// first eighteen decimal places.
pub proof fn lemma_ln2_digits()
    ensures
        693_147_180_559_945_309 * LN2_DEN as nat <= LN2_NUM as nat * 1_000_000_000_000_000_000,
        (LN2_NUM as nat * 1_000_000_000_000_000_000) < 693_147_180_559_945_310 * LN2_DEN as nat,
{
}

/// The quotient `a / b` lies between `0` and `bound` whenever `a <= bound * b`.
proof fn lemma_quotient_bounded(a: nat, b: nat, bound: nat)
    requires
        b > 0,
        a <= bound * b,
    ensures
        a / b <= bound,
        a % b != 0 ==> a / b < bound,
        a == (a / b) * b + a % b,
        a % b < b,
{
    assert(a == (a / b) * b + a % b && a % b < b && (a / b <= bound) && (a % b != 0 ==> a / b
        < bound)) by (nonlinear_arith)
        requires
            b > 0,
            a <= bound * b,
    ;
}

/// Neither policy ever asks for more hashers than there are buckets.
pub proof fn lemma_hashers_at_most_buckets(n_buckets: nat, n_elems: nat, rounding: Rounding)
    requires
        n_elems > 0,
    ensures
        hashers_for(n_buckets, n_elems, rounding) <= n_buckets,
{
    let a = scaled_buckets(n_buckets);
    let b = scaled_elems(n_elems);
    assert(b > 0 && a <= n_buckets * b) by (nonlinear_arith)
        requires
            n_elems > 0,
            a == n_buckets * 0xB172_17F7_D1CF_79AB,
            b == n_elems * 0x1_0000_0000_0000_0000,
    ;
    lemma_quotient_bounded(a, b, n_buckets);
}

/// Rounding down gives the greatest whole number of hashers that does not
/// exceed `(n_buckets / n_elems) * ln 2`: the one `k` with
/// `k * scaled_elems <= scaled_buckets < (k + 1) * scaled_elems`.
pub proof fn lemma_floor_hashers_is_greatest(n_buckets: nat, n_elems: nat, k: nat)
    requires
        n_elems > 0,
    ensures
        k == floor_hashers(n_buckets, n_elems) <==> {
            &&& k * scaled_elems(n_elems) <= scaled_buckets(n_buckets)
            &&& scaled_buckets(n_buckets) < (k + 1) * scaled_elems(n_elems)
        },
{
    let a = scaled_buckets(n_buckets);
    let b = scaled_elems(n_elems);
    assert(b > 0) by (nonlinear_arith)
        requires
            n_elems > 0,
            b == n_elems * 0x1_0000_0000_0000_0000,
    ;
    assert(k == a / b <==> (k * b <= a && a < (k + 1) * b)) by (nonlinear_arith)
        requires
            b > 0,
    ;
}

/// Rounding up gives the least whole number of hashers that is not below
/// `(n_buckets / n_elems) * ln 2`: the one `k` with
/// `(k - 1) * scaled_elems < scaled_buckets <= k * scaled_elems`.
pub proof fn lemma_ceil_hashers_is_least(n_buckets: nat, n_elems: nat, k: nat)
    requires
        n_elems > 0,
    ensures
        k == ceil_hashers(n_buckets, n_elems) <==> {
            &&& (k - 1) * scaled_elems(n_elems) < scaled_buckets(n_buckets)
            &&& scaled_buckets(n_buckets) <= k * scaled_elems(n_elems)
        },
{
    let a = scaled_buckets(n_buckets);
    let b = scaled_elems(n_elems);
    assert(b > 0) by (nonlinear_arith)
        requires
            n_elems > 0,
            b == n_elems * 0x1_0000_0000_0000_0000,
    ;
    assert(k == ceil_div(a, b) <==> ((k - 1) * b < a && a <= k * b)) by (nonlinear_arith)
        requires
            b > 0,
            ceil_div(a, b) == (if a % b == 0 {
                a / b
            } else {
                a / b + 1
            }),
    ;
}

/// The two policies differ by at most one hasher, and rounding up gives at
/// least one hasher to every filter that has a bucket.
pub proof fn lemma_rounding_policies(n_buckets: nat, n_elems: nat)
    requires
        n_elems > 0,
    ensures
        floor_hashers(n_buckets, n_elems) <= ceil_hashers(n_buckets, n_elems),
        ceil_hashers(n_buckets, n_elems) <= floor_hashers(n_buckets, n_elems) + 1,
        n_buckets > 0 ==> ceil_hashers(n_buckets, n_elems) >= 1,
{
    let a = scaled_buckets(n_buckets);
    let b = scaled_elems(n_elems);
    assert(b > 0 && (n_buckets > 0 ==> a > 0)) by (nonlinear_arith)
        requires
            n_elems > 0,
            a == n_buckets * 0xB172_17F7_D1CF_79AB,
            b == n_elems * 0x1_0000_0000_0000_0000,
    ;
    lemma_ceil_hashers_is_least(n_buckets, n_elems, 0);
}

/// The number of hashers that minimises the false-positive rate of a filter
/// with `n_buckets` buckets holding `n_elems` elements, rounded up.
pub fn optimal_n_hashers(n_buckets: usize, n_elems: usize) -> (k: usize)
    requires
        n_elems > 0,
    ensures
        k == ceil_hashers(n_buckets as nat, n_elems as nat),
        k <= n_buckets,
{
    let scaled: u128 = (n_buckets as u128) * LN2_NUM;
    let unit: u128 = (n_elems as u128) * LN2_DEN;
    proof {
        lemma_hashers_at_most_buckets(n_buckets as nat, n_elems as nat, Rounding::Ceiling);
    }
    let whole: u128 = scaled / unit;
    if scaled % unit == 0 {
        whole as usize
    } else {
        (whole + 1) as usize
    }
}

/// The same quantity as [`optimal_n_hashers`], rounded down instead of up.
pub fn truncated_n_hashers(n_buckets: usize, n_elems: usize) -> (k: usize)
    requires
        n_elems > 0,
    ensures
        k == floor_hashers(n_buckets as nat, n_elems as nat),
        k <= n_buckets,
{
    let scaled: u128 = (n_buckets as u128) * LN2_NUM;
    let unit: u128 = (n_elems as u128) * LN2_DEN;
    proof {
        lemma_hashers_at_most_buckets(n_buckets as nat, n_elems as nat, Rounding::Truncation);
    }
    (scaled / unit) as usize
}

/// The hasher count for a filter shape under the given rounding policy.
pub fn n_hashers_for(n_buckets: usize, n_elems: usize, rounding: Rounding) -> (k: usize)
    requires
        n_elems > 0,
    ensures
        k == hashers_for(n_buckets as nat, n_elems as nat, rounding),
        k <= n_buckets,
{
    match rounding {
        Rounding::Ceiling => optimal_n_hashers(n_buckets, n_elems),
        Rounding::Truncation => truncated_n_hashers(n_buckets, n_elems),
    }
}

} // verus!
