//! Floor square root of a 256-bit value.

use vstd::prelude::*;
use crate::wide::{carrying_mul, gt, u256_value, wide_base};

verus! {

/// `r` is the floor of the square root of `x`.
pub open spec fn is_floor_sqrt(r: int, x: int) -> bool {
    0 <= r && r * r <= x < (r + 1) * (r + 1)
}

/// The floor of the square root of a non-negative `x`.
pub open spec fn floor_sqrt(x: int) -> int {
    choose|r: int| is_floor_sqrt(r, x)
}

/// A floor square root is unique, so any one found is `floor_sqrt(x)`.
pub proof fn lemma_floor_sqrt_unique(r: int, x: int)
    requires
        is_floor_sqrt(r, x),
    ensures
        floor_sqrt(x) == r,
{
    let s = floor_sqrt(x);
    assert(is_floor_sqrt(s, x));
    if s < r {
        assert((s + 1) * (s + 1) <= r * r) by (nonlinear_arith)
            requires 0 <= s < r;
    }
    if r < s {
        assert((r + 1) * (r + 1) <= s * s) by (nonlinear_arith)
            requires 0 <= r < s;
    }
}

/// Every two-limb value is below (u128::MAX + 1)^2.
proof fn lemma_u256_below_max_square(x: (u128, u128))
    ensures
        u256_value(x) < (u128::MAX + 1) * (u128::MAX + 1),
{
    let w = wide_base();
    assert(x.0 * w + x.1 < w * w) by (nonlinear_arith)
        requires 0 <= x.0 < w, 0 <= x.1 < w;
}

/// The floor of the square root of `x.0 * 2^128 + x.1`: an upper bound is
/// found by doubling, and the root by a binary search below it. The root of
/// a 256-bit value always fits in 128 bits, so the result is always `Ok`.
pub fn sqrt_u256(x: (u128, u128)) -> (r: Result<u128, ()>)
    ensures
        r is Ok,
        is_floor_sqrt(r->Ok_0 as int, u256_value(x)),
{
    if x.0 == 0 && x.1 < 2 {
        assert(x.1 * x.1 <= x.1 < (x.1 + 1) * (x.1 + 1)) by (nonlinear_arith)
            requires 0 <= x.1 < 2;
        return Ok(x.1);
    }
    let ghost v = u256_value(x);
    proof {
        lemma_u256_below_max_square(x);
        assert(v >= 2) by (nonlinear_arith)
            requires v == x.0 * wide_base() + x.1, x.0 >= 0, x.1 >= 0, x.0 > 0 || x.1 >= 2;
    }
    let mut lo: u128 = 1;
    let mut hi: u128 = u128::MAX;
    loop
        invariant_except_break
            hi == u128::MAX,
        invariant
            1 <= lo <= hi,
            lo * lo <= v,
            v < (hi + 1) * (hi + 1),
            v == u256_value(x),
        ensures
            1 <= lo <= hi,
            lo * lo <= v,
            v < (hi + 1) * (hi + 1),
        decreases u128::MAX - lo,
    {
        if lo > u128::MAX / 2 {
            break;
        }
        let candidate = lo * 2;
        let sq = carrying_mul(candidate, candidate);
        if gt(sq, x) {
            assert(candidate - 1 + 1 == candidate);
            hi = candidate - 1;
            break;
        }
        lo = candidate;
    }
    while lo < hi
        invariant
            1 <= lo <= hi,
            lo * lo <= v,
            v < (hi + 1) * (hi + 1),
            v == u256_value(x),
        decreases hi - lo,
    {
        let mid = lo + (hi - lo + 1) / 2;
        let sq = carrying_mul(mid, mid);
        if gt(sq, x) {
            hi = mid - 1;
        } else {
            lo = mid;
        }
    }
    Ok(lo)
}

} // verus!
