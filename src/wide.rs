//! 128 x 128 -> 256-bit multiplication, comparison of 256-bit values and
//! 256 / 128 -> 128-bit division.

use vstd::prelude::*;
use vstd::arithmetic::div_mod::lemma_fundamental_div_mod_converse;

verus! {

/// 2^64.
#[verifier::inline]
pub open spec fn limb_base() -> int {
    0x1_0000_0000_0000_0000int
}

/// 2^128.
#[verifier::inline]
pub open spec fn wide_base() -> int {
    0x1_0000_0000_0000_0000_0000_0000_0000_0000int
}

/// The number held by a (high, low) pair of 128-bit limbs.
pub open spec fn u256_value(x: (u128, u128)) -> int {
    x.0 * wide_base() + x.1
}

/// Splits `x` into its high and low 64-bit halves.
fn split(x: u128) -> (r: (u128, u128))
    ensures
        r.0 < limb_base(),
        r.1 < limb_base(),
        x == r.0 * limb_base() + r.1,
{
    let lo = x % 0x1_0000_0000_0000_0000u128;
    let hi = x / 0x1_0000_0000_0000_0000u128;
    (hi, lo)
}

/// The exact 256-bit product of two 128-bit numbers, as (high, low).
pub fn carrying_mul(l: u128, r: u128) -> (p: (u128, u128))
    ensures
        u256_value(p) == l * r,
{
    let (l_hi, l_lo) = split(l);
    let (r_hi, r_lo) = split(r);
    let ghost b = limb_base();

    assert(r_lo * l_lo <= (b - 1) * (b - 1)) by (nonlinear_arith)
        requires r_lo < b, l_lo < b, r_lo >= 0, l_lo >= 0;
    let (carry0, x0) = split(r_lo * l_lo);
    assert(r_lo * l_hi + carry0 < b * b) by (nonlinear_arith)
        requires r_lo < b, l_hi < b, carry0 < b, r_lo >= 0, l_hi >= 0, b == limb_base();
    let (x2, x1) = split(r_lo * l_hi + carry0);

    assert(r_hi * l_lo <= (b - 1) * (b - 1)) by (nonlinear_arith)
        requires r_hi < b, l_lo < b, r_hi >= 0, l_lo >= 0;
    let (carry1, y1) = split(r_hi * l_lo);
    assert(r_hi * l_hi + carry1 < b * b) by (nonlinear_arith)
        requires r_hi < b, l_hi < b, carry1 < b, r_hi >= 0, l_hi >= 0, b == limb_base();
    let (y3, y2) = split(r_hi * l_hi + carry1);

    let z0 = x0;
    let (carry2, z1) = split(x1 + y1);
    let (carry3, z2) = split(x2 + y2 + carry2);
    let (carry4, z3) = split(y3 + carry3);

    proof {
        // The schoolbook sum of the four partial products, then the carries
        // folded in limb by limb; the product is below 2^256, so no carry is
        // left over.
        let bb = wide_base();
        assert(l * r == l_lo * r_lo + b * (l_hi * r_lo + l_lo * r_hi) + bb * (l_hi * r_hi))
            by (nonlinear_arith)
            requires l == l_hi * b + l_lo, r == r_hi * b + r_lo, bb == b * b;
        let p00 = l_lo * r_lo;
        let p10 = l_hi * r_lo;
        let p01 = l_lo * r_hi;
        let p11 = l_hi * r_hi;
        assert(r_lo * l_lo == p00 && r_lo * l_hi == p10 && r_hi * l_lo == p01
            && r_hi * l_hi == p11) by (nonlinear_arith)
            requires p00 == l_lo * r_lo, p10 == l_hi * r_lo, p01 == l_lo * r_hi,
                p11 == l_hi * r_hi;
        assert(l * r == p00 + limb_base() * p10 + limb_base() * p01 + wide_base() * p11);
        assert(p00 + limb_base() * p10 == x0 + limb_base() * x1 + wide_base() * x2);
        assert(p01 + limb_base() * p11 == y1 + limb_base() * y2 + wide_base() * y3);
        assert(l * r == x0 + limb_base() * (x1 + y1) + wide_base() * (x2 + y2)
            + wide_base() * limb_base() * y3);
        assert(l * r == z0 + limb_base() * z1 + wide_base() * z2
            + wide_base() * limb_base() * z3 + wide_base() * wide_base() * carry4);
        assert(l * r < wide_base() * wide_base()) by (nonlinear_arith)
            requires l < bb, r < bb, l >= 0, r >= 0, bb == wide_base();
        assert(carry4 == 0);
    }
    let lo = z1 * 0x1_0000_0000_0000_0000u128 + z0;
    let hi = z3 * 0x1_0000_0000_0000_0000u128 + z2;
    (hi, lo)
}

/// Whether the 256-bit value `l` is below `r`.
pub(crate) fn lt(l: (u128, u128), r: (u128, u128)) -> (b: bool)
    ensures
        b == (u256_value(l) < u256_value(r)),
{
    proof {
        lemma_u256_order(l, r);
    }
    if l.0 < r.0 {
        return true;
    }
    if l.0 > r.0 {
        return false;
    }
    l.1 < r.1
}

/// Whether the 256-bit value `l` is above `r`.
pub(crate) fn gt(l: (u128, u128), r: (u128, u128)) -> (b: bool)
    ensures
        b == (u256_value(l) > u256_value(r)),
{
    lt(r, l)
}

/// Two-limb values are ordered by their high limbs first.
proof fn lemma_u256_order(l: (u128, u128), r: (u128, u128))
    ensures
        l.0 < r.0 ==> u256_value(l) < u256_value(r),
        l.0 > r.0 ==> u256_value(l) > u256_value(r),
        l.0 == r.0 ==> (u256_value(l) < u256_value(r) <==> l.1 < r.1),
{
    let w = wide_base();
    assert(l.0 < r.0 ==> l.0 * w + l.1 < r.0 * w + r.1) by (nonlinear_arith)
        requires l.1 < w, r.1 >= 0, w > 0;
    assert(l.0 > r.0 ==> l.0 * w + l.1 > r.0 * w + r.1) by (nonlinear_arith)
        requires r.1 < w, l.1 >= 0, w > 0;
}

/// What the split division of `h * 2^128 + l` by `d` yields. With
/// `2^128 == q0 * d + r0`, the quotient is assembled as
/// `q0 * h + l / d + (r0 * h + l % d) / d`; each 128-bit step that cannot be
/// held is an error, `true` where a product of the high limb or the carried
/// remainder is too large, `false` where `q0` or the final sum is.
pub open spec fn split_div(h: int, l: int, d: int) -> Result<int, bool> {
    if h == 0 {
        Ok(l / d)
    } else {
        let q0 = (wide_base() - d) / d + 1;
        let r0 = (wide_base() - d) % d;
        if q0 > u128::MAX {
            Err(false)
        } else if q0 * h > u128::MAX || r0 * h > u128::MAX || r0 * h + l % d > u128::MAX {
            Err(true)
        } else if q0 * h + l / d + (r0 * h + l % d) / d > u128::MAX {
            Err(false)
        } else {
            Ok(q0 * h + l / d + (r0 * h + l % d) / d)
        }
    }
}

/// Whatever the split division yields is the exact floor quotient, it
/// always succeeds on a zero high limb, and it fails whenever the quotient
/// needs more than 128 bits.
pub proof fn lemma_split_div_exact(h: int, l: int, d: int)
    requires
        0 <= h,
        0 <= l < wide_base(),
        0 < d < wide_base(),
    ensures
        split_div(h, l, d) is Ok ==> split_div(h, l, d)->Ok_0 == (h * wide_base() + l) / d,
        h == 0 ==> split_div(h, l, d) is Ok,
        (h * wide_base() + l) / d > u128::MAX ==> split_div(h, l, d) is Err,
{
    let w = wide_base();
    let q0 = (w - d) / d + 1;
    let r0 = (w - d) % d;
    lemma_fundamental_div_mod_converse(w - d, d, (w - d) / d, r0);
    vstd::arithmetic::div_mod::lemma_fundamental_div_mod(w - d, d);
    assert(w == q0 * d + r0) by (nonlinear_arith)
        requires w - d == ((w - d) / d) * d + r0, q0 == (w - d) / d + 1;
    vstd::arithmetic::div_mod::lemma_fundamental_div_mod(l, d);
    let s = h * r0 + l % d;
    vstd::arithmetic::div_mod::lemma_fundamental_div_mod(s, d);
    let q = q0 * h + l / d + s / d;
    assert(h * w + l == q * d + s % d) by (nonlinear_arith)
        requires
            w == q0 * d + r0,
            l == d * (l / d) + l % d,
            s == d * (s / d) + s % d,
            s == h * r0 + l % d,
            q == q0 * h + l / d + s / d;
    lemma_fundamental_div_mod_converse(h * w + l, d, q, s % d);
    assert(r0 * h == h * r0) by (nonlinear_arith);
    assert(q0 * h >= 0 && r0 * h >= 0) by (nonlinear_arith)
        requires q0 >= 0, r0 >= 0, h >= 0;
    if h == 0 {
        assert(q == l / d) by (nonlinear_arith)
            requires h == 0, q == q0 * h + l / d + s / d, s == h * r0 + l % d, l % d < d, l % d >= 0;
    }
}

/// The floor of `dividend / divisor` for a 256-bit dividend, computed by the
/// split method; `Err` where one of its 128-bit steps cannot be held (see
/// `split_div`), which is always the case when the quotient needs more than
/// 128 bits.
pub(crate) fn div(dividend: (u128, u128), divisor: u128) -> (r: Result<u128, bool>)
    requires
        divisor > 0,
    ensures
        match r {
            Ok(q) => split_div(dividend.0 as int, dividend.1 as int, divisor as int) == Ok::<int, bool>(q as int),
            Err(e) => split_div(dividend.0 as int, dividend.1 as int, divisor as int) == Err::<int, bool>(e),
        },
        r is Ok ==> r->Ok_0 == u256_value(dividend) / (divisor as int),
        dividend.0 == 0 ==> r is Ok,
        u256_value(dividend) / (divisor as int) > u128::MAX ==> r is Err,
{
    proof {
        lemma_split_div_exact(dividend.0 as int, dividend.1 as int, divisor as int);
    }
    let h = dividend.0;
    let l = dividend.1;
    let (a, c_prime) = if h > 0 {
        let m = u128::MAX - divisor + 1;
        let q0 = match (m / divisor).checked_add(1) {
            Some(v) => v,
            None => return Err(false),
        };
        let a = match q0.checked_mul(h) {
            Some(v) => v,
            None => return Err(true),
        };
        let c_prime = match (m % divisor).checked_mul(h) {
            Some(v) => v,
            None => return Err(true),
        };
        (a, c_prime)
    } else {
        (0u128, 0u128)
    };
    proof {
        if h == 0 {
            assert((l % divisor) / divisor == 0) by (nonlinear_arith)
                requires 0 <= l % divisor < divisor;
        }
    }
    let b = l / divisor;
    let c = match c_prime.checked_add(l % divisor) {
        Some(v) => v / divisor,
        None => return Err(true),
    };
    match a.checked_add(b) {
        Some(ab) => match ab.checked_add(c) {
            Some(q) => Ok(q),
            None => Err(false),
        },
        None => Err(false),
    }
}

} // verus!
