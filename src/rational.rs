//! Exact `x * num / den` on signed 128-bit integers, and reduced fractions.

use vstd::prelude::*;
use vstd::arithmetic::div_mod::{lemma_fundamental_div_mod, lemma_fundamental_div_mod_converse};
use crate::wide::{carrying_mul, div, gt, lt, split_div, wide_base};

verus! {

/// The absolute value of `v`.
pub open spec fn abs(v: int) -> int {
    if v < 0 {
        -v
    } else {
        v
    }
}

/// The greatest common divisor of `a` and `b`, by Euclid's algorithm.
pub open spec fn gcd(a: nat, b: nat) -> nat
    decreases b,
{
    if b == 0 {
        a
    } else {
        gcd(b, a % b)
    }
}

/// `|v|` as an unsigned number; defined for every `i128`, `i128::MIN` included.
fn magnitude(v: i128) -> (m: u128)
    ensures
        m == abs(v as int),
{
    if v < 0 {
        (-(v + 1)) as u128 + 1
    } else {
        v as u128
    }
}

/// `-m` as a signed number.
fn negated(m: u128) -> (r: i128)
    requires
        m <= 0x8000_0000_0000_0000_0000_0000_0000_0000u128,
    ensures
        r == -m,
{
    if m == 0x8000_0000_0000_0000_0000_0000_0000_0000u128 {
        i128::MIN
    } else {
        -(m as i128)
    }
}

/// With `b > 0`, the gcd is positive and divides both arguments.
pub proof fn lemma_gcd_divides(a: nat, b: nat)
    requires
        a > 0 || b > 0,
    ensures
        gcd(a, b) > 0,
        a % gcd(a, b) == 0,
        b % gcd(a, b) == 0,
    decreases b,
{
    if b == 0 {
        vstd::arithmetic::div_mod::lemma_mod_self_0(a as int);
        vstd::arithmetic::div_mod::lemma_small_mod(0, a);
    } else {
        let r = a % b;
        lemma_gcd_divides(b, r);
        let g = gcd(b, r);
        lemma_fundamental_div_mod(b as int, g as int);
        lemma_fundamental_div_mod(r as int, g as int);
        lemma_fundamental_div_mod(a as int, b as int);
        let kb = b / g;
        let kr = r / g;
        let q = a / b;
        assert(a == g * (q * kb + kr)) by (nonlinear_arith)
            requires a == b * q + r, b == g * kb, r == g * kr;
        lemma_fundamental_div_mod_converse(a as int, g as int, (q * kb + kr) as int, 0);
    }
}

/// Scaling both arguments scales the gcd.
pub proof fn lemma_gcd_scale(a: nat, b: nat, k: nat)
    requires
        k > 0,
    ensures
        gcd(k * a, k * b) == k * gcd(a, b),
    decreases b,
{
    if b == 0 {
        assert(k * b == 0);
    } else {
        let q = a / b;
        let r = a % b;
        lemma_fundamental_div_mod(a as int, b as int);
        assert(k * a == q * (k * b) + k * r) by (nonlinear_arith)
            requires a == b * q + r;
        assert(0 <= k * r < k * b) by (nonlinear_arith)
            requires 0 <= r < b, k > 0;
        lemma_fundamental_div_mod_converse((k * a) as int, (k * b) as int, q as int, (k * r) as int);
        assert(k * b > 0) by (nonlinear_arith)
            requires k > 0, b > 0;
        lemma_gcd_scale(b, r, k);
    }
}

/// Dividing both arguments by their gcd leaves a gcd of one.
pub proof fn lemma_gcd_reduced(a: nat, b: nat)
    requires
        b > 0,
    ensures
        gcd(a / gcd(a, b), b / gcd(a, b)) == 1,
{
    lemma_gcd_divides(a, b);
    let g = gcd(a, b);
    lemma_fundamental_div_mod(a as int, g as int);
    lemma_fundamental_div_mod(b as int, g as int);
    let a2 = a / g;
    let b2 = b / g;
    lemma_gcd_scale(a2, b2, g);
    assert(g * gcd(a2, b2) == g * 1);
    vstd::arithmetic::mul::lemma_mul_equality_converse(g as int, gcd(a2, b2) as int, 1);
}

/// The gcd of `a` and `b` for `b > 0`.
fn gcd_u128(a: u128, b: u128) -> (g: u128)
    ensures
        g == gcd(a as nat, b as nat),
{
    let ghost a0 = a;
    let ghost b0 = b;
    let mut a = a;
    let mut b = b;
    while b != 0
        invariant
            gcd(a as nat, b as nat) == gcd(a0 as nat, b0 as nat),
        decreases b,
    {
        let c = b;
        b = a % b;
        a = c;
    }
    a
}

/// `x * num / |den|`, rounded toward zero.
pub open spec fn trunc_mul_div(x: int, num: int, den: int) -> int {
    let q = (abs(x) * abs(num)) / abs(den);
    if (x < 0) != (num < 0) {
        -q
    } else {
        q
    }
}

/// What the exact signed product-quotient yields: the product of the
/// magnitudes of `x` and `num` is divided by `|den|` with the split
/// division (see `split_div`, which gives the error's flag), a quotient above
/// `i128::MAX` is `Err(false)`, and the sign is restored.
pub open spec fn safe_mul_outcome(x: int, num: int, den: int) -> Result<int, bool> {
    let p = abs(x) * abs(num);
    match split_div(p / wide_base(), p % wide_base(), abs(den)) {
        Ok(q) => if q > i128::MAX {
            Err(false)
        } else if (x < 0) != (num < 0) {
            Ok(-q)
        } else {
            Ok(q)
        },
        Err(e) => Err(e),
    }
}

/// Whether `safe_mul(x, num, den)` succeeds.
pub open spec fn safe_mul_fits(x: int, num: int, den: int) -> bool {
    safe_mul_outcome(x, num, den) is Ok
}

/// A successful product-quotient is exact; a quotient whose magnitude
/// exceeds `i128::MAX` is an error; and where the product of the magnitudes
/// fits in 128 bits, success comes exactly when the quotient fits.
pub proof fn lemma_safe_mul_exact(x: i128, num: i128, den: i128)
    requires
        den != 0,
    ensures
        safe_mul_fits(x as int, num as int, den as int) ==> safe_mul_outcome(
            x as int,
            num as int,
            den as int,
        )->Ok_0 == trunc_mul_div(x as int, num as int, den as int),
        abs(trunc_mul_div(x as int, num as int, den as int)) > i128::MAX ==> !safe_mul_fits(
            x as int,
            num as int,
            den as int,
        ),
        abs(x as int) * abs(num as int) < wide_base() && abs(
            trunc_mul_div(x as int, num as int, den as int),
        ) <= i128::MAX ==> safe_mul_fits(x as int, num as int, den as int),
{
    let w = wide_base();
    let p = abs(x as int) * abs(num as int);
    assert(p >= 0) by (nonlinear_arith)
        requires p == abs(x as int) * abs(num as int);
    lemma_fundamental_div_mod(p, w);
    let h = p / w;
    let l = p % w;
    assert(h >= 0) by (nonlinear_arith)
        requires p >= 0, h == p / w, w > 0;
    crate::wide::lemma_split_div_exact(h, l, abs(den as int));
    assert(h * w + l == p);
    if p < w {
        lemma_fundamental_div_mod_converse(p, w, 0, p);
    }
}

/// `x * num / |den|` rounded toward zero, exact even where `x * num` does
/// not fit in 128 bits; the error says which step failed (see
/// `safe_mul_outcome`).
pub fn safe_mul_internal(x: i128, num: i128, den: i128) -> (r: Result<i128, bool>)
    requires
        den != 0,
    ensures
        match r {
            Ok(v) => safe_mul_outcome(x as int, num as int, den as int) == Ok::<int, bool>(v as int),
            Err(e) => safe_mul_outcome(x as int, num as int, den as int) == Err::<int, bool>(e),
        },
        r is Ok ==> r->Ok_0 == trunc_mul_div(x as int, num as int, den as int),
{
    proof {
        lemma_safe_mul_exact(x, num, den);
    }
    let flip_sign = (x < 0) != (num < 0);
    let ux = magnitude(x);
    let un = magnitude(num);
    let ud = magnitude(den);
    let (hi, lo) = carrying_mul(ux, un);
    proof {
        let p = abs(x as int) * abs(num as int);
        assert(p == hi * wide_base() + lo);
        lemma_fundamental_div_mod_converse(p, wide_base(), hi as int, lo as int);
    }
    let q = match div((hi, lo), ud) {
        Ok(q) => q,
        Err(e) => return Err(e),
    };
    if q > i128::MAX as u128 {
        return Err(false);
    }
    let ret = q as i128;
    if flip_sign {
        Ok(-ret)
    } else {
        Ok(ret)
    }
}

/// `x * num / |den|` rounded toward zero, or `Err` where the split division
/// cannot hold a step or the quotient exceeds `i128::MAX` in magnitude.
pub fn safe_mul(x: i128, num: i128, den: i128) -> (r: Result<i128, ()>)
    requires
        den != 0,
    ensures
        r is Ok <==> safe_mul_fits(x as int, num as int, den as int),
        r is Ok ==> r->Ok_0 == trunc_mul_div(x as int, num as int, den as int),
        abs(trunc_mul_div(x as int, num as int, den as int)) > i128::MAX ==> r is Err,
        abs(x as int) * abs(num as int) < wide_base() && abs(
            trunc_mul_div(x as int, num as int, den as int),
        ) <= i128::MAX ==> r is Ok,
{
    proof {
        lemma_safe_mul_exact(x, num, den);
    }
    match safe_mul_internal(x, num, den) {
        Ok(v) => Ok(v),
        Err(_) => Err(()),
    }
}

/// `|a| / g` where `g` is the gcd of the magnitudes of `n` and `d`.
pub open spec fn reduced_magnitude(a: int, n: int, d: int) -> int {
    abs(a) / (gcd(abs(n) as nat, abs(d) as nat) as int)
}

/// The numerator of `n / d` in lowest terms with a positive denominator.
pub open spec fn reduced_num(n: int, d: int) -> int {
    if (n < 0) != (d < 0) {
        -reduced_magnitude(n, n, d)
    } else {
        reduced_magnitude(n, n, d)
    }
}

/// The denominator of `n / d` in lowest terms, which is positive.
pub open spec fn reduced_den(n: int, d: int) -> int {
    reduced_magnitude(d, n, d)
}

/// `n / d` has a lowest-terms form whose two terms fit in `i128`.
pub open spec fn can_reduce(n: int, d: int) -> bool {
    &&& d != 0
    &&& i128::MIN <= reduced_num(n, d) <= i128::MAX
    &&& reduced_den(n, d) <= i128::MAX
}

/// The gcd does not depend on the order of its arguments.
pub proof fn lemma_gcd_symmetric(a: nat, b: nat)
    ensures
        gcd(a, b) == gcd(b, a),
{
    if a == 0 || b == 0 {
        if a > 0 {
            assert(gcd(0, a) == gcd(a, 0nat % a));
            vstd::arithmetic::div_mod::lemma_small_mod(0, a);
        }
        if b > 0 {
            assert(gcd(0, b) == gcd(b, 0nat % b));
            vstd::arithmetic::div_mod::lemma_small_mod(0, b);
        }
    } else if a < b {
        vstd::arithmetic::div_mod::lemma_small_mod(a, b);
        assert(gcd(a, b) == gcd(b, a % b));
    } else if b < a {
        vstd::arithmetic::div_mod::lemma_small_mod(b, a);
        assert(gcd(b, a) == gcd(a, b % a));
    }
}

/// Every fraction whose terms are not `i128::MIN` (a numerator of
/// `i128::MIN` over a positive denominator included) can be reduced.
pub proof fn lemma_can_reduce(n: i128, d: i128)
    requires
        d != 0,
        d != i128::MIN,
        n != i128::MIN || d > 0,
    ensures
        can_reduce(n as int, d as int),
{
    let an = abs(n as int);
    let ad = abs(d as int);
    lemma_gcd_divides(an as nat, ad as nat);
    let g = gcd(an as nat, ad as nat) as int;
    lemma_fundamental_div_mod(an, g);
    lemma_fundamental_div_mod(ad, g);
    assert(an / g <= an) by (nonlinear_arith)
        requires an == g * (an / g) + an % g, an % g >= 0, g >= 1, an >= 0;
    assert(ad / g <= ad) by (nonlinear_arith)
        requires ad == g * (ad / g) + ad % g, ad % g >= 0, g >= 1, ad >= 0;
    assert(an / g >= 0) by (nonlinear_arith)
        requires an >= 0, g >= 1;
}

/// A fraction of two `i128` terms.
pub struct Ratio {
    pub num: i128,
    pub den: i128,
}

impl Ratio {
    /// The denominator is positive and the terms have no common factor.
    pub open spec fn wf(self) -> bool {
        self.den > 0 && gcd(abs(self.num as int) as nat, self.den as nat) == 1
    }

    /// `n / d` in lowest terms with a positive denominator.
    pub fn new(n: i128, d: i128) -> (r: Ratio)
        requires
            can_reduce(n as int, d as int),
        ensures
            r.num == reduced_num(n as int, d as int),
            r.den == reduced_den(n as int, d as int),
            r.wf(),
    {
        let mut ret = Ratio { num: n, den: d };
        ret.reduce();
        ret
    }

    /// Brings the fraction to lowest terms with a positive denominator.
    fn reduce(&mut self)
        requires
            can_reduce(old(self).num as int, old(self).den as int),
        ensures
            final(self).num == reduced_num(old(self).num as int, old(self).den as int),
            final(self).den == reduced_den(old(self).num as int, old(self).den as int),
            final(self).wf(),
    {
        let un = magnitude(self.num);
        let ud = magnitude(self.den);
        let g = gcd_u128(un, ud);
        proof {
            lemma_gcd_divides(un as nat, ud as nat);
            lemma_gcd_reduced(un as nat, ud as nat);
            lemma_fundamental_div_mod(ud as int, g as int);
            assert(ud / g > 0) by (nonlinear_arith)
                requires ud == g * (ud / g) + ud % g, ud % g == 0, ud > 0, g > 0;
        }
        let rn = un / g;
        let rd = ud / g;
        let negative = (self.num < 0) != (self.den < 0);
        self.den = rd as i128;
        self.num = if negative {
            negated(rn)
        } else {
            rn as i128
        };
    }

    /// The sign of `self - other`: -1, 0 or 1. The cross products are
    /// compared exactly, as 256-bit magnitudes, so no pair of fractions
    /// overflows here.
    pub fn compare(&self, other: &Ratio) -> (c: i32)
        requires
            self.wf(),
            other.wf(),
        ensures
            c == (if self.num * other.den < other.num * self.den {
                -1int
            } else if self.num * other.den > other.num * self.den {
                1int
            } else {
                0int
            }),
    {
        let a_neg = self.num < 0;
        let b_neg = other.num < 0;
        let ghost a = self.num * other.den;
        let ghost b = other.num * self.den;
        proof {
            assert(self.num < 0 ==> a < 0) by (nonlinear_arith)
                requires a == self.num * other.den, other.den > 0;
            assert(self.num >= 0 ==> a >= 0) by (nonlinear_arith)
                requires a == self.num * other.den, other.den > 0;
            assert(other.num < 0 ==> b < 0) by (nonlinear_arith)
                requires b == other.num * self.den, self.den > 0;
            assert(other.num >= 0 ==> b >= 0) by (nonlinear_arith)
                requires b == other.num * self.den, self.den > 0;
        }
        if a_neg != b_neg {
            return if a_neg {
                -1
            } else {
                1
            };
        }
        let pa = carrying_mul(magnitude(self.num), other.den as u128);
        let pb = carrying_mul(magnitude(other.num), self.den as u128);
        proof {
            assert(abs(self.num as int) * other.den == abs(a)) by (nonlinear_arith)
                requires a == self.num * other.den, other.den > 0;
            assert(abs(other.num as int) * self.den == abs(b)) by (nonlinear_arith)
                requires b == other.num * self.den, self.den > 0;
        }
        if lt(pa, pb) {
            if a_neg {
                1
            } else {
                -1
            }
        } else if gt(pa, pb) {
            if a_neg {
                -1
            } else {
                1
            }
        } else {
            0
        }
    }

    /// `x * self` rounded toward zero.
    pub fn truncating_mul(&self, x: i128) -> (r: i128)
        requires
            self.wf(),
            safe_mul_fits(x as int, self.num as int, self.den as int),
        ensures
            r == trunc_mul_div(x as int, self.num as int, self.den as int),
    {
        match safe_mul(x, self.num, self.den) {
            Ok(v) => v,
            Err(_) => {
                assert(false);
                0
            },
        }
    }

    /// `1 / self`, in lowest terms.
    pub fn reciprocal(&self) -> (r: Ratio)
        requires
            self.wf(),
            self.num != 0,
            self.num != i128::MIN,
        ensures
            r.num == (if self.num < 0 {
                -self.den
            } else {
                self.den as int
            }),
            r.den == abs(self.num as int),
            r.wf(),
    {
        proof {
            lemma_can_reduce(self.den, self.num);
            lemma_gcd_symmetric(abs(self.num as int) as nat, self.den as nat);
            assert(abs(self.den as int) == self.den);
            assert(gcd(abs(self.den as int) as nat, abs(self.num as int) as nat) == 1);
            assert(abs(self.num as int) / 1 == abs(self.num as int));
        }
        Self::new(self.den, self.num)
    }

    /// `self * other`, in lowest terms.
    pub fn mul(&self, other: &Ratio) -> (r: Ratio)
        requires
            self.wf(),
            other.wf(),
            i128::MIN <= self.num * other.num <= i128::MAX,
            self.den * other.den <= i128::MAX,
        ensures
            r.num == reduced_num(self.num * other.num, self.den * other.den),
            r.den == reduced_den(self.num * other.num, self.den * other.den),
            r.wf(),
    {
        proof {
            assert(self.den * other.den > 0) by (nonlinear_arith)
                requires self.den > 0, other.den > 0;
        }
        let n = self.num * other.num;
        let d = self.den * other.den;
        proof {
            lemma_can_reduce(n, d);
        }
        Self::new(n, d)
    }

    /// The fraction as an integer, rounded toward zero.
    pub fn to_i128(&self) -> (r: i128)
        requires
            self.wf(),
        ensures
            r == (if self.num < 0 {
                -(abs(self.num as int) / (self.den as int))
            } else {
                self.num / self.den
            }),
    {
        let q = magnitude(self.num) / (self.den as u128);
        proof {
            assert(q <= abs(self.num as int)) by (nonlinear_arith)
                requires q == abs(self.num as int) / (self.den as int), self.den >= 1,
                    abs(self.num as int) >= 0;
        }
        if self.num < 0 {
            negated(q)
        } else {
            q as i128
        }
    }
}

} // verus!
