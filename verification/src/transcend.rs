//! Exponential, logarithm and hyperbolic tangent of a [`Scalar`].
//!
//! Each function is a fixed-point approximation that this module defines
//! exactly: the argument is reduced by powers of two and a polynomial with
//! rounded-down integer coefficients is evaluated on the rest.

use vstd::prelude::*;
use vstd::arithmetic::power2::{pow2, lemma_pow2_unfold, lemma2_to64, lemma_pow2_strictly_increases};
use crate::scalar::{scalar_of, Scalar, ONE_RAW};

verus! {

/// The natural logarithm of two, in billionths.
pub const LN2_RAW: i64 = 693_147_181;

/// Degree of the polynomial that approximates the exponential.
pub const EXP_TERMS: u64 = 12;

/// Number of terms of the series that approximates the logarithm.
pub const LN_TERMS: u64 = 10;

/// Terms `i` and above of the exponential series at `r`, nested:
/// `1 + r/i (1 + r/(i+1) (1 + ...))`, in billionths.
pub open spec fn exp_series(r: int, i: int) -> int
    decreases EXP_TERMS + 1 - i,
{
    if i > EXP_TERMS || i < 1 {
        ONE_RAW as int
    } else {
        ONE_RAW + (r * exp_series(r, i + 1)) / (i * ONE_RAW)
    }
}

/// `p` doubled `k` times, never above the largest scalar.
pub open spec fn doubled(p: int, k: nat) -> int
    decreases k,
{
    if k == 0 {
        p
    } else if 2 * p > i64::MAX {
        i64::MAX as int
    } else {
        doubled(2 * p, (k - 1) as nat)
    }
}

/// `p` halved `k` times, rounding down each time.
pub open spec fn halved(p: int, k: nat) -> int
    decreases k,
{
    if k == 0 {
        p
    } else {
        halved(p / 2, (k - 1) as nat)
    }
}

/// The exponential of `x` billionths, in billionths: with `x = k ln 2 + r`
/// and `0 <= r < ln 2`, the series at `r` scaled by two to the `k`.
pub open spec fn exp_raw(x: int) -> int {
    if x >= 0 {
        let k = x / (LN2_RAW as int);
        let r = x % (LN2_RAW as int);
        if k >= 34 {
            i64::MAX as int
        } else {
            doubled(exp_series(r, 1), k as nat)
        }
    } else {
        let q = (-x) / (LN2_RAW as int);
        let rem = (-x) % (LN2_RAW as int);
        if q >= 32 {
            0
        } else if rem == 0 {
            halved(ONE_RAW as int, q as nat)
        } else {
            halved(exp_series(LN2_RAW - rem, 1), (q + 1) as nat)
        }
    }
}

/// Terms `j` and above of the series of the inverse hyperbolic tangent,
/// nested in `w`, the square of its argument:
/// `1/(2j+1) + w (1/(2j+3) + w (...))`, in billionths.
pub open spec fn atanh_series(w: int, j: int) -> int
    decreases LN_TERMS - j,
{
    if j >= LN_TERMS || j < 0 {
        (ONE_RAW as int) / (2 * LN_TERMS + 1)
    } else {
        (ONE_RAW as int) / (2 * j + 1) + (w * atanh_series(w, j + 1)) / (ONE_RAW as int)
    }
}

/// The logarithm of `m` billionths for `1 <= m < 2`:
/// twice the inverse hyperbolic tangent of `(m - 1) / (m + 1)`.
pub open spec fn ln_unit(m: int) -> int {
    let z = ((m - ONE_RAW) * ONE_RAW) / (m + ONE_RAW);
    let w = (z * z) / (ONE_RAW as int);
    (2 * z * atanh_series(w, 0)) / (ONE_RAW as int)
}

/// The logarithm of `x >= 1` plus `k` times that of two: `x` is halved,
/// rounding down, until it is below two.
pub open spec fn ln_above(x: int, k: int) -> int
    decreases x,
{
    if x >= 2 * ONE_RAW {
        ln_above(x / 2, k + 1)
    } else {
        k * LN2_RAW + ln_unit(x)
    }
}

/// The logarithm of `0 < x < 1` minus `k` times that of two: `x` is
/// doubled until it is at least one.
pub open spec fn ln_below(x: int, k: int) -> int
    decreases
            (if x < ONE_RAW {
                ONE_RAW - x
            } else {
                0
            }),
{
    if 0 < x < ONE_RAW {
        ln_below(2 * x, k + 1)
    } else {
        ln_unit(x) - k * LN2_RAW
    }
}

/// The logarithm of `x` billionths, in billionths; the least scalar where
/// `x` is not positive.
pub open spec fn ln_raw(x: int) -> int {
    if x <= 0 {
        i64::MIN as int
    } else if x >= ONE_RAW {
        ln_above(x, 0)
    } else {
        ln_below(x, 0)
    }
}

proof fn lemma_exp_series_bound(r: int, i: int)
    requires
        0 <= r < LN2_RAW,
    ensures
        ONE_RAW <= exp_series(r, i) <= 4 * ONE_RAW,
    decreases EXP_TERMS + 1 - i,
{
    if !(i > EXP_TERMS || i < 1) {
        lemma_exp_series_bound(r, i + 1);
        let a = exp_series(r, i + 1);
        let t = (r * a) / (i * ONE_RAW);
        assert(0 <= t <= 3_000_000_000) by (nonlinear_arith)
            requires
                0 <= r < 693_147_181,
                1_000_000_000 <= a <= 4_000_000_000,
                i >= 1,
                t == (r * a) / (i * 1_000_000_000),
        ;
    }
}

proof fn lemma_atanh_series_bound(w: int, j: int)
    requires
        0 <= w <= ONE_RAW / 4,
    ensures
        0 <= atanh_series(w, j) <= 2 * ONE_RAW,
    decreases LN_TERMS - j,
{
    if !(j >= LN_TERMS || j < 0) {
        lemma_atanh_series_bound(w, j + 1);
        let a = atanh_series(w, j + 1);
        let t = (w * a) / (ONE_RAW as int);
        assert(0 <= t <= 500_000_000) by (nonlinear_arith)
            requires
                0 <= w <= 250_000_000,
                0 <= a <= 2_000_000_000,
                t == (w * a) / 1_000_000_000,
        ;
        let c = (ONE_RAW as int) / (2 * j + 1);
        assert(0 <= c <= 1_000_000_000) by (nonlinear_arith)
            requires
                j >= 0,
                c == 1_000_000_000int / (2 * j + 1),
        ;
    }
}

fn exp_polynomial(r: u64) -> (p: u64)
    requires
        r < LN2_RAW,
    ensures
        p == exp_series(r as int, 1),
        ONE_RAW <= p <= 4 * ONE_RAW,
        r == 0 ==> p == ONE_RAW,
{
    let mut acc: u64 = ONE_RAW as u64;
    let mut i: u64 = EXP_TERMS;
    while i >= 1
        invariant
            0 <= i <= EXP_TERMS,
            r < LN2_RAW,
            acc == exp_series(r as int, i + 1),
            ONE_RAW <= acc <= 4 * ONE_RAW,
            r == 0 ==> acc == ONE_RAW,
        decreases i,
    {
        proof {
            lemma_exp_series_bound(r as int, i as int);
            assert(r * acc <= 4_000_000_000_000_000_000) by (nonlinear_arith)
                requires
                    r < 693_147_181,
                    acc <= 4_000_000_000,
            ;
            assert(1_000_000_000 <= i * 1_000_000_000 <= 12_000_000_000) by (nonlinear_arith)
                requires
                    1 <= i <= 12,
            ;
        }
        assert(r == 0 ==> (r * acc) / (i * 1_000_000_000) == 0) by (nonlinear_arith)
            requires
                i >= 1,
        ;
        acc = (ONE_RAW as u64) + (r * acc) / (i * (ONE_RAW as u64));
        i = i - 1;
    }
    acc
}

fn double_times(p: u64, k: u64) -> (v: u64)
    requires
        p <= i64::MAX,
    ensures
        v == doubled(p as int, k as nat),
        v <= i64::MAX,
{
    let mut acc: u64 = p;
    let mut i: u64 = k;
    while i > 0 && acc <= (i64::MAX as u64) / 2
        invariant
            acc <= i64::MAX,
            doubled(acc as int, i as nat) == doubled(p as int, k as nat),
        decreases i,
    {
        acc = 2 * acc;
        i = i - 1;
    }
    if i > 0 {
        i64::MAX as u64
    } else {
        acc
    }
}

fn halve_times(p: u64, k: u64) -> (v: u64)
    ensures
        v == halved(p as int, k as nat),
        v <= p,
{
    let mut acc: u64 = p;
    let mut i: u64 = k;
    while i > 0
        invariant
            acc <= p,
            halved(acc as int, i as nat) == halved(p as int, k as nat),
        decreases i,
    {
        acc = acc / 2;
        i = i - 1;
    }
    acc
}

fn atanh_polynomial(w: u64) -> (a: u64)
    requires
        w <= ONE_RAW / 4,
    ensures
        a == atanh_series(w as int, 0),
        a <= 2 * ONE_RAW,
{
    let mut acc: u64 = (ONE_RAW as u64) / (2 * LN_TERMS + 1);
    let mut j: u64 = LN_TERMS;
    proof {
        lemma_atanh_series_bound(w as int, LN_TERMS as int);
    }
    while j > 0
        invariant
            0 <= j <= LN_TERMS,
            w <= ONE_RAW / 4,
            acc == atanh_series(w as int, j as int),
            acc <= 2 * ONE_RAW,
        decreases j,
    {
        proof {
            lemma_atanh_series_bound(w as int, j - 1);
            assert(w * acc <= 500_000_000_000_000_000) by (nonlinear_arith)
                requires
                    w <= 250_000_000,
                    acc <= 2_000_000_000,
            ;
        }
        acc = (ONE_RAW as u64) / (2 * (j - 1) + 1) + (w * acc) / (ONE_RAW as u64);
        j = j - 1;
    }
    acc
}

fn ln_of_unit(m: u64) -> (v: u64)
    requires
        ONE_RAW <= m < 2 * ONE_RAW,
    ensures
        v == ln_unit(m as int),
        v <= 2 * ONE_RAW,
        m == ONE_RAW ==> v == 0,
{
    let one: u64 = ONE_RAW as u64;
    assert((m - 1_000_000_000) * 1_000_000_000 <= 1_000_000_000_000_000_000) by (nonlinear_arith)
        requires
            1_000_000_000 <= m < 2_000_000_000,
    ;
    let z: u64 = ((m - one) * one) / (m + one);
    assert(z <= 500_000_000) by (nonlinear_arith)
        requires
            1_000_000_000 <= m < 2_000_000_000,
            z == ((m - 1_000_000_000) * 1_000_000_000) / (m + 1_000_000_000),
    ;
    assert(z * z <= 250_000_000_000_000_000) by (nonlinear_arith)
        requires
            z <= 500_000_000,
    ;
    let w: u64 = (z * z) / one;
    let a: u64 = atanh_polynomial(w);
    assert(2 * z * a <= 2_000_000_000_000_000_000) by (nonlinear_arith)
        requires
            z <= 500_000_000,
            a <= 2_000_000_000,
    ;
    assert(m == 1_000_000_000 ==> (2 * z * a) / 1_000_000_000 == 0) by (nonlinear_arith)
        requires
            z == ((m - 1_000_000_000) * 1_000_000_000) / (m + 1_000_000_000),
            m >= 1_000_000_000,
    ;
    (2 * z * a) / one
}

impl Scalar {
    pub open spec fn exp_spec(self) -> Scalar {
        scalar_of(exp_raw(self@))
    }

    pub open spec fn ln_spec(self) -> Scalar {
        scalar_of(ln_raw(self@))
    }

    /// The hyperbolic tangent, an odd function: for `y >= 0` it is
    /// `(1 - e) / (1 + e)` with `e` the exponential of `-2y`.
    pub open spec fn tanh_spec(self) -> Scalar {
        if self@ >= 0 {
            let e = self.add_spec(self).neg_spec().exp_spec();
            Scalar::one_spec().sub_spec(e).div_spec(Scalar::one_spec().add_spec(e))
        } else {
            let y = self.neg_spec();
            let e = y.add_spec(y).neg_spec().exp_spec();
            Scalar::one_spec().sub_spec(e).div_spec(Scalar::one_spec().add_spec(e)).neg_spec()
        }
    }

    /// The exponential of `self`: never negative, and one at zero.
    #[verifier::when_used_as_spec(exp_spec)]
    pub fn exp(self) -> (r: Scalar)
        ensures
            r == self.exp_spec(),
            r@ >= 0,
            self@ == 0 ==> r@ == ONE_RAW,
    {
        let ln2: u64 = LN2_RAW as u64;
        if self.raw >= 0 {
            let x: u64 = self.raw as u64;
            let k: u64 = x / ln2;
            let r: u64 = x % ln2;
            if k >= 34 {
                Scalar { raw: i64::MAX }
            } else {
                let p: u64 = exp_polynomial(r);
                let v: u64 = double_times(p, k);
                Scalar { raw: v as i64 }
            }
        } else {
            let m: u64 = (-(self.raw as i128)) as u64;
            let q: u64 = m / ln2;
            let rem: u64 = m % ln2;
            if q >= 32 {
                Scalar { raw: 0 }
            } else if rem == 0 {
                let v: u64 = halve_times(ONE_RAW as u64, q);
                Scalar { raw: v as i64 }
            } else {
                let p: u64 = exp_polynomial(ln2 - rem);
                let v: u64 = halve_times(p, q + 1);
                Scalar { raw: v as i64 }
            }
        }
    }

    /// The natural logarithm of `self`; the least scalar where `self` is
    /// not positive. It is zero at one and not negative from one on.
    #[verifier::when_used_as_spec(ln_spec)]
    pub fn ln(self) -> (r: Scalar)
        ensures
            r == self.ln_spec(),
            self@ == ONE_RAW ==> r@ == 0,
            self@ >= ONE_RAW ==> r@ >= 0,
    {
        let one: u64 = ONE_RAW as u64;
        if self.raw <= 0 {
            Scalar { raw: i64::MIN }
        } else if self.raw >= ONE_RAW {
            let mut x: u64 = self.raw as u64;
            let mut k: i64 = 0;
            proof {
                lemma2_to64();
                assert(x * pow2(0) == x) by (nonlinear_arith)
                    requires
                        pow2(0) == 1,
                ;
            }
            while x >= 2 * one
                invariant
                    one == ONE_RAW,
                    ONE_RAW <= x <= i64::MAX,
                    0 <= k <= 64,
                    x * pow2(k as nat) <= i64::MAX,
                    self@ < 2 * ONE_RAW ==> x == self@ && k == 0,
                    ln_above(x as int, k as int) == ln_above(self@, 0),
                decreases x,
            {
                proof {
                    lemma_halving_step(x as int, k as nat);
                }
                x = x / 2;
                k = k + 1;
            }
            let u: u64 = ln_of_unit(x);
            Scalar { raw: k * LN2_RAW + (u as i64) }
        } else {
            let mut x: u64 = self.raw as u64;
            let mut k: i64 = 0;
            proof {
                lemma2_to64();
            }
            while x < one
                invariant
                    one == ONE_RAW,
                    0 < x < 2 * ONE_RAW,
                    0 <= k <= 64,
                    pow2(k as nat) <= x,
                    ln_below(x as int, k as int) == ln_below(self@, 0),
                decreases 2 * ONE_RAW - x,
            {
                proof {
                    lemma_doubling_count(k as nat);
                    lemma_pow2_unfold((k + 1) as nat);
                }
                x = 2 * x;
                k = k + 1;
            }
            proof {
                lemma_doubling_count(k as nat);
            }
            let u: u64 = ln_of_unit(x);
            Scalar { raw: (u as i64) - k * LN2_RAW }
        }
    }

    /// The hyperbolic tangent of `self`: between minus one and one, and
    /// zero at zero.
    #[verifier::when_used_as_spec(tanh_spec)]
    pub fn tanh(self) -> (r: Scalar)
        ensures
            r == self.tanh_spec(),
            -ONE_RAW <= r@ <= ONE_RAW,
            self@ == 0 ==> r@ == 0,
    {
        if self.raw >= 0 {
            let e = self.add(self).neg().exp();
            proof {
                lemma_ratio_bound(e);
            }
            Scalar::one().sub(e).div(Scalar::one().add(e))
        } else {
            let y = self.neg();
            let e = y.add(y).neg().exp();
            proof {
                lemma_ratio_bound(e);
            }
            Scalar::one().sub(e).div(Scalar::one().add(e)).neg()
        }
    }
}

/// For `e` not negative, `(1 - e) / (1 + e)` lies between minus one and
/// one, and is zero where `e` is one.
proof fn lemma_ratio_bound(e: Scalar)
    requires
        e@ >= 0,
    ensures
        -ONE_RAW <= Scalar::one_spec().sub_spec(e).div_spec(Scalar::one_spec().add_spec(e))@
            <= ONE_RAW,
        e@ == ONE_RAW ==> Scalar::one_spec().sub_spec(e).div_spec(Scalar::one_spec().add_spec(e))@
            == 0,
{
    let a = Scalar::one_spec().sub_spec(e)@;
    let b = Scalar::one_spec().add_spec(e)@;
    assert(b >= ONE_RAW);
    assert(-b <= a <= b);
    let n = a * ONE_RAW;
    if a >= 0 {
        assert(0 <= n / b <= 1_000_000_000) by (nonlinear_arith)
            requires
                n == a * 1_000_000_000,
                0 <= a <= b,
                b >= 1_000_000_000,
        ;
        assert(a == 0 ==> n / b == 0) by (nonlinear_arith)
            requires
                n == a * 1_000_000_000,
                b >= 1_000_000_000,
        ;
    } else {
        assert(0 <= (-n) / b <= 1_000_000_000) by (nonlinear_arith)
            requires
                n == a * 1_000_000_000,
                -b <= a < 0,
                b >= 1_000_000_000,
        ;
    }
}

proof fn lemma_halving_step(x: int, k: nat)
    requires
        x >= 2,
        x * pow2(k) <= i64::MAX,
    ensures
        (x / 2) * pow2(k + 1) <= i64::MAX,
        k + 1 <= 64,
{
    let t = pow2(k);
    lemma_pow2_unfold(k + 1);
    assert((x / 2) * (2 * t) <= x * t) by (nonlinear_arith)
        requires
            x >= 0,
            t >= 0,
    ;
    if k >= 64 {
        lemma2_to64();
        if k > 64 {
            lemma_pow2_strictly_increases(64, k);
        }
        assert(x * t >= 0x1_0000_0000_0000_0000) by (nonlinear_arith)
            requires
                x >= 2,
                t >= 0x1_0000_0000_0000_0000,
        ;
    }
}

proof fn lemma_doubling_count(k: nat)
    requires
        pow2(k) < 2 * ONE_RAW,
    ensures
        k <= 31,
{
    if k >= 32 {
        lemma2_to64();
        if k > 32 {
            lemma_pow2_strictly_increases(32, k);
        }
    }
}

} // verus!
