//! Fixed-point scalars.
//!
//! Every quantity of the growth model (coordinates, energy, coherence,
//! probabilities, ...) is a [`Scalar`]: a signed count of billionths.
//! Arithmetic is total: a result that leaves the representable range is
//! pinned to the nearest bound, and a quotient is rounded toward zero.

use vstd::prelude::*;

verus! {

/// Raw units per whole unit: a scalar counts billionths.
pub const ONE_RAW: i64 = 1_000_000_000;

/// The integer nearest to `v` that an `i64` can hold.
pub open spec fn sat(v: int) -> int {
    if v < i64::MIN as int {
        i64::MIN as int
    } else if v > i64::MAX as int {
        i64::MAX as int
    } else {
        v
    }
}

/// The quotient of `n` by `d` rounded toward zero (`d` nonzero).
pub open spec fn tdiv(n: int, d: int) -> int {
    if d > 0 {
        if n >= 0 {
            n / d
        } else {
            -((-n) / d)
        }
    } else {
        if n >= 0 {
            -(n / (-d))
        } else {
            (-n) / (-d)
        }
    }
}

/// A fixed-point number with nine decimal places.
#[derive(Clone, Copy, Debug, PartialEq, Eq, Structural)]
pub struct Scalar {
    pub raw: i64,
}

impl View for Scalar {
    type V = int;

    /// The number of billionths that the scalar stands for.
    open spec fn view(&self) -> int {
        self.raw as int
    }
}

/// The scalar whose raw count is `sat(v)`.
pub open spec fn scalar_of(v: int) -> Scalar {
    Scalar { raw: sat(v) as i64 }
}

fn pin(v: i128) -> (r: Scalar)
    ensures
        r == scalar_of(v as int),
{
    if v < i64::MIN as i128 {
        Scalar { raw: i64::MIN }
    } else if v > i64::MAX as i128 {
        Scalar { raw: i64::MAX }
    } else {
        Scalar { raw: v as i64 }
    }
}

fn quotient_toward_zero(n: i128, d: i128) -> (q: i128)
    requires
        d != 0,
        n > i128::MIN,
        d > i128::MIN,
    ensures
        q == tdiv(n as int, d as int),
{
    let nn: u128 = if n >= 0 { n as u128 } else { (-n) as u128 };
    let dd: u128 = if d >= 0 { d as u128 } else { (-d) as u128 };
    let m: u128 = nn / dd;
    assert(m <= nn) by (nonlinear_arith)
        requires
            m == nn / dd,
            dd > 0,
    ;
    if (n >= 0) == (d > 0) {
        m as i128
    } else {
        -(m as i128)
    }
}

impl Scalar {
    pub open spec fn add_spec(self, rhs: Scalar) -> Scalar {
        scalar_of(self@ + rhs@)
    }

    pub open spec fn sub_spec(self, rhs: Scalar) -> Scalar {
        scalar_of(self@ - rhs@)
    }

    pub open spec fn mul_spec(self, rhs: Scalar) -> Scalar {
        scalar_of(tdiv(self@ * rhs@, ONE_RAW as int))
    }

    /// Division by zero gives the largest scalar of the dividend's sign,
    /// and zero for a zero dividend.
    pub open spec fn div_spec(self, rhs: Scalar) -> Scalar {
        if rhs@ == 0 {
            if self@ > 0 {
                scalar_of(i64::MAX as int)
            } else if self@ < 0 {
                scalar_of(i64::MIN as int)
            } else {
                scalar_of(0)
            }
        } else {
            scalar_of(tdiv(self@ * ONE_RAW, rhs@))
        }
    }

    pub open spec fn neg_spec(self) -> Scalar {
        scalar_of(-self@)
    }

    pub open spec fn abs_spec(self) -> Scalar {
        if self@ < 0 {
            scalar_of(-self@)
        } else {
            self
        }
    }

    /// One for a positive scalar, minus one for a negative one, zero for zero.
    pub open spec fn signum_spec(self) -> Scalar {
        if self@ > 0 {
            scalar_of(ONE_RAW as int)
        } else if self@ < 0 {
            scalar_of(-(ONE_RAW as int))
        } else {
            scalar_of(0)
        }
    }

    pub open spec fn min_spec(self, rhs: Scalar) -> Scalar {
        if rhs@ < self@ {
            rhs
        } else {
            self
        }
    }

    pub open spec fn max_spec(self, rhs: Scalar) -> Scalar {
        if rhs@ > self@ {
            rhs
        } else {
            self
        }
    }

    /// `self` raised to at least `lo`, then lowered to at most `hi`.
    pub open spec fn clamp_spec(self, lo: Scalar, hi: Scalar) -> Scalar {
        self.max_spec(lo).min_spec(hi)
    }

    pub open spec fn lt_spec(self, rhs: Scalar) -> bool {
        self@ < rhs@
    }

    pub open spec fn le_spec(self, rhs: Scalar) -> bool {
        self@ <= rhs@
    }

    pub open spec fn gt_spec(self, rhs: Scalar) -> bool {
        self@ > rhs@
    }

    pub open spec fn ge_spec(self, rhs: Scalar) -> bool {
        self@ >= rhs@
    }

    pub open spec fn from_raw_spec(raw: i64) -> Scalar {
        Scalar { raw }
    }

    pub open spec fn from_int_spec(n: i64) -> Scalar {
        scalar_of(n * ONE_RAW)
    }

    pub open spec fn zero_spec() -> Scalar {
        Scalar { raw: 0 }
    }

    pub open spec fn one_spec() -> Scalar {
        Scalar { raw: ONE_RAW }
    }

    /// The scalar of `raw` billionths.
    #[verifier::when_used_as_spec(from_raw_spec)]
    pub fn from_raw(raw: i64) -> (r: Scalar)
        ensures
            r == Scalar::from_raw_spec(raw),
    {
        Scalar { raw }
    }

    /// The scalar of `n` whole units.
    #[verifier::when_used_as_spec(from_int_spec)]
    pub fn from_int(n: i64) -> (r: Scalar)
        ensures
            r == Scalar::from_int_spec(n),
    {
        let wide: i128 = n as i128;
        assert(-9223372036854775808 * 1_000_000_000 <= wide * 1_000_000_000
            <= 9223372036854775807 * 1_000_000_000) by (nonlinear_arith)
            requires
                -9223372036854775808 <= wide <= 9223372036854775807,
        ;
        pin(wide * (ONE_RAW as i128))
    }

    #[verifier::when_used_as_spec(zero_spec)]
    pub fn zero() -> (r: Scalar)
        ensures
            r == Scalar::zero_spec(),
    {
        Scalar { raw: 0 }
    }

    #[verifier::when_used_as_spec(one_spec)]
    pub fn one() -> (r: Scalar)
        ensures
            r == Scalar::one_spec(),
    {
        Scalar { raw: ONE_RAW }
    }

    /// The number of billionths.
    pub fn raw(self) -> (r: i64)
        ensures
            r == self@,
    {
        self.raw
    }

    #[verifier::when_used_as_spec(add_spec)]
    pub fn add(self, rhs: Scalar) -> (r: Scalar)
        ensures
            r == self.add_spec(rhs),
    {
        pin(self.raw as i128 + rhs.raw as i128)
    }

    #[verifier::when_used_as_spec(sub_spec)]
    pub fn sub(self, rhs: Scalar) -> (r: Scalar)
        ensures
            r == self.sub_spec(rhs),
    {
        pin(self.raw as i128 - rhs.raw as i128)
    }

    #[verifier::when_used_as_spec(mul_spec)]
    pub fn mul(self, rhs: Scalar) -> (r: Scalar)
        ensures
            r == self.mul_spec(rhs),
    {
        let a: i128 = self.raw as i128;
        let b: i128 = rhs.raw as i128;
        assert(-0x4000_0000_0000_0000_0000_0000_0000_0000 <= a * b
            <= 0x4000_0000_0000_0000_0000_0000_0000_0000) by (nonlinear_arith)
            requires
                -0x8000_0000_0000_0000 <= a <= 0x8000_0000_0000_0000,
                -0x8000_0000_0000_0000 <= b <= 0x8000_0000_0000_0000,
        ;
        pin(quotient_toward_zero(a * b, ONE_RAW as i128))
    }

    #[verifier::when_used_as_spec(div_spec)]
    pub fn div(self, rhs: Scalar) -> (r: Scalar)
        ensures
            r == self.div_spec(rhs),
    {
        if rhs.raw == 0 {
            if self.raw > 0 {
                Scalar { raw: i64::MAX }
            } else if self.raw < 0 {
                Scalar { raw: i64::MIN }
            } else {
                Scalar { raw: 0 }
            }
        } else {
            let a: i128 = self.raw as i128;
            assert(-0x8000_0000_0000_0000 * 1_000_000_000 <= a * 1_000_000_000
                <= 0x8000_0000_0000_0000 * 1_000_000_000) by (nonlinear_arith)
                requires
                    -0x8000_0000_0000_0000 <= a <= 0x8000_0000_0000_0000,
            ;
            pin(quotient_toward_zero(a * (ONE_RAW as i128), rhs.raw as i128))
        }
    }

    #[verifier::when_used_as_spec(neg_spec)]
    pub fn neg(self) -> (r: Scalar)
        ensures
            r == self.neg_spec(),
    {
        pin(-(self.raw as i128))
    }

    #[verifier::when_used_as_spec(abs_spec)]
    pub fn abs(self) -> (r: Scalar)
        ensures
            r == self.abs_spec(),
    {
        if self.raw < 0 {
            pin(-(self.raw as i128))
        } else {
            self
        }
    }

    #[verifier::when_used_as_spec(signum_spec)]
    pub fn signum(self) -> (r: Scalar)
        ensures
            r == self.signum_spec(),
    {
        if self.raw > 0 {
            Scalar { raw: ONE_RAW }
        } else if self.raw < 0 {
            Scalar { raw: -ONE_RAW }
        } else {
            Scalar { raw: 0 }
        }
    }

    #[verifier::when_used_as_spec(min_spec)]
    pub fn min(self, rhs: Scalar) -> (r: Scalar)
        ensures
            r == self.min_spec(rhs),
    {
        if rhs.raw < self.raw {
            rhs
        } else {
            self
        }
    }

    #[verifier::when_used_as_spec(max_spec)]
    pub fn max(self, rhs: Scalar) -> (r: Scalar)
        ensures
            r == self.max_spec(rhs),
    {
        if rhs.raw > self.raw {
            rhs
        } else {
            self
        }
    }

    #[verifier::when_used_as_spec(clamp_spec)]
    pub fn clamp(self, lo: Scalar, hi: Scalar) -> (r: Scalar)
        ensures
            r == self.clamp_spec(lo, hi),
    {
        self.max(lo).min(hi)
    }

    #[verifier::when_used_as_spec(lt_spec)]
    pub fn lt(self, rhs: Scalar) -> (r: bool)
        ensures
            r == self.lt_spec(rhs),
    {
        self.raw < rhs.raw
    }

    #[verifier::when_used_as_spec(le_spec)]
    pub fn le(self, rhs: Scalar) -> (r: bool)
        ensures
            r == self.le_spec(rhs),
    {
        self.raw <= rhs.raw
    }

    #[verifier::when_used_as_spec(gt_spec)]
    pub fn gt(self, rhs: Scalar) -> (r: bool)
        ensures
            r == self.gt_spec(rhs),
    {
        self.raw > rhs.raw
    }

    #[verifier::when_used_as_spec(ge_spec)]
    pub fn ge(self, rhs: Scalar) -> (r: bool)
        ensures
            r == self.ge_spec(rhs),
    {
        self.raw >= rhs.raw
    }
}

/// A product of a scalar that is not negative with a fraction of one is
/// not negative and not above the scalar.
pub proof fn lemma_mul_fraction(a: Scalar, f: Scalar)
    requires
        a@ >= 0,
        0 <= f@ <= ONE_RAW,
    ensures
        0 <= a.mul(f)@ <= a@,
{
    let p = a@ * f@;
    assert(0 <= p <= a@ * 1_000_000_000 && 0 <= p / 1_000_000_000 <= a@) by (nonlinear_arith)
        requires
            p == a@ * f@,
            a@ >= 0,
            0 <= f@ <= 1_000_000_000,
    ;
    assert(tdiv(p, ONE_RAW as int) == p / (ONE_RAW as int));
}

/// A product of two scalars that are not negative is not negative.
pub proof fn lemma_mul_nonnegative(a: Scalar, b: Scalar)
    requires
        a@ >= 0,
        b@ >= 0,
    ensures
        a.mul(b)@ >= 0,
{
    let p = a@ * b@;
    assert(p >= 0 && p / 1_000_000_000 >= 0) by (nonlinear_arith)
        requires
            p == a@ * b@,
            a@ >= 0,
            b@ >= 0,
    ;
    assert(tdiv(p, ONE_RAW as int) == p / (ONE_RAW as int));
}

/// A scalar times one is the scalar, and a scalar that is not zero
/// divided by itself is one.
pub proof fn lemma_unit_laws(x: Scalar)
    ensures
        x.mul(Scalar::one()) == x,
        x@ != 0 ==> x.div(x) == Scalar::one(),
{
    let v = x@;
    assert(tdiv(v * 1_000_000_000, 1_000_000_000) == v) by (nonlinear_arith);
    assert(v != 0 ==> tdiv(v * 1_000_000_000, v) == 1_000_000_000) by (nonlinear_arith);
}

} // verus!
