//! Cosine and sine of an angle in radians, in fixed point.
//!
//! The angle is reduced to a quarter turn and an even and an odd polynomial
//! with rounded-down integer coefficients are evaluated on the rest.

use vstd::prelude::*;
use crate::scalar::{Scalar, ONE_RAW};

verus! {

/// A quarter turn (half of pi) in billionths of a radian.
pub const QUARTER_TURN_RAW: i64 = 1_570_796_327;

/// A full turn in billionths of a radian: four quarter turns.
pub const FULL_TURN_RAW: i64 = 6_283_185_308;

/// Number of nested factors of each trigonometric polynomial.
pub const TRIG_TERMS: u64 = 8;

/// `a - b`, or zero where `b` exceeds `a`.
pub open spec fn monus(a: int, b: int) -> int {
    if b <= a {
        a - b
    } else {
        0
    }
}

/// Factors `j` and above of the cosine series, nested in `w`, the square of
/// the angle: `1 - w/((2j-1)(2j)) (1 - w/((2j+1)(2j+2)) (...))`.
pub open spec fn cos_series(w: int, j: int) -> int
    decreases TRIG_TERMS + 1 - j,
{
    if j > TRIG_TERMS || j < 1 {
        ONE_RAW as int
    } else {
        monus(ONE_RAW as int, (w * cos_series(w, j + 1)) / ((2 * j - 1) * (2 * j) * ONE_RAW))
    }
}

/// Factors `j` and above of the sine series divided by the angle, nested in
/// `w`, the square of the angle: `1 - w/((2j)(2j+1)) (1 - ...)`.
pub open spec fn sin_series(w: int, j: int) -> int
    decreases TRIG_TERMS + 1 - j,
{
    if j > TRIG_TERMS || j < 1 {
        ONE_RAW as int
    } else {
        monus(ONE_RAW as int, (w * sin_series(w, j + 1)) / ((2 * j) * (2 * j + 1) * ONE_RAW))
    }
}

/// The cosine of `t` billionths of a radian, for `t` within a quarter turn.
pub open spec fn quarter_cos(t: int) -> int {
    cos_series((t * t) / (ONE_RAW as int), 1)
}

/// The sine of `t` billionths of a radian, for `t` within a quarter turn;
/// never above one.
pub open spec fn quarter_sin(t: int) -> int {
    let s = (t * sin_series((t * t) / (ONE_RAW as int), 1)) / (ONE_RAW as int);
    if s > ONE_RAW {
        ONE_RAW as int
    } else {
        s
    }
}

/// The angle `a >= 0` reduced to a full turn.
pub open spec fn reduced(a: int) -> int {
    a % (FULL_TURN_RAW as int)
}

/// The cosine of `a >= 0` billionths of a radian, in billionths.
pub open spec fn cos_raw(a: int) -> int {
    let q = reduced(a) / (QUARTER_TURN_RAW as int);
    let t = reduced(a) % (QUARTER_TURN_RAW as int);
    if q == 0 {
        quarter_cos(t)
    } else if q == 1 {
        -quarter_sin(t)
    } else if q == 2 {
        -quarter_cos(t)
    } else {
        quarter_sin(t)
    }
}

/// The sine of `a >= 0` billionths of a radian, in billionths.
pub open spec fn sin_raw(a: int) -> int {
    let q = reduced(a) / (QUARTER_TURN_RAW as int);
    let t = reduced(a) % (QUARTER_TURN_RAW as int);
    if q == 0 {
        quarter_sin(t)
    } else if q == 1 {
        quarter_cos(t)
    } else if q == 2 {
        -quarter_sin(t)
    } else {
        -quarter_cos(t)
    }
}

proof fn lemma_series_step(w: int, a: int, d: int) -> (t: int)
    requires
        0 <= w <= 3 * ONE_RAW,
        0 <= a <= ONE_RAW,
        d >= 1,
    ensures
        t == (w * a) / (d * ONE_RAW),
        0 <= t <= 3 * ONE_RAW,
        0 <= w * a <= 3 * ONE_RAW * ONE_RAW,
        d * ONE_RAW >= ONE_RAW,
{
    let t = (w * a) / (d * ONE_RAW);
    assert(0 <= w * a <= 3_000_000_000_000_000_000 && d * 1_000_000_000 >= 1_000_000_000
        && 0 <= (w * a) / (d * 1_000_000_000) <= 3_000_000_000) by (nonlinear_arith)
        requires
            0 <= w <= 3_000_000_000,
            0 <= a <= 1_000_000_000,
            d >= 1,
    ;
    t
}

proof fn lemma_cos_series_bound(w: int, j: int)
    requires
        0 <= w <= 3 * ONE_RAW,
    ensures
        0 <= cos_series(w, j) <= ONE_RAW,
    decreases TRIG_TERMS + 1 - j,
{
    if !(j > TRIG_TERMS || j < 1) {
        lemma_cos_series_bound(w, j + 1);
        assert((2 * j - 1) * (2 * j) >= 1) by (nonlinear_arith)
            requires
                j >= 1,
        ;
        lemma_series_step(w, cos_series(w, j + 1), (2 * j - 1) * (2 * j));
    }
}

proof fn lemma_sin_series_bound(w: int, j: int)
    requires
        0 <= w <= 3 * ONE_RAW,
    ensures
        0 <= sin_series(w, j) <= ONE_RAW,
    decreases TRIG_TERMS + 1 - j,
{
    if !(j > TRIG_TERMS || j < 1) {
        lemma_sin_series_bound(w, j + 1);
        assert((2 * j) * (2 * j + 1) >= 1) by (nonlinear_arith)
            requires
                j >= 1,
        ;
        lemma_series_step(w, sin_series(w, j + 1), (2 * j) * (2 * j + 1));
    }
}

fn square_of_angle(t: u64) -> (w: u64)
    requires
        t < QUARTER_TURN_RAW,
    ensures
        w == (t * t) / (ONE_RAW as int),
        w <= 3 * ONE_RAW,
        t == 0 ==> w == 0,
{
    assert(t * t <= 2_500_000_000_000_000_000) by (nonlinear_arith)
        requires
            t <= 1_570_796_327,
    ;
    assert(t == 0 ==> t * t == 0) by (nonlinear_arith);
    let sq: u64 = t * t;
    let w: u64 = sq / (ONE_RAW as u64);
    assert(w <= 2_500_000_000) by (nonlinear_arith)
        requires
            sq <= 2_500_000_000_000_000_000,
            w == sq / 1_000_000_000,
    ;
    w
}

fn cos_of_quarter(t: u64) -> (c: u64)
    requires
        t < QUARTER_TURN_RAW,
    ensures
        c == quarter_cos(t as int),
        c <= ONE_RAW,
        t == 0 ==> c == ONE_RAW,
{
    let one: u64 = ONE_RAW as u64;
    let w: u64 = square_of_angle(t);
    let mut acc: u64 = one;
    let mut j: u64 = TRIG_TERMS;
    while j >= 1
        invariant
            0 <= j <= TRIG_TERMS,
            one == ONE_RAW,
            w <= 3 * ONE_RAW,
            acc == cos_series(w as int, j + 1),
            acc <= ONE_RAW,
            w == 0 ==> acc == ONE_RAW,
        decreases j,
    {
        assert(1 <= (2 * j - 1) * (2 * j) <= 240) by (nonlinear_arith)
            requires
                1 <= j <= 8,
        ;
        let d: u64 = (2 * j - 1) * (2 * j);
        proof {
            assert(d * 1_000_000_000 <= 240_000_000_000) by (nonlinear_arith)
                requires
                    d <= 240,
            ;
            lemma_series_step(w as int, acc as int, d as int);
        }
        assert(w == 0 ==> (w * acc) / (d * 1_000_000_000) == 0) by (nonlinear_arith)
            requires
                d >= 1,
        ;
        let term: u64 = (w * acc) / (d * one);
        acc = if term <= one { one - term } else { 0 };
        j = j - 1;
    }
    acc
}

fn sin_of_quarter(t: u64) -> (s: u64)
    requires
        t < QUARTER_TURN_RAW,
    ensures
        s == quarter_sin(t as int),
        s <= ONE_RAW,
        t == 0 ==> s == 0,
{
    let one: u64 = ONE_RAW as u64;
    let w: u64 = square_of_angle(t);
    let mut acc: u64 = one;
    let mut j: u64 = TRIG_TERMS;
    while j >= 1
        invariant
            0 <= j <= TRIG_TERMS,
            one == ONE_RAW,
            w <= 3 * ONE_RAW,
            acc == sin_series(w as int, j + 1),
            acc <= ONE_RAW,
        decreases j,
    {
        assert(1 <= (2 * j) * (2 * j + 1) <= 272) by (nonlinear_arith)
            requires
                1 <= j <= 8,
        ;
        let d: u64 = (2 * j) * (2 * j + 1);
        proof {
            assert(d * 1_000_000_000 <= 272_000_000_000) by (nonlinear_arith)
                requires
                    d <= 272,
            ;
            lemma_series_step(w as int, acc as int, d as int);
        }
        let term: u64 = (w * acc) / (d * one);
        acc = if term <= one { one - term } else { 0 };
        j = j - 1;
    }
    assert(t * acc <= 1_570_796_327_000_000_000) by (nonlinear_arith)
        requires
            t <= 1_570_796_327,
            acc <= 1_000_000_000,
    ;
    assert(t == 0 ==> (t * acc) / 1_000_000_000 == 0) by (nonlinear_arith);
    let s: u64 = (t * acc) / one;
    if s > one {
        one
    } else {
        s
    }
}

/// Cosine and sine of `a` billionths of a radian, each in billionths and
/// between minus one and one; one and zero at the angle zero.
pub fn cos_sin(a: u64) -> (r: (i64, i64))
    ensures
        r.0 == cos_raw(a as int),
        r.1 == sin_raw(a as int),
        -ONE_RAW <= r.0 <= ONE_RAW,
        -ONE_RAW <= r.1 <= ONE_RAW,
        a == 0 ==> r.0 == ONE_RAW && r.1 == 0,
{
    let turn: u64 = a % (FULL_TURN_RAW as u64);
    let q: u64 = turn / (QUARTER_TURN_RAW as u64);
    let t: u64 = turn % (QUARTER_TURN_RAW as u64);
    let c: i64 = cos_of_quarter(t) as i64;
    let s: i64 = sin_of_quarter(t) as i64;
    if q == 0 {
        (c, s)
    } else if q == 1 {
        (-s, c)
    } else if q == 2 {
        (-c, -s)
    } else {
        (s, -c)
    }
}

impl Scalar {
    /// The cosine: an even function of the angle.
    pub open spec fn cos_spec(self) -> Scalar {
        Scalar { raw: cos_raw(self.abs_spec()@) as i64 }
    }

    /// The sine: an odd function of the angle.
    pub open spec fn sin_spec(self) -> Scalar {
        if self@ < 0 {
            Scalar { raw: (-sin_raw(self.abs_spec()@)) as i64 }
        } else {
            Scalar { raw: sin_raw(self@) as i64 }
        }
    }

    /// The cosine of `self` radians.
    #[verifier::when_used_as_spec(cos_spec)]
    pub fn cos(self) -> (r: Scalar)
        ensures
            r == self.cos_spec(),
            -ONE_RAW <= r@ <= ONE_RAW,
    {
        let m = self.abs();
        let (c, _s) = cos_sin(m.raw as u64);
        Scalar { raw: c }
    }

    /// The sine of `self` radians.
    #[verifier::when_used_as_spec(sin_spec)]
    pub fn sin(self) -> (r: Scalar)
        ensures
            r == self.sin_spec(),
            -ONE_RAW <= r@ <= ONE_RAW,
    {
        let m = self.abs();
        let (_c, s) = cos_sin(m.raw as u64);
        if self.raw < 0 {
            Scalar { raw: -s }
        } else {
            Scalar { raw: s }
        }
    }
}

} // verus!
