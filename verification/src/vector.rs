//! Vectors of the plane.

use vstd::prelude::*;
use crate::roots::{int_sqrt, isqrt, lemma_int_sqrt_is_floor};
use crate::scalar::{scalar_of, Scalar};

verus! {

/// A point or a displacement of the plane: a value with no identity.
#[derive(Clone, Copy, Debug, PartialEq, Eq, Structural)]
pub struct Vector2D {
    pub x: Scalar,
    pub y: Scalar,
}

/// The sum of the squares of two raw coordinates.
pub open spec fn square_sum(x: int, y: int) -> nat {
    (x * x + y * y) as nat
}

proof fn lemma_square_bound(x: int)
    requires
        -0x8000_0000_0000_0000 <= x <= 0x8000_0000_0000_0000,
    ensures
        0 <= x * x <= 0x4000_0000_0000_0000_0000_0000_0000_0000,
{
    assert(0 <= x * x <= 0x4000_0000_0000_0000_0000_0000_0000_0000) by (nonlinear_arith)
        requires
            -0x8000_0000_0000_0000 <= x <= 0x8000_0000_0000_0000,
    ;
}

/// The floor of the square root of a sum of squares is zero exactly where
/// both terms are zero.
pub proof fn lemma_length_zero(x: int, y: int)
    ensures
        int_sqrt(square_sum(x, y)) == 0 <==> (x == 0 && y == 0),
{
    let n = square_sum(x, y);
    lemma_int_sqrt_is_floor(n);
    let r = int_sqrt(n);
    assert(x * x >= 0 && y * y >= 0 && ((x != 0) ==> x * x >= 1) && ((y != 0) ==> y * y >= 1)
        && ((x == 0) ==> x * x == 0) && ((y == 0) ==> y * y == 0)) by (nonlinear_arith);
    assert((r == 0) ==> (r + 1) * (r + 1) == 1) by (nonlinear_arith);
    assert((r != 0) ==> r * r >= 1) by (nonlinear_arith);
}

fn absolute(v: i64) -> (m: u128)
    ensures
        m == v || m == -v,
        m >= 0,
        m <= 0x8000_0000_0000_0000,
{
    if v < 0 {
        (-(v as i128)) as u128
    } else {
        v as u128
    }
}

impl Vector2D {
    pub open spec fn new_spec(x: Scalar, y: Scalar) -> Vector2D {
        Vector2D { x, y }
    }

    /// The length: the square root of `x² + y²`, rounded down to a
    /// billionth.
    pub open spec fn magnitude_spec(&self) -> Scalar {
        scalar_of(int_sqrt(square_sum(self.x@, self.y@)) as int)
    }

    pub open spec fn add_spec(self, rhs: Vector2D) -> Vector2D {
        Vector2D { x: self.x.add_spec(rhs.x), y: self.y.add_spec(rhs.y) }
    }

    pub open spec fn sub_spec(self, rhs: Vector2D) -> Vector2D {
        Vector2D { x: self.x.sub_spec(rhs.x), y: self.y.sub_spec(rhs.y) }
    }

    pub open spec fn mul_spec(self, k: Scalar) -> Vector2D {
        Vector2D { x: self.x.mul_spec(k), y: self.y.mul_spec(k) }
    }

    /// The length of the difference.
    pub open spec fn distance_spec(&self, other: &Vector2D) -> Scalar {
        self.sub_spec(*other).magnitude_spec()
    }

    /// The vector divided by its length; straight up, `(0, -1)`, for a
    /// vector of length zero.
    pub open spec fn normalize_spec(&self) -> Vector2D {
        let mag = self.magnitude_spec();
        if mag@ > 0 {
            Vector2D { x: self.x.div_spec(mag), y: self.y.div_spec(mag) }
        } else {
            Vector2D { x: Scalar::zero_spec(), y: Scalar::one_spec().neg_spec() }
        }
    }

    /// The vector of length one at `angle` radians from the first axis.
    pub open spec fn from_angle_spec(angle: Scalar) -> Vector2D {
        Vector2D { x: angle.cos_spec(), y: angle.sin_spec() }
    }

    #[verifier::when_used_as_spec(new_spec)]
    pub fn new(x: Scalar, y: Scalar) -> (r: Vector2D)
        ensures
            r == Vector2D::new_spec(x, y),
    {
        Vector2D { x, y }
    }

    #[verifier::when_used_as_spec(magnitude_spec)]
    pub fn magnitude(&self) -> (r: Scalar)
        ensures
            r == self.magnitude_spec(),
            r@ >= 0,
            r@ == 0 <==> (self.x@ == 0 && self.y@ == 0),
    {
        let ax: u128 = absolute(self.x.raw);
        let ay: u128 = absolute(self.y.raw);
        proof {
            lemma_square_bound(self.x@);
            lemma_square_bound(self.y@);
            assert(ax * ax == self.x@ * self.x@) by (nonlinear_arith)
                requires
                    ax == self.x@ || ax == -self.x@,
            ;
            assert(ay * ay == self.y@ * self.y@) by (nonlinear_arith)
                requires
                    ay == self.y@ || ay == -self.y@,
            ;
            lemma_length_zero(self.x@, self.y@);
        }
        let root: u128 = isqrt(ax * ax + ay * ay);
        if root > i64::MAX as u128 {
            Scalar { raw: i64::MAX }
        } else {
            Scalar { raw: root as i64 }
        }
    }

    #[verifier::when_used_as_spec(distance_spec)]
    pub fn distance(&self, other: &Vector2D) -> (r: Scalar)
        ensures
            r == self.distance_spec(other),
            r@ >= 0,
    {
        self.sub(*other).magnitude()
    }

    #[verifier::when_used_as_spec(normalize_spec)]
    pub fn normalize(&self) -> (r: Vector2D)
        ensures
            r == self.normalize_spec(),
            (self.x@ == 0 && self.y@ == 0) ==> (r.x@ == 0 && r.y@ == -crate::scalar::ONE_RAW),
    {
        let mag = self.magnitude();
        if mag.raw > 0 {
            Vector2D { x: self.x.div(mag), y: self.y.div(mag) }
        } else {
            Vector2D { x: Scalar::zero(), y: Scalar::one().neg() }
        }
    }

    /// Component-wise sum.
    #[verifier::when_used_as_spec(add_spec)]
    pub fn add(self, rhs: Vector2D) -> (r: Vector2D)
        ensures
            r == self.add_spec(rhs),
    {
        Vector2D { x: self.x.add(rhs.x), y: self.y.add(rhs.y) }
    }

    /// Component-wise difference.
    #[verifier::when_used_as_spec(sub_spec)]
    pub fn sub(self, rhs: Vector2D) -> (r: Vector2D)
        ensures
            r == self.sub_spec(rhs),
    {
        Vector2D { x: self.x.sub(rhs.x), y: self.y.sub(rhs.y) }
    }

    /// Each component times `k`.
    #[verifier::when_used_as_spec(mul_spec)]
    pub fn mul(self, k: Scalar) -> (r: Vector2D)
        ensures
            r == self.mul_spec(k),
    {
        Vector2D { x: self.x.mul(k), y: self.y.mul(k) }
    }

    #[verifier::when_used_as_spec(from_angle_spec)]
    pub fn from_angle(angle: Scalar) -> (r: Vector2D)
        ensures
            r == Vector2D::from_angle_spec(angle),
    {
        Vector2D { x: angle.cos(), y: angle.sin() }
    }
}

} // verus!
