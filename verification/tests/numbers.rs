use cspace::roots::isqrt;
use cspace::scalar::{Scalar, ONE_RAW};
use cspace::trig::{cos_sin, FULL_TURN_RAW, QUARTER_TURN_RAW};
use cspace::vector::Vector2D;

fn s(x: f64) -> Scalar {
    Scalar::from_raw((x * 1e9).round() as i64)
}

fn f(x: Scalar) -> f64 {
    x.raw() as f64 / 1e9
}

#[test]
fn scalar_from_int_counts_billionths() {
    assert_eq!(Scalar::from_int(3).raw(), 3_000_000_000);
    assert_eq!(Scalar::from_int(-2).raw(), -2_000_000_000);
    assert_eq!(Scalar::one().raw(), ONE_RAW);
    assert_eq!(Scalar::zero().raw(), 0);
}

#[test]
fn scalar_from_int_saturates() {
    assert_eq!(Scalar::from_int(i64::MAX).raw(), i64::MAX);
    assert_eq!(Scalar::from_int(i64::MIN).raw(), i64::MIN);
}

#[test]
fn scalar_add_and_sub_are_exact_and_saturate() {
    assert_eq!(s(0.3).add(s(1.5)), s(1.8));
    assert_eq!(s(0.3).sub(s(1.5)), s(-1.2));
    assert_eq!(Scalar::from_raw(i64::MAX).add(Scalar::from_raw(1)).raw(), i64::MAX);
    assert_eq!(Scalar::from_raw(i64::MIN).sub(Scalar::from_raw(1)).raw(), i64::MIN);
}

#[test]
fn scalar_mul_rounds_toward_zero() {
    assert_eq!(s(1.5).mul(s(2.0)), s(3.0));
    assert_eq!(s(0.9).mul(s(0.9)), s(0.81));
    assert_eq!(Scalar::from_raw(1).mul(s(0.5)).raw(), 0);
    assert_eq!(Scalar::from_raw(-1).mul(s(0.5)).raw(), 0);
    assert_eq!(Scalar::from_raw(-3).mul(s(0.5)).raw(), -1);
    assert_eq!(s(-2.0).mul(s(3.0)), s(-6.0));
}

#[test]
fn scalar_mul_saturates() {
    let big = Scalar::from_raw(i64::MAX);
    assert_eq!(big.mul(big).raw(), i64::MAX);
    assert_eq!(big.mul(Scalar::from_raw(i64::MIN)).raw(), i64::MIN);
}

#[test]
fn scalar_div_rounds_toward_zero() {
    assert_eq!(s(3.0).div(s(5.0)), s(0.6));
    assert_eq!(s(1.0).div(s(3.0)).raw(), 333_333_333);
    assert_eq!(s(-1.0).div(s(3.0)).raw(), -333_333_333);
    assert_eq!(s(1.0).div(s(-3.0)).raw(), -333_333_333);
    assert_eq!(s(-1.0).div(s(-3.0)).raw(), 333_333_333);
}

#[test]
fn scalar_div_by_zero_is_pinned() {
    assert_eq!(s(1.0).div(Scalar::zero()).raw(), i64::MAX);
    assert_eq!(s(-1.0).div(Scalar::zero()).raw(), i64::MIN);
    assert_eq!(Scalar::zero().div(Scalar::zero()).raw(), 0);
}

#[test]
fn scalar_div_by_epsilon_saturates_only_when_large() {
    let eps = Scalar::from_raw(1);
    assert_eq!(s(1.0).div(eps).raw(), 1_000_000_000_000_000_000);
    assert_eq!(s(10.0).div(eps).raw(), i64::MAX);
}

#[test]
fn scalar_neg_abs_signum() {
    assert_eq!(s(2.5).neg(), s(-2.5));
    assert_eq!(Scalar::from_raw(i64::MIN).neg().raw(), i64::MAX);
    assert_eq!(s(-2.5).abs(), s(2.5));
    assert_eq!(Scalar::from_raw(i64::MIN).abs().raw(), i64::MAX);
    assert_eq!(s(0.3).signum(), s(1.0));
    assert_eq!(s(-0.3).signum(), s(-1.0));
    assert_eq!(Scalar::zero().signum(), Scalar::zero());
}

#[test]
fn scalar_order_and_clamp() {
    assert!(s(0.1).lt(s(0.2)));
    assert!(!s(0.2).lt(s(0.2)));
    assert!(s(0.2).le(s(0.2)));
    assert!(s(0.3).gt(s(0.2)));
    assert!(s(0.2).ge(s(0.2)));
    assert_eq!(s(0.1).min(s(0.2)), s(0.1));
    assert_eq!(s(0.1).max(s(0.2)), s(0.2));
    assert_eq!(s(1.8).clamp(s(0.1), s(1.5)), s(1.5));
    assert_eq!(s(0.05).clamp(s(0.1), s(1.5)), s(0.1));
    assert_eq!(s(0.7).clamp(s(0.1), s(1.5)), s(0.7));
}

#[test]
fn isqrt_is_the_floor_of_the_root() {
    assert_eq!(isqrt(0), 0);
    assert_eq!(isqrt(1), 1);
    assert_eq!(isqrt(3), 1);
    assert_eq!(isqrt(4), 2);
    assert_eq!(isqrt(24), 4);
    assert_eq!(isqrt(25), 5);
    assert_eq!(isqrt(1_000_000_000_000_000_000), 1_000_000_000);
    assert_eq!(isqrt(u128::MAX), u64::MAX as u128);
    let mut n: u128 = 0;
    while n < 5000 {
        let r = isqrt(n);
        assert!(r * r <= n && n < (r + 1) * (r + 1));
        n += 1;
    }
}

#[test]
fn exp_of_zero_is_one() {
    assert_eq!(Scalar::zero().exp(), Scalar::one());
}

#[test]
fn exp_matches_the_real_function() {
    let mut x = -25.0;
    while x <= 20.0 {
        let got = f(s(x).exp());
        let want = x.exp();
        let tolerance = 1e-8 + want * 4e-8;
        assert!((got - want).abs() <= tolerance, "exp({}) = {} but got {}", x, want, got);
        x += 0.0371;
    }
}

#[test]
fn exp_vanishes_far_below_zero_and_saturates_far_above() {
    assert_eq!(s(-250.0).exp().raw(), 0);
    assert_eq!(s(-22.5).exp().raw(), 0);
    assert_eq!(Scalar::from_raw(i64::MIN).exp().raw(), 0);
    assert_eq!(s(30.0).exp().raw(), i64::MAX);
    assert_eq!(Scalar::from_raw(i64::MAX).exp().raw(), i64::MAX);
}

#[test]
fn ln_of_one_is_zero() {
    assert_eq!(Scalar::one().ln(), Scalar::zero());
}

#[test]
fn ln_matches_the_real_function() {
    let mut x = 0.001;
    while x <= 5000.0 {
        let got = f(s(x).ln());
        let want = ((x * 1e9).round() / 1e9).ln();
        assert!((got - want).abs() <= 2e-8 + 1e-9 / x, "ln({}) = {} but got {}", x, want, got);
        x *= 1.0173;
    }
}

#[test]
fn ln_of_epsilon_and_below() {
    let got = f(Scalar::from_raw(1).ln());
    assert!((got - (1e-9f64).ln()).abs() < 1e-7);
    assert_eq!(Scalar::zero().ln().raw(), i64::MIN);
    assert_eq!(s(-1.0).ln().raw(), i64::MIN);
}

#[test]
fn tanh_matches_the_real_function() {
    assert_eq!(Scalar::zero().tanh(), Scalar::zero());
    let mut x = -12.0;
    while x <= 12.0 {
        let got = f(s(x).tanh());
        let want = x.tanh();
        assert!((got - want).abs() <= 1e-8, "tanh({}) = {} but got {}", x, want, got);
        x += 0.0173;
    }
    assert_eq!(s(40.0).tanh(), Scalar::one());
    assert_eq!(s(-40.0).tanh(), s(-1.0));
}

#[test]
fn cos_and_sin_match_the_real_functions() {
    let mut a: u64 = 0;
    while a < 2 * FULL_TURN_RAW as u64 {
        let (c, sn) = cos_sin(a);
        let angle = a as f64 / 1e9;
        assert!((c as f64 / 1e9 - angle.cos()).abs() <= 1e-8, "cos({})", angle);
        assert!((sn as f64 / 1e9 - angle.sin()).abs() <= 1e-8, "sin({})", angle);
        a += 7_919_333;
    }
}

#[test]
fn cos_and_sin_at_the_axes() {
    assert_eq!(cos_sin(0), (ONE_RAW, 0));
    let (c, sn) = cos_sin(QUARTER_TURN_RAW as u64);
    assert_eq!((c, sn), (0, ONE_RAW));
    let (c, sn) = cos_sin(2 * QUARTER_TURN_RAW as u64);
    assert_eq!((c, sn), (-ONE_RAW, 0));
    let (c, sn) = cos_sin(3 * QUARTER_TURN_RAW as u64);
    assert_eq!((c, sn), (0, -ONE_RAW));
    assert_eq!(cos_sin(FULL_TURN_RAW as u64), (ONE_RAW, 0));
}

#[test]
fn cos_is_even_and_sin_is_odd() {
    let a = s(1.1);
    assert_eq!(a.neg().cos(), a.cos());
    assert_eq!(a.neg().sin(), a.sin().neg());
    assert!((f(a.cos()) - 1.1f64.cos()).abs() < 1e-8);
    assert!((f(a.sin()) - 1.1f64.sin()).abs() < 1e-8);
}

#[test]
fn normalize_zero_vector_points_up() {
    let v = Vector2D::new(Scalar::zero(), Scalar::zero()).normalize();
    assert_eq!(v, Vector2D::new(Scalar::zero(), s(-1.0)));
}

#[test]
fn normalize_three_four() {
    let v = Vector2D::new(s(3.0), s(4.0)).normalize();
    assert_eq!(v, Vector2D::new(s(0.6), s(0.8)));
}

#[test]
fn magnitude_and_distance() {
    assert_eq!(Vector2D::new(s(3.0), s(4.0)).magnitude(), s(5.0));
    assert_eq!(Vector2D::new(s(-3.0), s(4.0)).magnitude(), s(5.0));
    assert_eq!(Vector2D::new(Scalar::from_raw(1), Scalar::zero()).magnitude().raw(), 1);
    assert_eq!(Vector2D::new(Scalar::from_raw(1), Scalar::from_raw(1)).magnitude().raw(), 1);
    let a = Vector2D::new(s(400.0), s(500.0));
    let b = Vector2D::new(s(400.0), s(0.0));
    assert_eq!(a.distance(&b), s(500.0));
    assert_eq!(b.distance(&a), s(500.0));
    let far = Vector2D::new(Scalar::from_raw(i64::MAX), Scalar::from_raw(i64::MAX));
    assert_eq!(far.magnitude().raw(), i64::MAX);
}

#[test]
fn vector_arithmetic_is_component_wise() {
    let a = Vector2D::new(s(1.0), s(2.0));
    let b = Vector2D::new(s(0.5), s(-4.0));
    assert_eq!(a.add(b), Vector2D::new(s(1.5), s(-2.0)));
    assert_eq!(a.sub(b), Vector2D::new(s(0.5), s(6.0)));
    assert_eq!(a.mul(s(3.0)), Vector2D::new(s(3.0), s(6.0)));
}

#[test]
fn from_angle_is_a_unit_vector() {
    let mut a = 0.0;
    while a < 6.28 {
        let v = Vector2D::from_angle(s(a));
        let len = f(v.magnitude());
        assert!((len - 1.0).abs() < 1e-8);
        a += 0.05;
    }
}
