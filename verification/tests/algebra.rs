//! Scalar and vector algebra checks on concrete values.

use vectors::fixed::{fxadd, fxdiv, fxmul, fxneg, fxsqrt, fxsub, FIX_MAX, ONE};
use vectors::interval::Interval;
use vectors::utils::Sampler;
use vectors::utils::{random_double, random_double_with_range};
use vectors::vec3::{linear_to_gamma, near_zero, random_unit_vector, reflect, refract, Vec3};

#[test]
fn fixed_point_products_and_quotients() {
    assert_eq!(fxmul(2 * ONE, 3 * ONE), 6 * ONE);
    assert_eq!(fxmul(ONE / 2, ONE / 2), ONE / 4);
    assert_eq!(fxmul(1, 1), 0, "sub-unit products truncate toward zero");
    assert_eq!(fxmul(-2 * ONE, 3 * ONE), -6 * ONE);
    assert_eq!(fxdiv(ONE, 2 * ONE), ONE / 2);
    assert_eq!(fxdiv(-3 * ONE, 2 * ONE), -(3 * ONE) / 2);
    assert_eq!(fxdiv(ONE, 0), 0, "division by zero collapses to zero");
    assert_eq!(fxadd(FIX_MAX, FIX_MAX), FIX_MAX, "sums saturate");
    assert_eq!(fxsub(-FIX_MAX, FIX_MAX), -FIX_MAX, "differences saturate");
    assert_eq!(fxneg(i64::MIN), FIX_MAX);
    assert_eq!(fxsqrt(4 * ONE), 2 * ONE);
    assert_eq!(fxsqrt(ONE / 4), ONE / 2);
    assert_eq!(fxsqrt(-ONE), 0);
}

#[test]
fn vector_arithmetic_is_componentwise() {
    let a = Vec3(ONE, 2 * ONE, 3 * ONE);
    let b = Vec3(4 * ONE, 5 * ONE, 6 * ONE);
    assert_eq!(a.add(b), Vec3(5 * ONE, 7 * ONE, 9 * ONE));
    assert_eq!(b.sub(a), Vec3(3 * ONE, 3 * ONE, 3 * ONE));
    assert_eq!(a.mul(b), Vec3(4 * ONE, 10 * ONE, 18 * ONE));
    assert_eq!(a.scale(2 * ONE), Vec3(2 * ONE, 4 * ONE, 6 * ONE));
    assert_eq!(b.div(a), Vec3(4 * ONE, (5 * ONE) / 2, 2 * ONE));
    assert_eq!(a.div_scalar(2 * ONE), Vec3(ONE / 2, ONE, (3 * ONE) / 2));
    assert_eq!(a.neg(), Vec3(-ONE, -2 * ONE, -3 * ONE));
    assert_eq!(a.dot(b), 32 * ONE);
    assert_eq!(Vec3(ONE, 0, 0).cross(Vec3(0, ONE, 0)), Vec3(0, 0, ONE));
    let mut c = a;
    c.add_assign(b);
    assert_eq!(c, Vec3(5 * ONE, 7 * ONE, 9 * ONE));
    c.sub_assign(b);
    assert_eq!(c, a);
    c.mul_assign(2 * ONE);
    assert_eq!(c, Vec3(2 * ONE, 4 * ONE, 6 * ONE));
    c.div_assign(2 * ONE);
    assert_eq!(c, a);
}

#[test]
fn unit_vector_has_unit_length_within_tolerance() {
    let cases = [
        Vec3(3 * ONE, 4 * ONE, 0),
        Vec3(ONE, ONE, ONE),
        Vec3(-7 * ONE, 2 * ONE, 5 * ONE),
        Vec3(ONE / 2, 0, 0),
        Vec3(100 * ONE, -50 * ONE, 25 * ONE),
    ];
    for v in cases {
        let u = v.unit_vector();
        let len = u.length();
        assert!(
            (len - ONE).abs() <= 256,
            "length of unit vector was {} raw units",
            len
        );
    }
    assert_eq!(Vec3(ONE / 2, 0, 0).unit_vector(), Vec3(ONE, 0, 0));
    assert_eq!(Vec3(3 * ONE, 4 * ONE, 0).length(), 5 * ONE);
    assert_eq!(Vec3(3 * ONE, 4 * ONE, 0).length_squared(), 25 * ONE);
}

#[test]
fn reflect_reverses_the_normal_component() {
    let v = Vec3(ONE, -ONE, 0);
    let n = Vec3(0, ONE, 0);
    let r = reflect(v, n);
    assert_eq!(r, Vec3(ONE, ONE, 0));
    assert_eq!(r.dot(n), -v.dot(n));
}

#[test]
fn refract_head_on_passes_straight_through() {
    let uv = Vec3(0, 0, -ONE);
    let n = Vec3(0, 0, ONE);
    let r = refract(uv, n, fxdiv(ONE, (3 * ONE) / 2));
    assert_eq!(r, Vec3(0, 0, -ONE));
}

#[test]
fn near_zero_accepts_only_the_zero_vector() {
    assert!(near_zero(Vec3(0, 0, 0)));
    assert!(!near_zero(Vec3(1, 0, 0)));
    assert!(!near_zero(Vec3(0, 0, -1)));
}

#[test]
fn interval_membership_and_clamp() {
    let i = Interval::new(-ONE, ONE);
    assert_eq!(i.size(), 2 * ONE);
    assert!(i.contains(-ONE) && i.contains(ONE) && i.contains(0));
    assert!(!i.contains(ONE + 1));
    assert!(i.surrounds(0));
    assert!(!i.surrounds(-ONE) && !i.surrounds(ONE), "surrounds is open");
    assert_eq!(i.clamp(2 * ONE), ONE);
    assert_eq!(i.clamp(-2 * ONE), -ONE);
    assert_eq!(i.clamp(123), 123);
}

#[test]
fn interval_clamp_is_idempotent() {
    let i = Interval::new(-ONE, ONE);
    for x in [-3 * ONE, -ONE, -17, 0, 1, ONE, 5 * ONE] {
        assert_eq!(i.clamp(i.clamp(x)), i.clamp(x));
    }
}

#[test]
fn interval_sentinels_compose() {
    let empty = Interval::empty();
    let universe = Interval::universe();
    assert!(!empty.contains(0) && !empty.surrounds(0));
    assert!(universe.contains(0) && universe.contains(FIX_MAX) && universe.contains(-FIX_MAX));
    let d = Interval::default();
    assert_eq!(d.min, universe.min);
    assert_eq!(d.max, universe.max);
}

#[test]
fn gamma_and_display_bytes() {
    assert_eq!(linear_to_gamma(ONE), ONE);
    assert_eq!(linear_to_gamma(ONE / 4), ONE / 2);
    assert_eq!(linear_to_gamma(-ONE), 0);
    assert_eq!(Vec3(ONE, ONE, ONE).get_color(), (255, 255, 255));
    assert_eq!(Vec3(0, 0, 0).get_color(), (0, 0, 0));
    assert_eq!(Vec3(-ONE, 0, 0).get_color().0, 0);
    // 0.25 linear is 0.5 after gamma, and floor(0.5 * 255.999) = 127
    assert_eq!(Vec3(ONE / 4, 0, 0).get_color().0, 127);
    // values above one clamp to full intensity
    assert_eq!(Vec3(9 * ONE, 0, 0).get_color().0, 255);
}

#[test]
fn random_draws_stay_in_range() {
    let mut s = Sampler::system();
    for _ in 0..200 {
        let d = random_double(&mut s);
        assert!((0..ONE).contains(&d));
        let r = random_double_with_range(&mut s, -ONE, ONE);
        assert!((-ONE..=ONE).contains(&r));
    }
}

#[test]
fn cycle_sampler_replays_its_values() {
    let mut s = Sampler::cycle(vec![1, 2, 3]);
    assert_eq!(s.next_unit(), 1);
    assert_eq!(s.next_unit(), 2);
    assert_eq!(s.next_unit(), 3);
    assert_eq!(s.next_unit(), 1);
    let mut odd = Sampler::cycle(vec![-5, ONE + 3]);
    assert_eq!(odd.next_unit(), 0, "out-of-range values read as zero");
    assert_eq!(odd.next_unit(), 0);
}

#[test]
fn random_unit_vector_is_unit_within_tolerance() {
    let mut s = Sampler::system();
    for _ in 0..50 {
        let u = random_unit_vector(&mut s);
        assert!((u.length() - ONE).abs() <= 256);
    }
}
