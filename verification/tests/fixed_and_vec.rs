use rt_one_weekend::fixed::{
    fp_abs, fp_add, fp_div, fp_from_int, fp_mul, fp_neg, fp_sqrt, fp_sub, isqrt, FP_MAX, SCALE,
};
use rt_one_weekend::vec3::{cross, dot, Vec3};

#[test]
fn fixed_point_arithmetic_exact_values() {
    // 2.0 * 1.5 == 3.0
    assert_eq!(fp_mul(2 * SCALE, 98304), 196608);
    // 1.0 / 2.0 == 0.5
    assert_eq!(fp_div(SCALE, 2 * SCALE), 32768);
    // -3.0 / 2.0 == -1.5, rounding toward zero
    assert_eq!(fp_div(fp_from_int(-3), fp_from_int(2)), -98304);
    assert_eq!(fp_add(SCALE, SCALE), 2 * SCALE);
    assert_eq!(fp_sub(SCALE, 3 * SCALE), -2 * SCALE);
    assert_eq!(fp_neg(5), -5);
    assert_eq!(fp_abs(-7 * SCALE), 7 * SCALE);
    assert_eq!(fp_from_int(3), 3 * SCALE);
}

#[test]
fn fixed_point_saturates() {
    assert_eq!(fp_add(FP_MAX, FP_MAX), FP_MAX);
    assert_eq!(fp_sub(-FP_MAX, FP_MAX), -FP_MAX);
    assert_eq!(fp_mul(FP_MAX, FP_MAX), FP_MAX);
    assert_eq!(fp_mul(-FP_MAX, FP_MAX), -FP_MAX);
}

#[test]
fn integer_square_roots() {
    assert_eq!(isqrt(0), 0);
    assert_eq!(isqrt(1), 1);
    assert_eq!(isqrt(3), 1);
    assert_eq!(isqrt(4), 2);
    assert_eq!(isqrt(99), 9);
    assert_eq!(isqrt(1 << 80), 1 << 40);
    assert_eq!(fp_sqrt(4 * SCALE), 2 * SCALE);
    // sqrt(2) in fixed point
    assert_eq!(fp_sqrt(2 * SCALE), 92681);
}

#[test]
fn vector_algebra_exact_values() {
    let a = Vec3::new(3 * SCALE, 4 * SCALE, 0);
    let b = Vec3::new(SCALE, -SCALE, 2 * SCALE);
    assert_eq!(a.add(&b), Vec3::new(4 * SCALE, 3 * SCALE, 2 * SCALE));
    assert_eq!(a.sub(&b), Vec3::new(2 * SCALE, 5 * SCALE, -2 * SCALE));
    assert_eq!(a.neg(), Vec3::new(-3 * SCALE, -4 * SCALE, 0));
    assert_eq!(a.mul(&b), Vec3::new(3 * SCALE, -4 * SCALE, 0));
    assert_eq!(a.scale(2 * SCALE), Vec3::new(6 * SCALE, 8 * SCALE, 0));
    assert_eq!(a.div(2 * SCALE), Vec3::new(98304, 2 * SCALE, 0));
    assert_eq!(dot(&a, &b), -SCALE);
    // unit axes cross like a right-handed basis
    let x = Vec3::new(SCALE, 0, 0);
    let y = Vec3::new(0, SCALE, 0);
    let z = Vec3::new(0, 0, SCALE);
    assert_eq!(cross(&x, &y), z);
    assert_eq!(cross(&y, &z), x);
}

#[test]
fn three_four_five_triangle() {
    let a = Vec3::new(3 * SCALE, 4 * SCALE, 0);
    assert_eq!(a.length_squared(), 25 * SCALE);
    assert_eq!(a.length(), 5 * SCALE);
    assert_eq!(a.unit_vector(), Vec3::new(39321, 52428, 0));
}

#[test]
fn near_zero_is_exact_zero() {
    assert!(Vec3::new(0, 0, 0).near_zero());
    assert!(!Vec3::new(1, 0, 0).near_zero());
    assert!(!Vec3::new(0, 0, -1).near_zero());
}

#[test]
fn reflection_about_unit_normal_keeps_length() {
    // v = (1, -1, 0) against the floor normal (0, 1, 0): bounces to (1, 1, 0)
    let v = Vec3::new(SCALE, -SCALE, 0);
    let n = Vec3::new(0, SCALE, 0);
    let r = v.reflect(&n);
    assert_eq!(r, Vec3::new(SCALE, SCALE, 0));
    assert_eq!(r.length_squared(), v.length_squared());
    assert_eq!(r.length(), v.length());
}

#[test]
fn refraction_straight_through_at_normal_incidence() {
    // index 1.0: the direction passes through unchanged (up to rounding)
    let v = Vec3::new(0, 0, -SCALE);
    let n = Vec3::new(0, 0, SCALE);
    let r = v.refract(&n, SCALE);
    assert_eq!(r.x, 0);
    assert_eq!(r.y, 0);
    assert!((r.z + SCALE).abs() <= 2, "refract at normal incidence: {:?}", r);
}

#[test]
fn colour_quantisation() {
    // (0.5, 1.0, -0.2): clamped, then floor(channel * 255.9999)
    let c = Vec3::new(32768, SCALE, -13107);
    assert_eq!(c.to_rgb(), [127, 255, 0]);
    // gamma: 0.25 -> sqrt -> 0.5 -> floor(0.5 * 255.9999) == 127
    let g = Vec3::new(16384, SCALE, 0);
    assert_eq!(g.to_rgb_gamma_corrected(), [127, 255, 0]);
    assert_eq!(c.r(), 32768);
    assert_eq!(c.g(), SCALE);
    assert_eq!(c.b(), -13107);
}
