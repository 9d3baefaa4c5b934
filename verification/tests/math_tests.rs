//! Tests for the fixed-point scalar, vector, color and angle layers.

use rustedrays::angle::Angle;
use rustedrays::color::Color;
use rustedrays::fixed::{fp_add, fp_div, fp_mul, fp_sqrt, fp_sub, solve_quadratic, SAT_MAX, SCALE};
use rustedrays::vec3::Vec3;

#[test]
fn fixed_point_ops_exact() {
    // 1.5 * 2 == 3
    assert_eq!(fp_mul(98304, 131072), 196608);
    // (-3) / 2 == -1.5
    assert_eq!(fp_div(-196608, 131072), -98304);
    assert_eq!(fp_add(SCALE, SCALE), 2 * SCALE);
    assert_eq!(fp_sub(SCALE, 3 * SCALE), -2 * SCALE);
    // saturation instead of overflow
    assert_eq!(fp_mul(SAT_MAX, SAT_MAX), SAT_MAX);
    assert_eq!(fp_add(SAT_MAX, SAT_MAX), SAT_MAX);
    assert_eq!(fp_sub(-SAT_MAX, SAT_MAX), -SAT_MAX);
}

#[test]
fn sqrt_exact_squares() {
    assert_eq!(fp_sqrt(0), 0);
    assert_eq!(fp_sqrt(SCALE), SCALE);
    assert_eq!(fp_sqrt(4 * SCALE), 2 * SCALE);
    assert_eq!(fp_sqrt(25 * SCALE), 5 * SCALE);
    // sqrt(2) == 1.41421..., raw floor value 92681
    assert_eq!(fp_sqrt(2 * SCALE), 92681);
}

#[test]
fn quadratic_example_roots() {
    // t^2 - 4 == 0 has roots -2 and 2, reported in ascending order
    let r = solve_quadratic(SCALE, 0, -4 * SCALE);
    assert_eq!(r, Some((-2 * SCALE, 2 * SCALE)));
}

#[test]
fn quadratic_ordered_roots() {
    // a selection of solvable quadratics: first root never exceeds second
    let cases = [
        (SCALE, 0, -4 * SCALE),
        (SCALE, 3 * SCALE, 2 * SCALE),
        (SCALE, -5 * SCALE, 6 * SCALE),
        (2 * SCALE, -SCALE, -SCALE),
        (SCALE, 123456, -654321),
    ];
    for (a, b, c) in cases {
        if let Some((x, y)) = solve_quadratic(a, b, c) {
            assert!(x <= y, "roots out of order for ({a}, {b}, {c})");
        }
    }
}

#[test]
fn quadratic_negative_discriminant() {
    // t^2 + 1 == 0 has no real roots
    assert_eq!(solve_quadratic(SCALE, 0, SCALE), None);
    // t^2 + t + 1 == 0 has no real roots
    assert_eq!(solve_quadratic(SCALE, SCALE, SCALE), None);
}

#[test]
fn vector_algebra_exact() {
    let a = Vec3 { x: SCALE, y: 2 * SCALE, z: 3 * SCALE };
    let b = Vec3 { x: 4 * SCALE, y: 5 * SCALE, z: 6 * SCALE };
    assert_eq!(a.add(&b), Vec3 { x: 5 * SCALE, y: 7 * SCALE, z: 9 * SCALE });
    assert_eq!(b.sub(&a), Vec3 { x: 3 * SCALE, y: 3 * SCALE, z: 3 * SCALE });
    assert_eq!(a.scale(2 * SCALE), Vec3 { x: 2 * SCALE, y: 4 * SCALE, z: 6 * SCALE });
    // 1*4 + 2*5 + 3*6 == 32
    assert_eq!(a.dot(&b), 32 * SCALE);
    let ex = Vec3 { x: SCALE, y: 0, z: 0 };
    let ey = Vec3 { x: 0, y: SCALE, z: 0 };
    assert_eq!(ex.cross(&ey), Vec3 { x: 0, y: 0, z: SCALE });
}

#[test]
fn vector_norm_and_unit() {
    let v = Vec3 { x: 3 * SCALE, y: 4 * SCALE, z: 0 };
    assert_eq!(v.norm(), 5 * SCALE);
    // 3/5 and 4/5, rounded toward zero
    assert_eq!(v.unit(), Vec3 { x: 39321, y: 52428, z: 0 });
    let axis = Vec3 { x: 0, y: 0, z: -SCALE };
    assert_eq!(axis.norm(), SCALE);
    assert_eq!(axis.unit(), axis);
}

#[test]
fn color_ops_exact() {
    let red = Color::red();
    let gray = Color::gray(SCALE / 2);
    assert_eq!(Color::rgb(7, 8, 9), Color { red: 7, green: 8, blue: 9 });
    assert_eq!(Color::black(), Color::rgb(0, 0, 0));
    assert_eq!(Color::white(), Color::rgb(SCALE, SCALE, SCALE));
    assert_eq!(red.add(&gray), Color::rgb(SCALE + SCALE / 2, SCALE / 2, SCALE / 2));
    assert_eq!(gray.scale(2 * SCALE), Color::gray(SCALE));
    assert_eq!(red.tint(&gray), Color::rgb(SCALE / 2, 0, 0));
    // intermediate channel sums may exceed one
    assert_eq!(Color::white().add(&Color::white()), Color::gray(2 * SCALE));
}

#[test]
fn angle_units() {
    // a tagged angle reads back exactly in its own unit
    assert_eq!(Angle::from_degrees(45 * SCALE).deg(), 45 * SCALE);
    assert_eq!(Angle::from_radians(12345).rad(), 12345);
    // 45 degrees is pi/4: 45 * 205887 / 180 rounded toward zero
    assert_eq!(Angle::from_degrees(45 * SCALE).rad(), 51471);
    // 180 degrees is pi in fixed point
    assert_eq!(Angle::from_degrees(180 * SCALE).rad(), 205887);
    // pi radians reads back as just under 180 degrees after rounding
    let d = Angle::from_radians(205887).deg();
    assert!((d - 180 * SCALE).abs() <= 2);
}
