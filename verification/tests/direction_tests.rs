use gamepad_tool::direction::Direction;
use gamepad_tool::math::{isqrt64, stick_radius};

/// Fixed-point radians: 10^-9 rad units.
fn fixed(rad: f64) -> i64 {
    (rad * 1_000_000_000.0) as i64
}

#[test]
fn quantize_zero_angle() {
    let d = Direction::new(0, 0);
    assert_eq!(d.int_part, 0);
    assert_eq!(d.frac_part, 0);
    assert_eq!(d.precision, 0);
}

#[test]
fn quantize_truncates_toward_zero() {
    // 2.25 rad: integer part 2; fractional 0.25 rounds to 0 at precision 0.
    let d = Direction::new(fixed(2.25), 0);
    assert_eq!(d.int_part, 2);
    assert_eq!(d.frac_part, 0);
    // -2.25 rad: integer part -2 (truncation, not floor).
    let d = Direction::new(fixed(-2.25), 0);
    assert_eq!(d.int_part, -2);
    assert_eq!(d.frac_part, 0);
}

#[test]
fn quantize_rounds_half_away_from_zero() {
    // |fract| = 0.5 rounds up to 1 at precision 0, for either sign.
    let d = Direction::new(1_500_000_000, 0);
    assert_eq!((d.int_part, d.frac_part), (1, 1));
    let d = Direction::new(-1_500_000_000, 0);
    assert_eq!((d.int_part, d.frac_part), (-1, 1));
}

#[test]
fn quantize_at_higher_precision() {
    // 1.23456789 rad at two decimal digits: 23.456789 rounds to 23.
    let d = Direction::new(1_234_567_890, 2);
    assert_eq!((d.int_part, d.frac_part, d.precision), (1, 23, 2));
    // At three digits: 234.56789 rounds to 235.
    let d = Direction::new(1_234_567_890, 3);
    assert_eq!((d.int_part, d.frac_part, d.precision), (1, 235, 3));
}

#[test]
fn quantize_is_deterministic_and_buckets_coarsely() {
    let a = Direction::new(fixed(0.2), 0);
    let b = Direction::new(fixed(0.2), 0);
    assert_eq!(a, b);
    // Two angles in the same integer-radian sector share a bucket.
    let c = Direction::new(fixed(0.4), 0);
    assert_eq!(a, c);
    // An angle in another sector does not.
    let e = Direction::new(fixed(1.2), 0);
    assert_ne!(a, e);
}

#[test]
fn quantize_agrees_with_arctangent_input() {
    // The host derives the angle with libm; equal axis pairs must give
    // equal buckets.
    let theta1 = fixed(libm::atan2(100.0, 200.0));
    let theta2 = fixed(libm::atan2(100.0, 200.0));
    assert_eq!(Direction::new(theta1, 0), Direction::new(theta2, 0));
}

#[test]
fn isqrt_exact_values() {
    assert_eq!(isqrt64(0), 0);
    assert_eq!(isqrt64(1), 1);
    assert_eq!(isqrt64(2), 1);
    assert_eq!(isqrt64(3), 1);
    assert_eq!(isqrt64(4), 2);
    assert_eq!(isqrt64(15), 3);
    assert_eq!(isqrt64(16), 4);
    assert_eq!(isqrt64(2_147_483_648), 46340);
    assert_eq!(isqrt64(u64::MAX), 4_294_967_295);
}

#[test]
fn stick_radius_euclidean_norm() {
    assert_eq!(stick_radius(3, 4), 5);
    assert_eq!(stick_radius(32767, 0), 32767);
    assert_eq!(stick_radius(0, -32768), 32768);
    assert_eq!(stick_radius(-32768, -32768), 46340);
}
