use astroblasto::vecmath::{Vec2, trunc_div_i64, isqrt, magnitude_squared, distance_squared};

#[test]
fn trunc_div_truncates_toward_zero() {
    assert_eq!(trunc_div_i64(7, 2), 3);
    assert_eq!(trunc_div_i64(-7, 2), -3);
    assert_eq!(trunc_div_i64(0, 5), 0);
    assert_eq!(trunc_div_i64(-1, 60), 0);
    assert_eq!(trunc_div_i64(100_000_000, 60_000), 1666);
}

#[test]
fn isqrt_exact_values() {
    assert_eq!(isqrt(0), 0);
    assert_eq!(isqrt(1), 1);
    assert_eq!(isqrt(3), 1);
    assert_eq!(isqrt(4), 2);
    assert_eq!(isqrt(10), 3);
    assert_eq!(isqrt(62_500_000_000), 250_000);
    assert_eq!(isqrt(62_500_000_001), 250_000);
    assert_eq!(isqrt(u64::MAX), 4_294_967_295);
}

#[test]
fn magnitude_and_distance() {
    assert_eq!(magnitude_squared(Vec2 { x: 3, y: 4 }), 25);
    assert_eq!(magnitude_squared(Vec2 { x: -3, y: -4 }), 25);
    assert_eq!(distance_squared(Vec2 { x: 1, y: 1 }, Vec2 { x: 4, y: 5 }), 25);
    assert_eq!(distance_squared(Vec2 { x: 0, y: 0 }, Vec2 { x: 0, y: 0 }), 0);
}
