use magellanicus::fixed::{
    clamp_u32, distance_squared, isqrt, lerp_frac, FixedVec3, DRAW_DISTANCE_MINIMUM, FRAC_HALF,
    FRAC_ONE, MAX_DRAW_DISTANCE_LIMIT, MIN_DRAW_DISTANCE_LIMIT,
};

#[test]
fn lerp_midpoint_is_average() {
    assert_eq!(lerp_frac(0, FRAC_ONE, FRAC_HALF), FRAC_HALF);
    assert_eq!(lerp_frac(FRAC_ONE, 0, FRAC_HALF), FRAC_HALF);
}

#[test]
fn lerp_endpoints() {
    assert_eq!(lerp_frac(100, 900, 0), 100);
    assert_eq!(lerp_frac(100, 900, FRAC_ONE), 900);
    assert_eq!(lerp_frac(900, 100, FRAC_ONE), 100);
}

#[test]
fn lerp_quarter_rounds_toward_start() {
    // 10 + (11 - 10) * 1/4 rounds down to 10 in fixed point.
    assert_eq!(lerp_frac(10, 11, FRAC_ONE / 4), 10);
    assert_eq!(lerp_frac(0, 4 * FRAC_ONE, FRAC_ONE / 4), FRAC_ONE);
}

#[test]
fn clamp_behaves() {
    assert_eq!(clamp_u32(5, 10, 20), 10);
    assert_eq!(clamp_u32(15, 10, 20), 15);
    assert_eq!(clamp_u32(25, 10, 20), 20);
}

#[test]
fn isqrt_exact_values() {
    assert_eq!(isqrt(0), 0);
    assert_eq!(isqrt(1), 1);
    assert_eq!(isqrt(3), 1);
    assert_eq!(isqrt(4), 2);
    assert_eq!(isqrt(99), 9);
    assert_eq!(isqrt(100), 10);
    assert_eq!(isqrt(1 << 40), 1 << 20);
}

#[test]
fn distance_squared_exact() {
    let a = FixedVec3 { x: 3, y: 4, z: 0 };
    let origin = FixedVec3 { x: 0, y: 0, z: 0 };
    assert_eq!(distance_squared(a, origin), 25);
    let b = FixedVec3 { x: -3, y: -4, z: 12 };
    assert_eq!(distance_squared(b, origin), 169);
    assert_eq!(distance_squared(a, a), 0);
}

#[test]
fn draw_distance_constants_are_ordered() {
    assert!(DRAW_DISTANCE_MINIMUM < MIN_DRAW_DISTANCE_LIMIT);
    assert!(MIN_DRAW_DISTANCE_LIMIT < MAX_DRAW_DISTANCE_LIMIT);
    assert_eq!(MIN_DRAW_DISTANCE_LIMIT, 100 * FRAC_ONE);
    assert_eq!(MAX_DRAW_DISTANCE_LIMIT, 2250 * FRAC_ONE);
}
