//! Fixed-point scalars.
//!
//! Every real-valued quantity of the domain (color channels, opacities, fog
//! distances, world coordinates, angles in radians) is represented as an
//! integer count of 1/65536 units.  `FRAC_ONE` therefore stands for the real
//! value 1.0, and a world distance of one unit is `FRAC_ONE` fixed-point
//! steps.

use vstd::prelude::*;
use vstd::arithmetic::mul::lemma_mul_inequality;
use vstd::arithmetic::div_mod::lemma_div_is_ordered;
use vstd::arithmetic::div_mod::lemma_div_by_multiple;

verus! {

/// The fixed-point denominator: this value stands for the real number 1.0.
pub const FRAC_ONE: u32 = 65536;

/// The fixed-point representation of 0.5.
pub const FRAC_HALF: u32 = 32768;

/// The greatest fixed-point value strictly below pi radians.  A vertical
/// field of view is valid exactly when it lies in the open interval
/// `(0, PI_RADIANS)`.
pub const PI_RADIANS: u32 = 205887;

/// Default vertical field of view in fixed-point radians: a 70-degree
/// horizontal field of view at a 640x480 aspect ratio.
pub const DEFAULT_VERTICAL_FOV: u32 = 63377;

/// Smallest draw distance a level may select (100 world units).
pub const MIN_DRAW_DISTANCE_LIMIT: u32 = 100 * 65536;

/// Largest draw distance a level may select (2250 world units).
pub const MAX_DRAW_DISTANCE_LIMIT: u32 = 2250 * 65536;

/// Fixed near floor of every viewport's draw-distance range (1/16 unit).
pub const DRAW_DISTANCE_MINIMUM: u32 = 4096;

/// A single camera displacement contributes at most this distance
/// (10 world units) to a pending fog transition.
pub const FOG_TRANSITION_CAP: u64 = 10 * 65536;

/// Linear interpolation from `a` toward `b` by the fraction `t / FRAC_ONE`,
/// with the quotient rounded toward `a`.
pub open spec fn spec_lerp(a: int, b: int, t: int) -> int {
    if b >= a {
        a + (b - a) * t / (FRAC_ONE as int)
    } else {
        a - (a - b) * t / (FRAC_ONE as int)
    }
}

/// `d * t / FRAC_ONE` stays between 0 and `d` whenever `t` is a valid
/// fraction.
proof fn lemma_frac_scale_le(d: int, t: int)
    requires
        0 <= d,
        0 <= t <= FRAC_ONE as int,
    ensures
        0 <= d * t / (FRAC_ONE as int) <= d,
{
    lemma_mul_inequality(t, FRAC_ONE as int, d);
    assert(d * t == t * d) by (nonlinear_arith);
    assert(d * (FRAC_ONE as int) == (FRAC_ONE as int) * d) by (nonlinear_arith);
    lemma_div_is_ordered(d * t, d * (FRAC_ONE as int), FRAC_ONE as int);
    lemma_div_by_multiple(d, FRAC_ONE as int);
    assert(0 * t == 0) by (nonlinear_arith);
    lemma_mul_inequality(0, d, t);
    lemma_div_is_ordered(0, d * t, FRAC_ONE as int);
}

/// The interpolated value lies between `a` and `b`.
pub proof fn lemma_lerp_bounds(a: int, b: int, t: int)
    requires
        0 <= t <= FRAC_ONE as int,
    ensures
        b >= a ==> a <= spec_lerp(a, b, t) <= b,
        b < a ==> b <= spec_lerp(a, b, t) <= a,
{
    if b >= a {
        lemma_frac_scale_le(b - a, t);
    } else {
        lemma_frac_scale_le(a - b, t);
    }
}

/// Interpolate between two fixed-point fractions.
pub fn lerp_frac(a: u32, b: u32, t: u32) -> (r: u32)
    requires
        t <= FRAC_ONE,
    ensures
        r == spec_lerp(a as int, b as int, t as int),
        r <= a || r <= b,
        a <= r || b <= r,
{
    proof {
        lemma_lerp_bounds(a as int, b as int, t as int);
    }
    if b >= a {
        let d: u64 = (b - a) as u64 * t as u64 / FRAC_ONE as u64;
        a + d as u32
    } else {
        let d: u64 = (a - b) as u64 * t as u64 / FRAC_ONE as u64;
        a - d as u32
    }
}

/// `x` clamped to the closed interval `[lo, hi]`.
pub open spec fn spec_clamp(x: int, lo: int, hi: int) -> int {
    if x < lo {
        lo
    } else if x > hi {
        hi
    } else {
        x
    }
}

/// Clamp a fixed-point value to `[lo, hi]`.
pub fn clamp_u32(x: u32, lo: u32, hi: u32) -> (r: u32)
    requires
        lo <= hi,
    ensures
        r == spec_clamp(x as int, lo as int, hi as int),
{
    if x < lo {
        lo
    } else if x > hi {
        hi
    } else {
        x
    }
}

/// A point or direction in world space, in fixed-point coordinates.
#[derive(Clone, Copy, PartialEq, Eq, Structural, Debug)]
pub struct FixedVec3 {
    pub x: i32,
    pub y: i32,
    pub z: i32,
}

/// A product of nonnegative factors is bounded by the product of their
/// bounds.
pub proof fn lemma_mul_bound(a: int, b: int, am: int, bm: int)
    requires
        0 <= a <= am,
        0 <= b <= bm,
    ensures
        0 <= a * b <= am * bm,
{
    assert(0 <= a * b <= am * bm) by (nonlinear_arith)
        requires
            0 <= a <= am,
            0 <= b <= bm,
    ;
}

/// The square of a value below 2^33 in magnitude is nonnegative and below
/// 2^66.
proof fn lemma_small_square(d: int)
    requires
        -0x2_0000_0000 < d,
        d < 0x2_0000_0000,
    ensures
        0 <= d * d,
        d * d < 0x40_0000_0000_0000_0000,
{
    assert(0 <= d * d && d * d < 0x40_0000_0000_0000_0000) by (nonlinear_arith)
        requires
            -0x2_0000_0000 < d,
            d < 0x2_0000_0000,
    ;
}

/// Squared Euclidean distance between two points, in squared fixed-point
/// steps.
pub open spec fn spec_distance_squared(a: FixedVec3, b: FixedVec3) -> int {
    (a.x - b.x) * (a.x - b.x) + (a.y - b.y) * (a.y - b.y) + (a.z - b.z) * (a.z - b.z)
}

/// A squared distance between fixed-point points is nonnegative and below
/// 3 * 2^66.
pub proof fn lemma_distance_squared_bounds(a: FixedVec3, b: FixedVec3)
    ensures
        0 <= spec_distance_squared(a, b),
        spec_distance_squared(a, b) < 0xC0_0000_0000_0000_0000,
{
    lemma_small_square(a.x - b.x);
    lemma_small_square(a.y - b.y);
    lemma_small_square(a.z - b.z);
}

/// Compute the squared distance between two points exactly.
pub fn distance_squared(a: FixedVec3, b: FixedVec3) -> (r: u128)
    ensures
        r == spec_distance_squared(a, b),
{
    let dx: i64 = a.x as i64 - b.x as i64;
    let dy: i64 = a.y as i64 - b.y as i64;
    let dz: i64 = a.z as i64 - b.z as i64;
    proof {
        lemma_small_square(dx as int);
        lemma_small_square(dy as int);
        lemma_small_square(dz as int);
    }
    let sx: i128 = dx as i128 * dx as i128;
    let sy: i128 = dy as i128 * dy as i128;
    let sz: i128 = dz as i128 * dz as i128;
    (sx + sy + sz) as u128
}

/// The integer square root of `n`: the greatest `r` with `r * r <= n`.
pub open spec fn spec_isqrt(n: int) -> int
    decreases n,
{
    if n <= 0 {
        0
    } else {
        let r = spec_isqrt(n - 1);
        if (r + 1) * (r + 1) <= n {
            r + 1
        } else {
            r
        }
    }
}

/// `spec_isqrt(n)` is nonnegative and brackets `n` between consecutive
/// squares.
pub proof fn lemma_isqrt_bounds(n: int)
    requires
        0 <= n,
    ensures
        0 <= spec_isqrt(n),
        spec_isqrt(n) * spec_isqrt(n) <= n,
        n < (spec_isqrt(n) + 1) * (spec_isqrt(n) + 1),
    decreases n,
{
    if n == 0 {
        assert(spec_isqrt(0) == 0);
    } else {
        lemma_isqrt_bounds(n - 1);
        let r = spec_isqrt(n - 1);
        if (r + 1) * (r + 1) <= n {
            assert(spec_isqrt(n) == r + 1);
            assert(n <= (r + 1) * (r + 1));
            assert((r + 1) * (r + 1) < (r + 2) * (r + 2)) by (nonlinear_arith)
                requires
                    0 <= r,
            ;
        } else {
            assert(spec_isqrt(n) == r);
        }
    }
}

/// Only one value brackets `n` between consecutive squares.
pub proof fn lemma_isqrt_unique(n: int, r: int)
    requires
        0 <= r,
        r * r <= n,
        n < (r + 1) * (r + 1),
    ensures
        r == spec_isqrt(n),
{
    lemma_isqrt_bounds(n);
    let s = spec_isqrt(n);
    assert(r == s) by (nonlinear_arith)
        requires
            0 <= r,
            0 <= s,
            r * r <= n,
            n < (r + 1) * (r + 1),
            s * s <= n,
            n < (s + 1) * (s + 1),
    ;
}

/// The integer square root is monotone.
pub proof fn lemma_isqrt_monotone(a: int, b: int)
    requires
        0 <= a <= b,
    ensures
        spec_isqrt(a) <= spec_isqrt(b),
{
    lemma_isqrt_bounds(a);
    lemma_isqrt_bounds(b);
    assert(spec_isqrt(a) <= spec_isqrt(b)) by (nonlinear_arith)
        requires
            spec_isqrt(a) * spec_isqrt(a) <= a,
            a <= b,
            b < (spec_isqrt(b) + 1) * (spec_isqrt(b) + 1),
            0 <= spec_isqrt(a),
            0 <= spec_isqrt(b),
    ;
}

/// The integer square root of a perfect square is its root.
pub proof fn lemma_isqrt_square(c: int)
    requires
        0 <= c,
    ensures
        spec_isqrt(c * c) == c,
{
    assert(c * c < (c + 1) * (c + 1)) by (nonlinear_arith)
        requires
            0 <= c,
    ;
    lemma_isqrt_unique(c * c, c);
}

/// The squared length of a direction vector.
pub open spec fn spec_norm_sq(v: FixedVec3) -> int {
    v.x * v.x + v.y * v.y + v.z * v.z
}

/// One component scaled to a unit-length vector: `c * FRAC_ONE / n`, with
/// the quotient of the magnitude rounded toward zero.
pub open spec fn spec_scale_to_unit(c: int, n: int) -> int {
    if c >= 0 {
        c * (FRAC_ONE as int) / n
    } else {
        -((-c) * (FRAC_ONE as int) / n)
    }
}

/// A direction scaled to unit length in fixed point.  A vector whose
/// length truncates to zero has no usable direction and falls back to the
/// unit y axis.
pub open spec fn spec_normalize_direction(v: FixedVec3) -> FixedVec3 {
    let n = spec_isqrt(spec_norm_sq(v));
    if n == 0 {
        FixedVec3 { x: 0, y: FRAC_ONE as i32, z: 0 }
    } else {
        FixedVec3 {
            x: spec_scale_to_unit(v.x as int, n) as i32,
            y: spec_scale_to_unit(v.y as int, n) as i32,
            z: spec_scale_to_unit(v.z as int, n) as i32,
        }
    }
}

/// Scale one component of a direction by `FRAC_ONE / n`.
fn scale_to_unit(c: i32, n: u64) -> (r: i32)
    requires
        1 <= n,
        -(n as int) <= c <= n as int,
        n <= 0x1_0000_0000,
    ensures
        r == spec_scale_to_unit(c as int, n as int),
        -(FRAC_ONE as int) <= r <= FRAC_ONE as int,
{
    let magnitude: u64 = if c >= 0 {
        c as u64
    } else {
        (-(c as i64)) as u64
    };
    proof {
        lemma_mul_bound(magnitude as int, FRAC_ONE as int, n as int, FRAC_ONE as int);
        lemma_div_is_ordered(
            magnitude as int * (FRAC_ONE as int),
            n as int * (FRAC_ONE as int),
            n as int,
        );
        lemma_div_by_multiple(FRAC_ONE as int, n as int);
        assert(n as int * (FRAC_ONE as int) == (FRAC_ONE as int) * (n as int))
            by (nonlinear_arith);
        vstd::arithmetic::div_mod::lemma_div_pos_is_pos(
            magnitude as int * (FRAC_ONE as int),
            n as int,
        );
    }
    let scaled: u64 = magnitude * (FRAC_ONE as u64) / n;
    if c >= 0 {
        scaled as i32
    } else {
        -(scaled as i32)
    }
}

/// Scale a direction to unit length, falling back to the unit y axis when
/// its length truncates to zero.
pub fn normalize_direction(v: FixedVec3) -> (r: FixedVec3)
    ensures
        r == spec_normalize_direction(v),
        -(FRAC_ONE as int) <= r.x <= FRAC_ONE as int,
        -(FRAC_ONE as int) <= r.y <= FRAC_ONE as int,
        -(FRAC_ONE as int) <= r.z <= FRAC_ONE as int,
{
    let origin = FixedVec3 { x: 0, y: 0, z: 0 };
    let sq = distance_squared(v, origin);
    proof {
        assert(spec_distance_squared(v, origin) == spec_norm_sq(v));
        lemma_distance_squared_bounds(v, origin);
    }
    let n = isqrt(sq);
    if n == 0 {
        return FixedVec3 { x: 0, y: FRAC_ONE as i32, z: 0 };
    }
    proof {
        assert((v.x as int) * (v.x as int) <= sq as int && (v.y as int) * (v.y as int)
            <= sq as int && (v.z as int) * (v.z as int) <= sq as int) by (nonlinear_arith)
            requires
                sq as int == (v.x as int) * (v.x as int) + (v.y as int) * (v.y as int) + (
                v.z as int) * (v.z as int),
        ;
        lemma_component_within_norm(v.x as int, sq as int);
        lemma_component_within_norm(v.y as int, sq as int);
        lemma_component_within_norm(v.z as int, sq as int);
        assert(sq as int <= 0xC000_0000_0000_0000) by (nonlinear_arith)
            requires
                sq as int == (v.x as int) * (v.x as int) + (v.y as int) * (v.y as int) + (
                v.z as int) * (v.z as int),
                -0x8000_0000 <= v.x as int <= 0x7fff_ffff,
                -0x8000_0000 <= v.y as int <= 0x7fff_ffff,
                -0x8000_0000 <= v.z as int <= 0x7fff_ffff,
        ;
        if n >= 0x1_0000_0001 {
            lemma_mul_bound(0x1_0000_0001, 0x1_0000_0001, n as int, n as int);
        }
    }
    FixedVec3 {
        x: scale_to_unit(v.x, n as u64),
        y: scale_to_unit(v.y, n as u64),
        z: scale_to_unit(v.z, n as u64),
    }
}

/// A component's magnitude never exceeds the vector's length.
proof fn lemma_component_within_norm(c: int, sq: int)
    requires
        c * c <= sq,
        0 <= sq,
    ensures
        -spec_isqrt(sq) <= c <= spec_isqrt(sq),
{
    let m = if c >= 0 {
        c
    } else {
        -c
    };
    assert(m * m == c * c) by (nonlinear_arith)
        requires
            m == c || m == -c,
    ;
    lemma_isqrt_square(m);
    lemma_isqrt_monotone(m * m, sq);
}

/// The integer square root: the greatest `r` with `r * r <= n`.
pub fn isqrt(n: u128) -> (r: u128)
    ensures
        r == spec_isqrt(n as int),
        r * r <= n,
        n < (r + 1) * (r + 1),
{
    if n == 0 {
        return 0;
    }
    let mut lo: u128 = 0;
    let mut hi: u128 = 0x1_0000_0000_0000_0000u128;
    proof {
        assert(hi * hi > n) by (nonlinear_arith)
            requires
                hi == 0x1_0000_0000_0000_0000u128,
                n < 0x1_0000_0000_0000_0000_0000_0000_0000_0000int,
        ;
    }
    while lo + 1 < hi
        invariant
            lo < hi,
            hi <= 0x1_0000_0000_0000_0000u128,
            lo * lo <= n,
            n < hi * hi,
        decreases hi - lo,
    {
        let mid: u128 = lo + (hi - lo) / 2;
        proof {
            assert(mid * mid < 0x1_0000_0000_0000_0000_0000_0000_0000_0000)
                by (nonlinear_arith)
                requires
                    mid < 0x1_0000_0000_0000_0000,
            ;
        }
        if mid * mid <= n {
            lo = mid;
        } else {
            hi = mid;
        }
    }
    proof {
        lemma_isqrt_unique(n as int, lo as int);
    }
    lo
}

} // verus!
