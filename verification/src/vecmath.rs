use vstd::prelude::*;
use vstd::arithmetic::div_mod::*;

verus! {

/// 2D vector in fixed-point world units (milli-pixels, i.e. thousandths of a
/// pixel). All simulation geometry is carried in these integer units.
#[derive(Clone, Copy, Debug, PartialEq, Eq, Structural)]
pub struct Vec2 {
    pub x: i64,
    pub y: i64,
}

/// Squared Euclidean norm of a pair of coordinates.
pub open spec fn norm_sq(x: int, y: int) -> int {
    x * x + y * y
}

/// Squared Euclidean distance between two points.
pub open spec fn dist_sq(a: Vec2, b: Vec2) -> int {
    norm_sq(a.x - b.x, a.y - b.y)
}

/// Division that truncates toward zero (the behaviour of `/` on machine
/// integers), defined over mathematical integers. The spec-level `/` on
/// `int` is Euclidean, so the negative case is spelled out.
pub open spec fn tdiv(a: int, d: int) -> int {
    if a >= 0 {
        a / d
    } else {
        -((-a) / d)
    }
}

/// `r` is the integer square root (floor) of `n`.
pub open spec fn is_sqrt_floor(n: int, r: int) -> bool {
    0 <= r && r * r <= n < (r + 1) * (r + 1)
}

/// The integer square root as a spec-level value.
pub open spec fn sqrt_floor(n: int) -> int {
    choose|r: int| is_sqrt_floor(n, r)
}

/// Two integer square roots of the same number are equal.
pub proof fn lemma_sqrt_floor_unique(n: int, a: int, b: int)
    requires
        is_sqrt_floor(n, a),
        is_sqrt_floor(n, b),
    ensures
        a == b,
{
    if a < b {
        assert((a + 1) * (a + 1) <= b * b) by (nonlinear_arith)
            requires 0 <= a && 0 <= b && a < b;
    }
    if b < a {
        assert((b + 1) * (b + 1) <= a * a) by (nonlinear_arith)
            requires 0 <= a && 0 <= b && b < a;
    }
}

/// Any witness of `is_sqrt_floor` is the `sqrt_floor` value.
pub proof fn lemma_sqrt_floor_is(n: int, r: int)
    requires
        is_sqrt_floor(n, r),
    ensures
        sqrt_floor(n) == r,
{
    let w = choose|q: int| is_sqrt_floor(n, q);
    assert(is_sqrt_floor(n, w));
    lemma_sqrt_floor_unique(n, w, r);
}

/// Magnitude of an integer.
pub open spec fn abs_i(x: int) -> int {
    if x >= 0 { x } else { -x }
}

/// Truncating division in terms of magnitudes: the magnitude of the quotient
/// is the floor of the magnitude of `a` over `d`.
pub proof fn lemma_tdiv_abs(a: int, d: int)
    requires
        d > 0,
    ensures
        abs_i(tdiv(a, d)) * d <= abs_i(a) < (abs_i(tdiv(a, d)) + 1) * d,
        abs_i(tdiv(a, d)) * abs_i(tdiv(a, d)) == tdiv(a, d) * tdiv(a, d),
        abs_i(a) * abs_i(a) == a * a,
{
    lemma_tdiv_bounds(a, d);
    let q = tdiv(a, d);
    assert((-q) * (-q) == q * q && (-a) * (-a) == a * a) by (nonlinear_arith);
}

/// Basic bounds of truncating division: `|tdiv(a, d)| * d <= |a| < (|tdiv(a, d)| + 1) * d`,
/// and the result carries the sign of `a`.
pub proof fn lemma_tdiv_bounds(a: int, d: int)
    requires
        d > 0,
    ensures
        a >= 0 ==> tdiv(a, d) >= 0 && tdiv(a, d) * d <= a < (tdiv(a, d) + 1) * d,
        a < 0 ==> tdiv(a, d) <= 0 && (-tdiv(a, d)) * d <= -a < (-tdiv(a, d) + 1) * d,
{
    if a >= 0 {
        lemma_fundamental_div_mod(a, d);
        lemma_mod_bound(a, d);
        lemma_div_pos_is_pos(a, d);
        assert(tdiv(a, d) * d <= a < (tdiv(a, d) + 1) * d) by (nonlinear_arith)
            requires d > 0 && a == d * (a / d) + a % d && 0 <= a % d < d && tdiv(a, d) == a / d;
    } else {
        let m = -a;
        lemma_fundamental_div_mod(m, d);
        lemma_mod_bound(m, d);
        lemma_div_pos_is_pos(m, d);
        assert((m / d) * d <= m < (m / d + 1) * d) by (nonlinear_arith)
            requires d > 0 && m == d * (m / d) + m % d && 0 <= m % d < d;
    }
}

/// The magnitude of a truncating quotient is bounded by any bound on `|a| / d`.
pub proof fn lemma_tdiv_magnitude_le(a: int, d: int, bound: int)
    requires
        d > 0,
        -(bound * d) <= a <= bound * d,
        bound >= 0,
    ensures
        -bound <= tdiv(a, d) <= bound,
{
    lemma_tdiv_bounds(a, d);
    if a >= 0 {
        assert(tdiv(a, d) <= bound) by (nonlinear_arith)
            requires d > 0 && bound >= 0 && tdiv(a, d) * d <= a && a <= bound * d && tdiv(a, d) >= 0;
    } else {
        assert(-tdiv(a, d) <= bound) by (nonlinear_arith)
            requires d > 0 && bound >= 0 && (-tdiv(a, d)) * d <= -a && -a <= bound * d && -tdiv(a, d) >= 0;
    }
}

/// Truncating division of an `i64` by a positive divisor, exact against `tdiv`.
pub fn trunc_div_i64(a: i64, d: i64) -> (r: i64)
    requires
        d > 0,
        -0x4000_0000_0000_0000 <= a <= 0x4000_0000_0000_0000,
    ensures
        r == tdiv(a as int, d as int),
{
    proof {
        lemma_tdiv_bounds(a as int, d as int);
        if a >= 0 {
            lemma_div_is_ordered_by_denominator(a as int, 1, d as int);
            lemma_div_basics(a as int);
        } else {
            lemma_div_is_ordered_by_denominator(-a as int, 1, d as int);
            lemma_div_basics(-a as int);
        }
    }
    if a >= 0 {
        let q: u64 = (a as u64) / (d as u64);
        q as i64
    } else {
        let m: u64 = (-a) as u64;
        let q: u64 = m / (d as u64);
        -(q as i64)
    }
}

/// Integer square root (floor) of a `u64`, by binary search.
pub fn isqrt(n: u64) -> (r: u64)
    ensures
        is_sqrt_floor(n as int, r as int),
{
    let mut lo: u64 = 0;
    let mut hi: u64 = 0x1_0000_0000;
    proof {
        assert(0x1_0000_0000int * 0x1_0000_0000int > u64::MAX);
    }
    while hi - lo > 1
        invariant
            lo < hi <= 0x1_0000_0000,
            (lo as int) * (lo as int) <= n as int,
            (n as int) < (hi as int) * (hi as int),
        decreases hi - lo,
    {
        let mid: u64 = lo + (hi - lo) / 2;
        proof {
            assert(lo < mid < hi);
            assert((mid as int) * (mid as int) <= 0xffff_ffffint * 0xffff_ffffint) by (nonlinear_arith)
                requires 0 <= (mid as int) <= 0xffff_ffffint;
        }
        if mid * mid <= n {
            lo = mid;
        } else {
            hi = mid;
        }
    }
    lo
}

/// Squared magnitude of a vector, exact.
pub fn magnitude_squared(v: Vec2) -> (r: i64)
    requires
        -2_000_000_000 <= v.x <= 2_000_000_000,
        -2_000_000_000 <= v.y <= 2_000_000_000,
    ensures
        r == norm_sq(v.x as int, v.y as int),
{
    proof {
        assert(v.x * v.x <= 4_000_000_000_000_000_000 && v.x * v.x >= 0) by (nonlinear_arith)
            requires -2_000_000_000 <= (v.x as int) <= 2_000_000_000;
        assert(v.y * v.y <= 4_000_000_000_000_000_000 && v.y * v.y >= 0) by (nonlinear_arith)
            requires -2_000_000_000 <= (v.y as int) <= 2_000_000_000;
    }
    v.x * v.x + v.y * v.y
}

/// Squared distance between two points, exact.
pub fn distance_squared(a: Vec2, b: Vec2) -> (r: i64)
    requires
        -1_000_000_000 <= a.x <= 1_000_000_000,
        -1_000_000_000 <= a.y <= 1_000_000_000,
        -1_000_000_000 <= b.x <= 1_000_000_000,
        -1_000_000_000 <= b.y <= 1_000_000_000,
    ensures
        r == dist_sq(a, b),
{
    let dx: i64 = a.x - b.x;
    let dy: i64 = a.y - b.y;
    magnitude_squared(Vec2 { x: dx, y: dy })
}

} // verus!
