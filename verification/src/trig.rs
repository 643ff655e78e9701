use vstd::prelude::*;
use crate::vecmath::{Vec2, norm_sq};

verus! {

/// One full turn in milliradians (2 * pi, rounded to the fixed-point grid).
/// Angles are kept reduced to the range `[0, TURN_MRAD)`.
pub const TURN_MRAD: i64 = 6283;

/// Lower bound on the squared norm of a table direction (scale 1000).
pub const DIR_NORM_SQ_MIN: i64 = 998001;

/// Upper bound on the squared norm of a table direction (scale 1000).
pub const DIR_NORM_SQ_MAX: i64 = 1000000;

/// Quarter-wave sine table: `sin_entry(k)` is `1000 * sin(2 * pi * k / 64)`
/// rounded to keep every full direction within a unit of the scaled circle,
/// for `k` in `[0, 16]`.
pub open spec fn sin_entry(k: int) -> int {
    if k <= 0 { 0 }
    else if k == 1 { 98 }
    else if k == 2 { 195 }
    else if k == 3 { 290 }
    else if k == 4 { 382 }
    else if k == 5 { 471 }
    else if k == 6 { 556 }
    else if k == 7 { 634 }
    else if k == 8 { 707 }
    else if k == 9 { 773 }
    else if k == 10 { 831 }
    else if k == 11 { 882 }
    else if k == 12 { 924 }
    else if k == 13 { 957 }
    else if k == 14 { 980 }
    else if k == 15 { 995 }
    else { 1000 }
}

/// X component (sine) of direction step `i`, scaled by 1000.
/// The angle convention has step 0 pointing along +Y ("up").
pub open spec fn dir_x(i: int) -> int {
    if i <= 16 { sin_entry(i) }
    else if i <= 32 { sin_entry(32 - i) }
    else if i <= 48 { -sin_entry(i - 32) }
    else { -sin_entry(64 - i) }
}

/// Y component (cosine) of direction step `i`, scaled by 1000.
pub open spec fn dir_y(i: int) -> int {
    if i <= 16 { sin_entry(16 - i) }
    else if i <= 32 { -sin_entry(i - 16) }
    else if i <= 48 { -sin_entry(48 - i) }
    else { sin_entry(i - 48) }
}

/// Direction step of an angle in `[0, TURN_MRAD)` milliradians.
pub open spec fn angle_index(a: int) -> int {
    (a * 64) / 6283
}

/// Scaled unit vector of an angle: the table direction of its step.
pub open spec fn unit_from_angle(a: int) -> (int, int) {
    (dir_x(angle_index(a)), dir_y(angle_index(a)))
}

/// An angle delta folded back into `[0, TURN_MRAD)`, assuming the sum is
/// at most one turn out of range on either side.
pub open spec fn wrap_angle(s: int) -> int {
    if s >= TURN_MRAD { s - TURN_MRAD } else if s < 0 { s + TURN_MRAD } else { s }
}

/// Table entries lie in `[0, 1000]`.
pub proof fn lemma_sin_entry_bounds(k: int)
    ensures
        0 <= sin_entry(k) <= 1000,
{
}

/// Each opposing pair of quarter-wave entries lies within a unit of the
/// scaled circle of radius 1000.
pub proof fn lemma_sin_pair_norm(k: int)
    requires
        0 <= k <= 16,
    ensures
        DIR_NORM_SQ_MIN <= sin_entry(k) * sin_entry(k) + sin_entry(16 - k) * sin_entry(16 - k)
            <= DIR_NORM_SQ_MAX,
{
}

/// Every direction step has squared norm within a unit of the scaled circle:
/// the fixed-point form of "a unit vector from an angle has magnitude 1".
pub proof fn lemma_dir_norm(i: int)
    requires
        0 <= i < 64,
    ensures
        DIR_NORM_SQ_MIN <= norm_sq(dir_x(i), dir_y(i)) <= DIR_NORM_SQ_MAX,
        -1000 <= dir_x(i) <= 1000,
        -1000 <= dir_y(i) <= 1000,
{
    if i <= 16 {
        lemma_sin_pair_norm(i);
    } else if i <= 32 {
        lemma_sin_pair_norm(32 - i);
        assert(sin_entry(16 - (32 - i)) == sin_entry(i - 16));
        let b = sin_entry(i - 16);
        assert((-b) * (-b) == b * b) by (nonlinear_arith);
    } else if i <= 48 {
        lemma_sin_pair_norm(i - 32);
        assert(sin_entry(16 - (i - 32)) == sin_entry(48 - i));
        let c = sin_entry(i - 32);
        let b = sin_entry(48 - i);
        assert((-c) * (-c) == c * c && (-b) * (-b) == b * b) by (nonlinear_arith);
    } else {
        lemma_sin_pair_norm(64 - i);
        assert(sin_entry(16 - (64 - i)) == sin_entry(i - 48));
        let c = sin_entry(64 - i);
        assert((-c) * (-c) == c * c) by (nonlinear_arith);
    }
    lemma_sin_entry_bounds(i);
    lemma_sin_entry_bounds(16 - i);
    lemma_sin_entry_bounds(32 - i);
    lemma_sin_entry_bounds(i - 16);
    lemma_sin_entry_bounds(i - 32);
    lemma_sin_entry_bounds(48 - i);
    lemma_sin_entry_bounds(64 - i);
    lemma_sin_entry_bounds(i - 48);
}

/// An angle in `[0, TURN_MRAD)` maps to a direction step in `[0, 64)`.
pub proof fn lemma_angle_index_range(a: int)
    requires
        0 <= a < TURN_MRAD,
    ensures
        0 <= angle_index(a) < 64,
{
    vstd::arithmetic::div_mod::lemma_div_pos_is_pos(a * 64, 6283);
    vstd::arithmetic::div_mod::lemma_fundamental_div_mod(a * 64, 6283);
    vstd::arithmetic::div_mod::lemma_mod_bound(a * 64, 6283);
    assert(a * 64 < 64 * 6283) by (nonlinear_arith)
        requires 0 <= a < 6283;
    assert((a * 64) / 6283 < 64) by (nonlinear_arith)
        requires
            0 <= a * 64 < 64 * 6283,
            a * 64 == 6283 * ((a * 64) / 6283) + (a * 64) % 6283,
            0 <= (a * 64) % 6283 < 6283;
}

/// The fixed-point form of the unit-vector magnitude law: for every reduced
/// angle, the scaled unit vector from that angle has squared norm within a
/// unit of the scaled circle of radius 1000.
pub proof fn lemma_unit_from_angle_magnitude(a: int)
    requires
        0 <= a < TURN_MRAD,
    ensures
        DIR_NORM_SQ_MIN <= norm_sq(unit_from_angle(a).0, unit_from_angle(a).1) <= DIR_NORM_SQ_MAX,
        -1000 <= unit_from_angle(a).0 <= 1000,
        -1000 <= unit_from_angle(a).1 <= 1000,
{
    lemma_angle_index_range(a);
    lemma_dir_norm(angle_index(a));
}

/// Quarter-wave sine lookup, exact against `sin_entry`.
fn sin_table(k: u64) -> (r: i64)
    requires
        k <= 16,
    ensures
        r == sin_entry(k as int),
{
    match k {
        0 => 0,
        1 => 98,
        2 => 195,
        3 => 290,
        4 => 382,
        5 => 471,
        6 => 556,
        7 => 634,
        8 => 707,
        9 => 773,
        10 => 831,
        11 => 882,
        12 => 924,
        13 => 957,
        14 => 980,
        15 => 995,
        _ => 1000,
    }
}

/// Scaled unit vector from an angle in milliradians: `(sin, cos)` of the
/// angle, each scaled by 1000. The convention has angle 0 pointing along
/// +Y ("up"), which couples facing, thrust and shot direction.
pub fn vec_from_angle(angle: i64) -> (r: Vec2)
    requires
        0 <= angle < TURN_MRAD,
    ensures
        r.x == unit_from_angle(angle as int).0,
        r.y == unit_from_angle(angle as int).1,
        -1000 <= r.x <= 1000,
        -1000 <= r.y <= 1000,
{
    proof {
        lemma_angle_index_range(angle as int);
        lemma_dir_norm(angle_index(angle as int));
    }
    let i: u64 = (angle as u64) * 64 / 6283;
    assert(i == angle_index(angle as int));
    let x: i64;
    let y: i64;
    if i <= 16 {
        x = sin_table(i);
        y = sin_table(16 - i);
    } else if i <= 32 {
        x = sin_table(32 - i);
        y = -sin_table(i - 16);
    } else if i <= 48 {
        x = -sin_table(i - 32);
        y = -sin_table(48 - i);
    } else {
        x = -sin_table(64 - i);
        y = sin_table(i - 48);
    }
    Vec2 { x, y }
}

/// Fold an angle plus a bounded delta back into `[0, TURN_MRAD)`.
pub fn turn_angle(facing: i64, delta: i64) -> (r: i64)
    requires
        0 <= facing < TURN_MRAD,
        -TURN_MRAD < delta < TURN_MRAD,
    ensures
        r == wrap_angle(facing + delta),
        0 <= r < TURN_MRAD,
{
    let s: i64 = facing + delta;
    if s >= TURN_MRAD {
        s - TURN_MRAD
    } else if s < 0 {
        s + TURN_MRAD
    } else {
        s
    }
}

} // verus!
