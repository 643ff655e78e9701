use vstd::prelude::*;
use crate::vecmath::{Vec2, tdiv, abs_i, trunc_div_i64, lemma_tdiv_abs, lemma_tdiv_magnitude_le,
    dist_sq};
use crate::trig::{TURN_MRAD, unit_from_angle, vec_from_angle,
    lemma_unit_from_angle_magnitude, DIR_NORM_SQ_MIN};
use crate::actor::{Actor, ActorKind, MAX_ROCK_VEL, ROCK_RADIUS, ROCK_LIFE};
use crate::SCALE;

verus! {

/// Largest spawn radius the spawner accepts, in milli-pixels.
pub const MAX_SPAWN_RADIUS: i64 = 100_000_000;

/// Relies on rand::random: draws a value from the thread-local generator.
/// Nothing is assumed about which value comes back.
pub assume_specification<T>[ rand::random::<T> ]() -> (r: T)
    where
        rand::distr::StandardUniform: rand::distr::Distribution<T>,
;

/// A direction scaled to a magnitude: the scaled unit vector of angle `a`
/// (milliradians), scaled by `m` and brought back to world units.
pub open spec fn dir_scaled(a: int, m: int) -> (int, int) {
    (
        tdiv(unit_from_angle(a).0 * m, SCALE as int),
        tdiv(unit_from_angle(a).1 * m, SCALE as int),
    )
}

/// `pos` is offset from `center` by some angle and some radial distance in
/// `[min_r, max_r]` — the shape of every spawned rock's position.
pub open spec fn in_ring(pos: Vec2, center: Vec2, min_r: int, max_r: int) -> bool {
    exists|a: int, d: int|
        0 <= a < TURN_MRAD && min_r <= d <= max_r
            && pos.x == center.x + #[trigger] dir_scaled(a, d).0
            && pos.y == center.y + dir_scaled(a, d).1
}

/// Every field a spawned rock has, besides its position and velocity draw.
pub open spec fn spawned_rock_ok(rock: Actor, center: Vec2, min_r: int, max_r: int) -> bool {
    &&& rock.kind == ActorKind::Rock
    &&& rock.life == ROCK_LIFE
    &&& rock.radius == ROCK_RADIUS
    &&& rock.facing == 0
    &&& rock.ang_vel == 0
    &&& -MAX_ROCK_VEL <= rock.velocity.x <= MAX_ROCK_VEL
    &&& -MAX_ROCK_VEL <= rock.velocity.y <= MAX_ROCK_VEL
    &&& rock.wf()
    &&& in_ring(rock.pos, center, min_r, max_r)
}

/// A direction of angle `a` scaled to magnitude `m`, in world units.
/// Each component of the result is bounded by `m`.
pub fn scale_dir(angle: i64, m: i64) -> (v: Vec2)
    requires
        0 <= angle < TURN_MRAD,
        0 <= m <= MAX_SPAWN_RADIUS,
    ensures
        v.x == dir_scaled(angle as int, m as int).0,
        v.y == dir_scaled(angle as int, m as int).1,
        -m <= v.x <= m,
        -m <= v.y <= m,
{
    proof {
        lemma_unit_from_angle_magnitude(angle as int);
    }
    let dir = vec_from_angle(angle);
    proof {
        assert(-(m * SCALE) <= dir.x * m <= m * SCALE && -(m * SCALE) <= dir.y * m <= m * SCALE)
            by (nonlinear_arith)
            requires
                -1000 <= dir.x <= 1000,
                -1000 <= dir.y <= 1000,
                0 <= m,
                SCALE == 1000int,
        ;
    }
    let x = trunc_div_i64(dir.x * m, SCALE);
    let y = trunc_div_i64(dir.y * m, SCALE);
    proof {
        lemma_tdiv_magnitude_le(dir.x * m, SCALE as int, m as int);
        lemma_tdiv_magnitude_le(dir.y * m, SCALE as int, m as int);
    }
    Vec2 { x, y }
}

/// A random vector: a uniform-random angle, and a uniform-random magnitude in
/// `[0, max_magnitude]`. The magnitude distribution is deliberately simple
/// (not area-uniform). Nothing more than the shape of the result is promised,
/// since the draws are random.
pub fn random_vec(max_magnitude: i64) -> (v: Vec2)
    requires
        0 <= max_magnitude <= MAX_SPAWN_RADIUS,
    ensures
        exists|a: int, m: int|
            0 <= a < TURN_MRAD && 0 <= m <= max_magnitude
                && v.x == #[trigger] dir_scaled(a, m).0 && v.y == dir_scaled(a, m).1,
        -max_magnitude <= v.x <= max_magnitude,
        -max_magnitude <= v.y <= max_magnitude,
{
    let a_draw: u64 = rand::random::<u64>();
    let m_draw: u64 = rand::random::<u64>();
    let angle: i64 = (a_draw % (TURN_MRAD as u64)) as i64;
    let m: i64 = (m_draw % ((max_magnitude as u64) + 1)) as i64;
    let v = scale_dir(angle, m);
    proof {
        assert(v.x == dir_scaled(angle as int, m as int).0);
    }
    v
}

/// Create `num` rocks, none closer to `exclusion` (nominally the player) than
/// roughly `min_radius` and none farther than `max_radius`: each rock is
/// placed at a random angle and a random radial distance in
/// `[min_radius, max_radius]` from `exclusion`, with a random drift velocity
/// of magnitude at most `MAX_ROCK_VEL`.
pub fn create_rocks(num: usize, exclusion: Vec2, min_radius: i64, max_radius: i64) -> (rocks: Vec<
    Actor,
>)
    requires
        0 <= min_radius < max_radius <= MAX_SPAWN_RADIUS,
        -800_000_000 <= exclusion.x <= 800_000_000,
        -800_000_000 <= exclusion.y <= 800_000_000,
    ensures
        rocks@.len() == num,
        forall|k: int|
            0 <= k < num ==> spawned_rock_ok(
                #[trigger] rocks@[k],
                exclusion,
                min_radius as int,
                max_radius as int,
            ),
{
    let mut rocks: Vec<Actor> = Vec::new();
    let mut count: usize = 0;
    while count < num
        invariant
            count <= num,
            rocks@.len() == count,
            0 <= min_radius < max_radius <= MAX_SPAWN_RADIUS,
            -800_000_000 <= exclusion.x <= 800_000_000,
            -800_000_000 <= exclusion.y <= 800_000_000,
            forall|k: int|
                0 <= k < count ==> spawned_rock_ok(
                    #[trigger] rocks@[k],
                    exclusion,
                    min_radius as int,
                    max_radius as int,
                ),
        decreases num - count,
    {
        let mut rock = Actor::create_rock();
        let a_draw: u64 = rand::random::<u64>();
        let d_draw: u64 = rand::random::<u64>();
        let angle: i64 = (a_draw % (TURN_MRAD as u64)) as i64;
        let span: u64 = ((max_radius - min_radius) as u64) + 1;
        let d: i64 = min_radius + (d_draw % span) as i64;
        let off = scale_dir(angle, d);
        rock.pos = Vec2 { x: exclusion.x + off.x, y: exclusion.y + off.y };
        rock.velocity = random_vec(MAX_ROCK_VEL);
        proof {
            assert(rock.pos.x == exclusion.x + dir_scaled(angle as int, d as int).0);
            assert(in_ring(rock.pos, exclusion, min_radius as int, max_radius as int));
        }
        rocks.push(rock);
        count = count + 1;
    }
    rocks
}

/// Each component of a scaled direction is bounded by its magnitude.
pub proof fn lemma_dir_scaled_bounds(a: int, d: int)
    requires
        0 <= a < TURN_MRAD,
        0 <= d,
    ensures
        -d <= dir_scaled(a, d).0 <= d,
        -d <= dir_scaled(a, d).1 <= d,
{
    lemma_unit_from_angle_magnitude(a);
    let dx = unit_from_angle(a).0;
    let dy = unit_from_angle(a).1;
    assert(-(d * 1000) <= dx * d <= d * 1000 && -(d * 1000) <= dy * d <= d * 1000)
        by (nonlinear_arith)
        requires
            -1000 <= dx <= 1000,
            -1000 <= dy <= 1000,
            0 <= d,
    ;
    lemma_tdiv_magnitude_le(dx * d, SCALE as int, d);
    lemma_tdiv_magnitude_le(dy * d, SCALE as int, d);
}

/// The spawn-distance law: a position on the ring of radii
/// `[min_r, max_r]` around a center lies at squared distance at most
/// `max_r^2` from it, and (up to fixed-point rounding, less than a
/// third of a percent) at least `min_r^2`:
/// `1000000 * dist_sq >= 994005 * min_r^2`.
pub proof fn lemma_ring_distance(pos: Vec2, center: Vec2, min_r: int, max_r: int)
    requires
        in_ring(pos, center, min_r, max_r),
        SCALE <= min_r <= max_r,
    ensures
        dist_sq(pos, center) <= max_r * max_r,
        1_000_000 * dist_sq(pos, center) >= 994_005 * (min_r * min_r),
{
    let (a, d) = choose|a: int, d: int|
        0 <= a < TURN_MRAD && min_r <= d <= max_r
            && pos.x == center.x + #[trigger] dir_scaled(a, d).0
            && pos.y == center.y + dir_scaled(a, d).1;
    lemma_unit_from_angle_magnitude(a);
    let dx = unit_from_angle(a).0;
    let dy = unit_from_angle(a).1;
    let qx = tdiv(dx * d, SCALE as int);
    let qy = tdiv(dy * d, SCALE as int);
    assert(pos.x - center.x == qx && pos.y - center.y == qy);
    assert(dist_sq(pos, center) == qx * qx + qy * qy);
    lemma_tdiv_abs(dx * d, SCALE as int);
    lemma_tdiv_abs(dy * d, SCALE as int);
    let px = abs_i(qx);
    let py = abs_i(qy);
    let ax = abs_i(dx * d);
    let ay = abs_i(dy * d);
    assert(ax <= 1000 * d && ay <= 1000 * d) by (nonlinear_arith)
        requires
            -1000 <= dx <= 1000,
            -1000 <= dy <= 1000,
            d >= 0,
            ax == abs_i(dx * d),
            ay == abs_i(dy * d),
    ;
    assert(ax * ax + ay * ay >= 998_001 * (d * d) && ax * ax + ay * ay <= 1_000_000 * (d * d))
        by (nonlinear_arith)
        requires
            ax * ax == (dx * d) * (dx * d),
            ay * ay == (dy * d) * (dy * d),
            998_001 <= dx * dx + dy * dy <= 1_000_000,
            DIR_NORM_SQ_MIN == 998_001int,
    ;
    // Upper bound: each quotient magnitude is under the exact offset.
    assert((px * px + py * py) * 1_000_000 <= ax * ax + ay * ay) by (nonlinear_arith)
        requires
            px >= 0 && py >= 0 && ax >= 0 && ay >= 0,
            px * 1000 <= ax,
            py * 1000 <= ay,
    ;
    assert(px * px + py * py <= max_r * max_r) by (nonlinear_arith)
        requires
            (px * px + py * py) * 1_000_000 <= ax * ax + ay * ay,
            ax * ax + ay * ay <= 1_000_000 * (d * d),
            0 <= d <= max_r,
    ;
    // Lower bound: rounding loses at most SCALE - 1 per axis.
    let rx = ax - 1000 * px;
    let ry = ay - 1000 * py;
    assert(0 <= rx <= 999 && 0 <= ry <= 999);
    assert((1000 * px) * (1000 * px) + (1000 * py) * (1000 * py) >= ax * ax + ay * ay - 2 * 999 * (
    ax + ay)) by (nonlinear_arith)
        requires
            1000 * px == ax - rx,
            1000 * py == ay - ry,
            0 <= rx <= 999,
            0 <= ry <= 999,
            ax >= 0,
            ay >= 0,
    ;
    assert(1_000_000 * (px * px + py * py) >= 994_005 * (d * d)) by (nonlinear_arith)
        requires
            (1000 * px) * (1000 * px) + (1000 * py) * (1000 * py) >= ax * ax + ay * ay - 2 * 999 * (
            ax + ay),
            ax * ax + ay * ay >= 998_001 * (d * d),
            ax <= 1000 * d,
            ay <= 1000 * d,
            d >= 1000,
    ;
    assert(994_005 * (d * d) >= 994_005 * (min_r * min_r)) by (nonlinear_arith)
        requires
            0 <= min_r <= d,
    ;
    assert(px * px + py * py == qx * qx + qy * qy);
}

} // verus!
