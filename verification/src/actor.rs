use vstd::prelude::*;
use crate::vecmath::{Vec2, norm_sq, tdiv, is_sqrt_floor, sqrt_floor, lemma_sqrt_floor_is,
    lemma_tdiv_bounds, lemma_tdiv_magnitude_le, trunc_div_i64, isqrt, magnitude_squared};
use crate::trig::{TURN_MRAD, wrap_angle, unit_from_angle, vec_from_angle,
    lemma_unit_from_angle_magnitude, turn_angle};
use crate::{SCALE, TICKS_PER_SECOND};

verus! {

/// Velocity cap, in milli-pixels per second (250 px/s).
pub const MAX_PHYSICS_VEL: i64 = 250_000;

/// Player acceleration, in milli-pixels per second per second (100 px/s^2).
pub const PLAYER_THRUST: i64 = 100_000;

/// Player turn per tick, in milliradians (3 rad/s at 60 ticks per second).
pub const PLAYER_TURN_STEP: i64 = 50;

/// Shot speed, in milli-pixels per second (200 px/s).
pub const SHOT_SPEED: i64 = 200_000;

/// Cap on a rock's drift speed, in milli-pixels per second (50 px/s).
pub const MAX_ROCK_VEL: i64 = 50_000;

/// Starting hit points of the player.
pub const PLAYER_LIFE: i64 = 1;

/// Starting hit points of a rock.
pub const ROCK_LIFE: i64 = 1;

/// Ticks a shot lives before it expires (2 seconds).
pub const SHOT_LIFE_TICKS: i64 = 120;

/// Collision radius of the player, in milli-pixels (12 px).
pub const PLAYER_RADIUS: i64 = 12_000;

/// Collision radius of a rock, in milli-pixels (12 px).
pub const ROCK_RADIUS: i64 = 12_000;

/// Collision radius of a shot, in milli-pixels (6 px).
pub const SHOT_RADIUS: i64 = 6_000;

/// Well-formedness bound on a position component.
pub const POS_LIMIT: i64 = 1_000_000_000;

/// Well-formedness bound on a velocity component.
pub const VEL_LIMIT: i64 = 2_000_000;

/// Well-formedness bound on the magnitude of a life value.
pub const LIFE_LIMIT: i64 = 1_000_000_000;

/// What a simulated entity is; selects how its `life` field is read.
#[derive(Clone, Copy, Debug, PartialEq, Eq, Structural)]
pub enum ActorKind {
    Player,
    Rock,
    Shot,
}

/// A simulated entity. `life` is hit points for the player and for rocks
/// (death is marked by setting it to 0), and remaining ticks to live for
/// shots (decremented each tick; a shot dies at or below 0).
#[derive(Clone, Copy, Debug, PartialEq, Eq, Structural)]
pub struct Actor {
    pub kind: ActorKind,
    /// World position, milli-pixels, origin at the playfield center, +Y up.
    pub pos: Vec2,
    /// Facing angle, milliradians in `[0, TURN_MRAD)`; 0 points along +Y.
    pub facing: i64,
    /// Velocity, milli-pixels per second.
    pub velocity: Vec2,
    /// Spin applied to `facing` each tick, milliradians.
    pub ang_vel: i64,
    /// Collision radius, milli-pixels.
    pub radius: i64,
    pub life: i64,
}

impl Actor {
    /// Bounds under which every per-tick transform is overflow-free.
    pub open spec fn wf(self) -> bool {
        &&& 0 <= self.facing < TURN_MRAD
        &&& -TURN_MRAD < self.ang_vel < TURN_MRAD
        &&& 0 < self.radius <= 1_000_000
        &&& -POS_LIMIT <= self.pos.x <= POS_LIMIT
        &&& -POS_LIMIT <= self.pos.y <= POS_LIMIT
        &&& -VEL_LIMIT <= self.velocity.x <= VEL_LIMIT
        &&& -VEL_LIMIT <= self.velocity.y <= VEL_LIMIT
        &&& -LIFE_LIMIT <= self.life <= LIFE_LIMIT
    }
}

/// Per-tick velocity gain from thrust along a facing.
pub open spec fn thrust_delta(facing: int) -> (int, int) {
    (
        tdiv(unit_from_angle(facing).0 * PLAYER_THRUST, SCALE * TICKS_PER_SECOND),
        tdiv(unit_from_angle(facing).1 * PLAYER_THRUST, SCALE * TICKS_PER_SECOND),
    )
}

/// An actor after one tick of thrust along its facing.
pub open spec fn thrusted(a: Actor) -> Actor {
    Actor {
        velocity: Vec2 {
            x: (a.velocity.x + thrust_delta(a.facing as int).0) as i64,
            y: (a.velocity.y + thrust_delta(a.facing as int).1) as i64,
        },
        ..a
    }
}

/// A velocity clamped to magnitude `MAX_PHYSICS_VEL`: rescaled along its own
/// direction when its magnitude exceeds the cap, otherwise unchanged.
pub open spec fn clamped_velocity(v: Vec2) -> Vec2 {
    let sq = norm_sq(v.x as int, v.y as int);
    if sq > MAX_PHYSICS_VEL * MAX_PHYSICS_VEL {
        let m = sqrt_floor(sq);
        Vec2 {
            x: tdiv(v.x * MAX_PHYSICS_VEL, m) as i64,
            y: tdiv(v.y * MAX_PHYSICS_VEL, m) as i64,
        }
    } else {
        v
    }
}

/// An actor after one tick of motion: velocity clamped, position advanced by
/// one tick of the clamped velocity, facing advanced by the spin.
pub open spec fn integrated(a: Actor) -> Actor {
    let v = clamped_velocity(a.velocity);
    Actor {
        velocity: v,
        pos: Vec2 {
            x: (a.pos.x + tdiv(v.x as int, TICKS_PER_SECOND as int)) as i64,
            y: (a.pos.y + tdiv(v.y as int, TICKS_PER_SECOND as int)) as i64,
        },
        facing: wrap_angle(a.facing + a.ang_vel) as i64,
        ..a
    }
}

/// A coordinate corrected by at most one screen width toward the range
/// `[-w/2, w/2]`.
pub open spec fn wrap_coord(x: int, w: int) -> int {
    if x > w / 2 {
        x - w
    } else if x < -(w / 2) {
        x + w
    } else {
        x
    }
}

/// An actor with its position wrapped toroidally on a `w` by `h` screen.
pub open spec fn wrapped(a: Actor, w: int, h: int) -> Actor {
    Actor {
        pos: Vec2 {
            x: wrap_coord(a.pos.x as int, w) as i64,
            y: wrap_coord(a.pos.y as int, h) as i64,
        },
        ..a
    }
}

/// An actor after one tick of timed-life decay.
pub open spec fn decayed(a: Actor) -> Actor {
    Actor { life: (a.life - 1) as i64, ..a }
}

impl Actor {
    /// The player at game start: at the origin, facing up, at rest.
    pub fn create_player() -> (r: Actor)
        ensures
            r == (Actor {
                kind: ActorKind::Player,
                pos: Vec2 { x: 0, y: 0 },
                facing: 0,
                velocity: Vec2 { x: 0, y: 0 },
                ang_vel: 0,
                radius: PLAYER_RADIUS,
                life: PLAYER_LIFE,
            }),
            r.wf(),
    {
        Actor {
            kind: ActorKind::Player,
            pos: Vec2 { x: 0, y: 0 },
            facing: 0,
            velocity: Vec2 { x: 0, y: 0 },
            ang_vel: 0,
            radius: PLAYER_RADIUS,
            life: PLAYER_LIFE,
        }
    }

    /// A rock before the spawner positions it.
    pub fn create_rock() -> (r: Actor)
        ensures
            r == (Actor {
                kind: ActorKind::Rock,
                pos: Vec2 { x: 0, y: 0 },
                facing: 0,
                velocity: Vec2 { x: 0, y: 0 },
                ang_vel: 0,
                radius: ROCK_RADIUS,
                life: ROCK_LIFE,
            }),
            r.wf(),
    {
        Actor {
            kind: ActorKind::Rock,
            pos: Vec2 { x: 0, y: 0 },
            facing: 0,
            velocity: Vec2 { x: 0, y: 0 },
            ang_vel: 0,
            radius: ROCK_RADIUS,
            life: ROCK_LIFE,
        }
    }

    /// A shot before it is aimed; it lives `SHOT_LIFE_TICKS` ticks.
    pub fn create_shot() -> (r: Actor)
        ensures
            r == (Actor {
                kind: ActorKind::Shot,
                pos: Vec2 { x: 0, y: 0 },
                facing: 0,
                velocity: Vec2 { x: 0, y: 0 },
                ang_vel: 0,
                radius: SHOT_RADIUS,
                life: SHOT_LIFE_TICKS,
            }),
            r.wf(),
    {
        Actor {
            kind: ActorKind::Shot,
            pos: Vec2 { x: 0, y: 0 },
            facing: 0,
            velocity: Vec2 { x: 0, y: 0 },
            ang_vel: 0,
            radius: SHOT_RADIUS,
            life: SHOT_LIFE_TICKS,
        }
    }

    /// One tick of thrust: `velocity += unit(facing) * PLAYER_THRUST * dt`.
    pub fn player_thrust(actor: &mut Actor)
        requires
            old(actor).wf(),
            old(actor).kind == ActorKind::Player,
            -MAX_PHYSICS_VEL - 10_000 <= old(actor).velocity.x <= MAX_PHYSICS_VEL + 10_000,
            -MAX_PHYSICS_VEL - 10_000 <= old(actor).velocity.y <= MAX_PHYSICS_VEL + 10_000,
        ensures
            *final(actor) == thrusted(*old(actor)),
            final(actor).wf(),
            -MAX_PHYSICS_VEL - 12_000 <= final(actor).velocity.x <= MAX_PHYSICS_VEL + 12_000,
            -MAX_PHYSICS_VEL - 12_000 <= final(actor).velocity.y <= MAX_PHYSICS_VEL + 12_000,
    {
        proof {
            lemma_unit_from_angle_magnitude(actor.facing as int);
        }
        let dir = vec_from_angle(actor.facing);
        let dvx = trunc_div_i64(dir.x * PLAYER_THRUST, SCALE * TICKS_PER_SECOND);
        let dvy = trunc_div_i64(dir.y * PLAYER_THRUST, SCALE * TICKS_PER_SECOND);
        proof {
            lemma_tdiv_magnitude_le(dir.x * PLAYER_THRUST, SCALE * TICKS_PER_SECOND, 1667);
            lemma_tdiv_magnitude_le(dir.y * PLAYER_THRUST, SCALE * TICKS_PER_SECOND, 1667);
        }
        actor.velocity.x = actor.velocity.x + dvx;
        actor.velocity.y = actor.velocity.y + dvy;
    }

    /// One tick of motion. Clamps the velocity to `MAX_PHYSICS_VEL`
    /// (rescaling along its direction), advances the position by one tick of
    /// the clamped velocity, and advances the facing by the spin. The second
    /// ensures clause is the clamping law: after integration the squared
    /// speed is at most `(MAX_PHYSICS_VEL + 1)^2`.
    pub fn update_actor_position(actor: &mut Actor)
        requires
            old(actor).wf(),
            -999_000_000 <= old(actor).pos.x <= 999_000_000,
            -999_000_000 <= old(actor).pos.y <= 999_000_000,
        ensures
            *final(actor) == integrated(*old(actor)),
            norm_sq(final(actor).velocity.x as int, final(actor).velocity.y as int)
                <= (MAX_PHYSICS_VEL + 1) * (MAX_PHYSICS_VEL + 1),
            -(MAX_PHYSICS_VEL + 1) <= final(actor).velocity.x <= MAX_PHYSICS_VEL + 1,
            -(MAX_PHYSICS_VEL + 1) <= final(actor).velocity.y <= MAX_PHYSICS_VEL + 1,
            final(actor).pos.x - old(actor).pos.x <= 34_000,
            old(actor).pos.x - final(actor).pos.x <= 34_000,
            final(actor).pos.y - old(actor).pos.y <= 34_000,
            old(actor).pos.y - final(actor).pos.y <= 34_000,
            final(actor).facing == wrap_angle(old(actor).facing + old(actor).ang_vel),
            0 <= final(actor).facing < TURN_MRAD,
            final(actor).kind == old(actor).kind,
            final(actor).life == old(actor).life,
            final(actor).radius == old(actor).radius,
            final(actor).ang_vel == old(actor).ang_vel,
            final(actor).wf(),
    {
        let ghost pre = *actor;
        let sq: i64 = magnitude_squared(actor.velocity);
        proof {
            assert(0 <= sq as int <= 8_000_000_000_000) by (nonlinear_arith)
                requires
                    sq as int == norm_sq(actor.velocity.x as int, actor.velocity.y as int),
                    -VEL_LIMIT <= actor.velocity.x <= VEL_LIMIT,
                    -VEL_LIMIT <= actor.velocity.y <= VEL_LIMIT,
                    VEL_LIMIT == 2_000_000int,
            ;
        }
        if sq > MAX_PHYSICS_VEL * MAX_PHYSICS_VEL {
            let m64: u64 = isqrt(sq as u64);
            proof {
                lemma_sqrt_floor_is(sq as int, m64 as int);
                assert(m64 as int >= MAX_PHYSICS_VEL && m64 as int <= 3_000_000) by (nonlinear_arith)
                    requires
                        is_sqrt_floor(sq as int, m64 as int),
                        MAX_PHYSICS_VEL * MAX_PHYSICS_VEL < sq as int <= 8_000_000_000_000,
                        MAX_PHYSICS_VEL == 250_000int;
            }
            let m: i64 = m64 as i64;
            let nx: i64 = trunc_div_i64(actor.velocity.x * MAX_PHYSICS_VEL, m);
            let ny: i64 = trunc_div_i64(actor.velocity.y * MAX_PHYSICS_VEL, m);
            proof {
                lemma_clamped_norm(actor.velocity.x as int, actor.velocity.y as int, m as int);
            }
            actor.velocity.x = nx;
            actor.velocity.y = ny;
        } else {
            proof {
                assert(actor.velocity.x * actor.velocity.x >= 0
                    && actor.velocity.y * actor.velocity.y >= 0) by (nonlinear_arith);
                assert(-(MAX_PHYSICS_VEL + 1) <= actor.velocity.x <= MAX_PHYSICS_VEL + 1
                    && -(MAX_PHYSICS_VEL + 1) <= actor.velocity.y <= MAX_PHYSICS_VEL + 1)
                    by (nonlinear_arith)
                    requires
                        norm_sq(actor.velocity.x as int, actor.velocity.y as int)
                            <= MAX_PHYSICS_VEL * MAX_PHYSICS_VEL,
                        MAX_PHYSICS_VEL == 250_000int;
            }
        }
        assert(actor.velocity == clamped_velocity(pre.velocity));
        let dx = trunc_div_i64(actor.velocity.x, TICKS_PER_SECOND);
        let dy = trunc_div_i64(actor.velocity.y, TICKS_PER_SECOND);
        proof {
            lemma_tdiv_magnitude_le(actor.velocity.x as int, TICKS_PER_SECOND as int, 34_000);
            lemma_tdiv_magnitude_le(actor.velocity.y as int, TICKS_PER_SECOND as int, 34_000);
        }
        actor.pos.x = actor.pos.x + dx;
        actor.pos.y = actor.pos.y + dy;
        actor.facing = turn_angle(actor.facing, actor.ang_vel);
    }

    /// Toroidal wrap: a position more than half a screen out along an axis is
    /// corrected by one full screen width or height along that axis. A single
    /// correction suffices, since one tick moves an actor much less than a
    /// screen.
    pub fn wrap_actor_position(actor: &mut Actor, sx: i64, sy: i64)
        requires
            old(actor).wf(),
            10_000 <= sx <= 100_000_000,
            10_000 <= sy <= 100_000_000,
            sx % 2 == 0,
            sy % 2 == 0,
        ensures
            *final(actor) == wrapped(*old(actor), sx as int, sy as int),
            final(actor).wf(),
            -(sx / 2) - sx <= old(actor).pos.x <= sx / 2 + sx
                ==> -(sx / 2) <= final(actor).pos.x <= sx / 2,
            -(sy / 2) - sy <= old(actor).pos.y <= sy / 2 + sy
                ==> -(sy / 2) <= final(actor).pos.y <= sy / 2,
    {
        let hx: i64 = ((sx as u64) / 2) as i64;
        let hy: i64 = ((sy as u64) / 2) as i64;
        if actor.pos.x > hx {
            actor.pos.x = actor.pos.x - sx;
        } else if actor.pos.x < -hx {
            actor.pos.x = actor.pos.x + sx;
        }
        if actor.pos.y > hy {
            actor.pos.y = actor.pos.y - sy;
        } else if actor.pos.y < -hy {
            actor.pos.y = actor.pos.y + sy;
        }
    }

    /// One tick of timed-life decay: `life -= dt`, in ticks.
    pub fn handle_timed_life(actor: &mut Actor)
        requires
            old(actor).life > -LIFE_LIMIT,
        ensures
            *final(actor) == decayed(*old(actor)),
    {
        actor.life = actor.life - 1;
    }
}

/// The wrap law: wrapping a position already within bounds changes nothing.
pub proof fn lemma_wrap_idempotent(a: Actor, w: int, h: int)
    requires
        w >= 2,
        h >= 2,
        -(w / 2) <= a.pos.x <= w / 2,
        -(h / 2) <= a.pos.y <= h / 2,
    ensures
        wrapped(a, w, h) == a,
{
}

/// Rescaling a velocity of magnitude `m` down to `MAX_PHYSICS_VEL` leaves a
/// squared magnitude of at most `(MAX_PHYSICS_VEL + 1)^2`.
proof fn lemma_clamped_norm(vx: int, vy: int, m: int)
    requires
        m >= MAX_PHYSICS_VEL,
        m * m <= vx * vx + vy * vy,
        vx * vx + vy * vy < (m + 1) * (m + 1),
    ensures
        norm_sq(tdiv(vx * MAX_PHYSICS_VEL, m), tdiv(vy * MAX_PHYSICS_VEL, m))
            <= (MAX_PHYSICS_VEL + 1) * (MAX_PHYSICS_VEL + 1),
        -(MAX_PHYSICS_VEL + 1) <= tdiv(vx * MAX_PHYSICS_VEL, m) <= MAX_PHYSICS_VEL + 1,
        -(MAX_PHYSICS_VEL + 1) <= tdiv(vy * MAX_PHYSICS_VEL, m) <= MAX_PHYSICS_VEL + 1,
{
    let k = MAX_PHYSICS_VEL as int;
    let qx = tdiv(vx * k, m);
    let qy = tdiv(vy * k, m);
    lemma_tdiv_bounds(vx * k, m);
    lemma_tdiv_bounds(vy * k, m);
    assert(qx * qx * (m * m) <= (vx * vx) * (k * k)) by (nonlinear_arith)
        requires
            m > 0,
            k > 0,
            vx * k >= 0 ==> qx >= 0 && qx * m <= vx * k,
            vx * k < 0 ==> qx <= 0 && (-qx) * m <= -(vx * k),
            qx == tdiv(vx * k, m),
    ;
    assert(qy * qy * (m * m) <= (vy * vy) * (k * k)) by (nonlinear_arith)
        requires
            m > 0,
            k > 0,
            vy * k >= 0 ==> qy >= 0 && qy * m <= vy * k,
            vy * k < 0 ==> qy <= 0 && (-qy) * m <= -(vy * k),
            qy == tdiv(vy * k, m),
    ;
    assert((qx * qx + qy * qy) * (m * m) < (m * m) * ((k + 1) * (k + 1))) by (nonlinear_arith)
        requires
            m >= k,
            k > 0,
            qx * qx * (m * m) <= (vx * vx) * (k * k),
            qy * qy * (m * m) <= (vy * vy) * (k * k),
            vx * vx + vy * vy < (m + 1) * (m + 1),
    ;
    assert(qx * qx + qy * qy < (k + 1) * (k + 1)) by (nonlinear_arith)
        requires
            m > 0,
            (qx * qx + qy * qy) * (m * m) < (m * m) * ((k + 1) * (k + 1)),
    ;
    assert(-(k + 1) <= qx <= k + 1 && -(k + 1) <= qy <= k + 1) by (nonlinear_arith)
        requires
            k > 0,
            qx * qx + qy * qy < (k + 1) * (k + 1),
    ;
}

} // verus!
