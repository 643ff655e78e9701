use vstd::prelude::*;
use crate::vecmath::{Vec2, dist_sq, distance_squared};
use crate::trig::{TURN_MRAD, wrap_angle, turn_angle, unit_from_angle, vec_from_angle,
    lemma_unit_from_angle_magnitude};
use crate::actor::{Actor, ActorKind, thrusted, integrated, wrapped, decayed, MAX_PHYSICS_VEL,
    PLAYER_TURN_STEP, SHOT_SPEED, PLAYER_RADIUS, ROCK_RADIUS, SHOT_RADIUS,
    SHOT_LIFE_TICKS, PLAYER_LIFE, ROCK_LIFE};
use crate::spawner::{create_rocks, spawned_rock_ok, dir_scaled};
use crate::SCALE;

verus! {

/// Ticks between shots (0.5 seconds).
pub const PLAYER_SHOT_TICKS: i64 = 30;

/// Rocks present at level 0.
pub const STARTING_ROCKS: usize = 5;

/// Closest radial distance at which rocks spawn around the player (100 px).
pub const ROCK_MIN_DIST: i64 = 100_000;

/// Farthest radial distance at which rocks spawn around the player (250 px).
pub const ROCK_MAX_DIST: i64 = 250_000;

/// Smallest accepted screen dimension, in milli-pixels (100 px).
pub const MIN_SCREEN_DIM: i64 = 100_000;

/// Largest accepted screen dimension, in milli-pixels (100000 px).
pub const MAX_SCREEN_DIM: i64 = 100_000_000;

/// A per-tick snapshot of control intent, rebuilt from the input device
/// every tick. `xaxis` is the turn axis (-1, 0 or 1), `yaxis` the thrust
/// axis (0 or 1).
#[derive(Clone, Copy, Debug, PartialEq, Eq, Structural)]
pub struct InputState {
    pub xaxis: i64,
    pub yaxis: i64,
    pub fire: bool,
}

impl InputState {
    /// The axes hold only the values a control device produces.
    pub open spec fn valid(self) -> bool {
        &&& (self.xaxis == -1 || self.xaxis == 0 || self.xaxis == 1)
        &&& (self.yaxis == 0 || self.yaxis == 1)
    }
}

impl Default for InputState {
    /// The neutral snapshot: no turn, no thrust, no fire.
    fn default() -> (r: Self)
        ensures
            r.xaxis == 0,
            r.yaxis == 0,
            !r.fire,
            r.valid(),
    {
        InputState { xaxis: 0, yaxis: 0, fire: false }
    }
}

/// What one tick reported to the shell: whether a shot was fired, and how
/// many rocks were hit, for sound playback.
#[derive(Clone, Copy, Debug, PartialEq, Eq, Structural)]
pub struct TickEvents {
    pub fired: bool,
    pub hits: u64,
}

/// A player's facing after one tick of turn input, then one tick of thrust
/// if the thrust axis is pressed.
pub open spec fn input_applied(p: Actor, input: InputState) -> Actor {
    let turned = Actor { facing: wrap_angle(p.facing + PLAYER_TURN_STEP * input.xaxis) as i64, ..p };
    if input.yaxis > 0 {
        thrusted(turned)
    } else {
        turned
    }
}

/// The shot-cooldown timer after one tick: it counts down and rests at -1.
pub open spec fn ticked_cooldown(c: int) -> int {
    if c > -1 {
        c - 1
    } else {
        -1
    }
}

/// The shot fired by a player: at the player's position and facing, moving
/// at `SHOT_SPEED` along the facing.
pub open spec fn new_shot_of(p: Actor) -> Actor {
    Actor {
        kind: ActorKind::Shot,
        pos: p.pos,
        facing: p.facing,
        velocity: Vec2 {
            x: (unit_from_angle(p.facing as int).0 * (SHOT_SPEED / SCALE)) as i64,
            y: (unit_from_angle(p.facing as int).1 * (SHOT_SPEED / SCALE)) as i64,
        },
        ang_vel: 0,
        radius: SHOT_RADIUS,
        life: SHOT_LIFE_TICKS,
    }
}

/// A shot after one tick: moved, wrapped, and its time to live decayed.
pub open spec fn moved_shot(a: Actor, w: int, h: int) -> Actor {
    decayed(wrapped(integrated(a), w, h))
}

/// A sequence with only the live actors (life > 0) kept, in order.
pub open spec fn live_seq(s: Seq<Actor>) -> Seq<Actor>
    decreases s.len(),
{
    if s.len() == 0 {
        Seq::empty()
    } else if s.last().life > 0 {
        live_seq(s.drop_last()).push(s.last())
    } else {
        live_seq(s.drop_last())
    }
}

/// Culling keeps any property that each element of a sequence has.
pub proof fn lemma_live_seq_preserves(s: Seq<Actor>, p: spec_fn(Actor) -> bool)
    requires
        forall|i: int| 0 <= i < s.len() ==> p(#[trigger] s[i]),
    ensures
        live_seq(s).len() <= s.len(),
        forall|k: int| 0 <= k < live_seq(s).len() ==> p(#[trigger] live_seq(s)[k]),
        forall|k: int| 0 <= k < live_seq(s).len() ==> live_seq(s)[k].life > 0,
    decreases s.len(),
{
    if s.len() > 0 {
        assert(forall|i: int| 0 <= i < s.drop_last().len() ==> p(#[trigger] s.drop_last()[i]));
        lemma_live_seq_preserves(s.drop_last(), p);
    }
}

/// Culling a sequence of only dead actors leaves nothing.
pub proof fn lemma_live_seq_all_dead(s: Seq<Actor>)
    requires
        forall|i: int| 0 <= i < s.len() ==> #[trigger] s[i].life <= 0,
    ensures
        live_seq(s).len() == 0,
    decreases s.len(),
{
    if s.len() > 0 {
        assert(forall|i: int| 0 <= i < s.drop_last().len() ==> #[trigger] s.drop_last()[i].life
            <= 0);
        lemma_live_seq_all_dead(s.drop_last());
    }
}

/// The world: the player, every shot and rock, the counters, and the
/// screen configuration. Owns all actors exclusively.
pub struct GameState {
    pub player: Actor,
    pub shots: Vec<Actor>,
    pub rocks: Vec<Actor>,
    pub level: u32,
    pub score: u64,
    /// Screen width, milli-pixels. Even, so that half the screen is exact.
    pub screen_width: i64,
    /// Screen height, milli-pixels.
    pub screen_height: i64,
    /// Ticks until firing is allowed again; firing needs a negative value.
    pub player_shot_timeout: i64,
}

/// An actor's position lies within the screen, with `slack` of leeway on
/// each axis.
pub open spec fn in_field(a: Actor, w: int, h: int, slack: int) -> bool {
    &&& -(w / 2) - slack <= a.pos.x <= w / 2 + slack
    &&& -(h / 2) - slack <= a.pos.y <= h / 2 + slack
}

/// Per-actor velocity bound the world maintains: one unit above the clamp.
pub open spec fn vel_bounded(a: Actor) -> bool {
    &&& -(MAX_PHYSICS_VEL + 1) <= a.velocity.x <= MAX_PHYSICS_VEL + 1
    &&& -(MAX_PHYSICS_VEL + 1) <= a.velocity.y <= MAX_PHYSICS_VEL + 1
}

impl GameState {
    /// Screen configuration bounds.
    pub open spec fn screen_wf(self) -> bool {
        &&& MIN_SCREEN_DIM <= self.screen_width <= MAX_SCREEN_DIM
        &&& MIN_SCREEN_DIM <= self.screen_height <= MAX_SCREEN_DIM
        &&& self.screen_width % 2 == 0
        &&& self.screen_height % 2 == 0
    }

    /// The world invariant: every actor is well formed, of the right kind
    /// and radius, within its positional bounds, and every life and timer
    /// is in its range.
    pub open spec fn wf(self) -> bool {
        let w = self.screen_width as int;
        let h = self.screen_height as int;
        &&& self.screen_wf()
        &&& self.player.wf()
        &&& self.player.kind == ActorKind::Player
        &&& self.player.radius == PLAYER_RADIUS
        &&& in_field(self.player, w, h, 0)
        &&& 0 <= self.player.life <= PLAYER_LIFE
        &&& vel_bounded(self.player)
        &&& forall|j: int| 0 <= j < self.shots@.len() ==> (#[trigger] self.shots@[j]).wf()
        &&& forall|j: int| 0 <= j < self.shots@.len() ==> (#[trigger] self.shots@[j]).kind
            == ActorKind::Shot
        &&& forall|j: int| 0 <= j < self.shots@.len() ==> (#[trigger] self.shots@[j]).radius
            == SHOT_RADIUS
        &&& forall|j: int| 0 <= j < self.shots@.len() ==> in_field(#[trigger] self.shots@[j], w, h, 0)
        &&& forall|j: int| 0 <= j < self.shots@.len() ==> 0 <= (#[trigger] self.shots@[j]).life
            <= SHOT_LIFE_TICKS
        &&& forall|j: int| 0 <= j < self.shots@.len() ==> vel_bounded(#[trigger] self.shots@[j])
        &&& forall|i: int| 0 <= i < self.rocks@.len() ==> (#[trigger] self.rocks@[i]).wf()
        &&& forall|i: int| 0 <= i < self.rocks@.len() ==> (#[trigger] self.rocks@[i]).kind
            == ActorKind::Rock
        &&& forall|i: int| 0 <= i < self.rocks@.len() ==> (#[trigger] self.rocks@[i]).radius
            == ROCK_RADIUS
        &&& forall|i: int| 0 <= i < self.rocks@.len() ==> in_field(
            #[trigger] self.rocks@[i],
            w,
            h,
            ROCK_MAX_DIST as int,
        )
        &&& forall|i: int| 0 <= i < self.rocks@.len() ==> 0 <= (#[trigger] self.rocks@[i]).life
            <= ROCK_LIFE
        &&& forall|i: int| 0 <= i < self.rocks@.len() ==> vel_bounded(#[trigger] self.rocks@[i])
        &&& -1 <= self.player_shot_timeout <= PLAYER_SHOT_TICKS
    }

    /// The terminal signal: the game is over once the player's life is gone.
    /// The state is absorbing — nothing in the simulation restores life.
    pub fn is_game_over(&self) -> (r: bool)
        ensures
            r == (self.player.life <= 0),
    {
        self.player.life <= 0
    }

    /// A new world: the player at the origin facing up, no shots, five rocks
    /// spawned around the player at radial distance 100 to 250 px, level and
    /// score zero, and firing allowed at once.
    pub fn new(screen_width: i64, screen_height: i64) -> (s: GameState)
        requires
            MIN_SCREEN_DIM <= screen_width <= MAX_SCREEN_DIM,
            MIN_SCREEN_DIM <= screen_height <= MAX_SCREEN_DIM,
            screen_width % 2 == 0,
            screen_height % 2 == 0,
        ensures
            s.wf(),
            s.player.kind == ActorKind::Player,
            s.player.pos == (Vec2 { x: 0, y: 0 }),
            s.player.facing == 0,
            s.player.velocity == (Vec2 { x: 0, y: 0 }),
            s.player.ang_vel == 0,
            s.player.radius == PLAYER_RADIUS,
            s.player.life == PLAYER_LIFE,
            s.shots@.len() == 0,
            s.rocks@.len() == STARTING_ROCKS,
            forall|k: int| 0 <= k < s.rocks@.len() ==> spawned_rock_ok(
                #[trigger] s.rocks@[k],
                s.player.pos,
                ROCK_MIN_DIST as int,
                ROCK_MAX_DIST as int,
            ),
            s.level == 0,
            s.score == 0,
            s.player_shot_timeout == 0,
            s.screen_width == screen_width,
            s.screen_height == screen_height,
    {
        let player = Actor::create_player();
        let rocks = create_rocks(STARTING_ROCKS, player.pos, ROCK_MIN_DIST, ROCK_MAX_DIST);
        proof {
            lemma_spawned_rocks_in_field(
                rocks@,
                player.pos,
                screen_width as int,
                screen_height as int,
            );
        }
        GameState {
            player,
            shots: Vec::new(),
            rocks,
            level: 0,
            score: 0,
            screen_width,
            screen_height,
            player_shot_timeout: 0,
        }
    }

    /// Fire a shot from the player's current position along its facing, and
    /// start the cooldown.
    pub fn fire_player_shot(&mut self)
        requires
            old(self).player.wf(),
            old(self).shots@.len() < 100_000_000,
        ensures
            final(self).shots@ == old(self).shots@.push(new_shot_of(old(self).player)),
            final(self).player_shot_timeout == PLAYER_SHOT_TICKS,
            final(self).player == old(self).player,
            final(self).rocks@ == old(self).rocks@,
            final(self).level == old(self).level,
            final(self).score == old(self).score,
            final(self).screen_width == old(self).screen_width,
            final(self).screen_height == old(self).screen_height,
    {
        self.player_shot_timeout = PLAYER_SHOT_TICKS;
        let mut shot = Actor::create_shot();
        shot.pos = self.player.pos;
        shot.facing = self.player.facing;
        proof {
            lemma_unit_from_angle_magnitude(self.player.facing as int);
        }
        let direction = vec_from_angle(shot.facing);
        let speed: i64 = ((SHOT_SPEED as u64) / (SCALE as u64)) as i64;
        assert(speed == SHOT_SPEED / SCALE && speed == 200);
        proof {
            assert(speed * direction.x == 200 * direction.x && speed * direction.y == 200
                * direction.y) by (nonlinear_arith)
                requires speed == 200int;
        }
        shot.velocity = Vec2 { x: speed * direction.x, y: speed * direction.y };
        proof {
            let p = old(self).player;
            let ux = unit_from_angle(p.facing as int).0;
            let uy = unit_from_angle(p.facing as int).1;
            let c: int = SHOT_SPEED / SCALE;
            assert(c == 200);
            assert(ux * c == 200 * ux && uy * c == 200 * uy) by (nonlinear_arith)
                requires c == 200int;
            assert(shot == new_shot_of(p));
        }
        self.shots.push(shot);
    }

    /// Remove every shot and rock whose life is gone — both expired shots
    /// and destroyed actors share the `life <= 0` test.
    pub fn clear_dead_stuff(&mut self)
        ensures
            final(self).shots@ == live_seq(old(self).shots@),
            final(self).rocks@ == live_seq(old(self).rocks@),
            final(self).player == old(self).player,
            final(self).level == old(self).level,
            final(self).score == old(self).score,
            final(self).screen_width == old(self).screen_width,
            final(self).screen_height == old(self).screen_height,
            final(self).player_shot_timeout == old(self).player_shot_timeout,
    {
        let shots = retain_live(&self.shots);
        let rocks = retain_live(&self.rocks);
        self.shots = shots;
        self.rocks = rocks;
    }

    /// If no rock is left, go up a level and spawn `level + 5` fresh rocks
    /// around the player's current position.
    pub fn check_for_level_respawn(&mut self)
        requires
            old(self).wf(),
            old(self).level < 1_000_000_000,
        ensures
            old(self).rocks@.len() > 0 ==> *final(self) == *old(self),
            old(self).rocks@.len() == 0 ==> {
                &&& final(self).level == old(self).level + 1
                &&& final(self).rocks@.len() == old(self).level + 6
                &&& forall|k: int| 0 <= k < final(self).rocks@.len() ==> spawned_rock_ok(
                    #[trigger] final(self).rocks@[k],
                    old(self).player.pos,
                    ROCK_MIN_DIST as int,
                    ROCK_MAX_DIST as int,
                )
            },
            final(self).player == old(self).player,
            final(self).shots@ == old(self).shots@,
            final(self).score == old(self).score,
            final(self).level >= old(self).level,
            final(self).screen_width == old(self).screen_width,
            final(self).screen_height == old(self).screen_height,
            final(self).player_shot_timeout == old(self).player_shot_timeout,
            final(self).wf(),
    {
        if self.rocks.len() == 0 {
            self.level = self.level + 1;
            let count: usize = (self.level as usize) + 5;
            let r = create_rocks(count, self.player.pos, ROCK_MIN_DIST, ROCK_MAX_DIST);
            proof {
                lemma_spawned_rocks_in_field(
                    r@,
                    self.player.pos,
                    self.screen_width as int,
                    self.screen_height as int,
                );
            }
            self.rocks = r;
        }
    }
}

/// Two actors collide when their centers are closer than the sum of their
/// collision radii (circle test).
pub open spec fn in_collision(a: Actor, b: Actor) -> bool {
    dist_sq(a.pos, b.pos) < (a.radius + b.radius) * (a.radius + b.radius)
}

/// An actor marked dead: its life set to 0, everything else kept.
pub open spec fn killed(a: Actor) -> Actor {
    Actor { life: 0, ..a }
}

/// Some shot collides with this rock.
pub open spec fn rock_hit(shots: Seq<Actor>, rock: Actor) -> bool {
    exists|j: int| 0 <= j < shots.len() && in_collision(#[trigger] shots[j], rock)
}

/// The first shot index at or after `j` that collides with the rock, or the
/// length of the sequence when none does.
pub open spec fn first_hit_from(shots: Seq<Actor>, rock: Actor, j: int) -> int
    decreases shots.len() - j when 0 <= j <= shots.len()
{
    if j >= shots.len() {
        shots.len() as int
    } else if in_collision(shots[j], rock) {
        j
    } else {
        first_hit_from(shots, rock, j + 1)
    }
}

/// The first shot index that collides with the rock: ties between shots on
/// one rock resolve to the earliest shot.
pub open spec fn first_hit(shots: Seq<Actor>, rock: Actor) -> int {
    first_hit_from(shots, rock, 0)
}

/// Shot `j` is spent on one of the first `n` rocks: it is the first shot to
/// collide with that rock.
pub open spec fn shot_spent_upto(shots: Seq<Actor>, rocks: Seq<Actor>, j: int, n: int) -> bool {
    exists|i: int|
        0 <= i < n && rock_hit(shots, #[trigger] rocks[i]) && first_hit(shots, rocks[i]) == j
}

/// Shot `j` is spent on some rock.
pub open spec fn shot_spent(shots: Seq<Actor>, rocks: Seq<Actor>, j: int) -> bool {
    shot_spent_upto(shots, rocks, j, rocks.len() as int)
}

/// One of the first `n` rocks collides with the player.
pub open spec fn player_hit_upto(rocks: Seq<Actor>, player: Actor, n: int) -> bool {
    exists|i: int| 0 <= i < n && in_collision(player, #[trigger] rocks[i])
}

/// Some rock collides with the player.
pub open spec fn player_hit(rocks: Seq<Actor>, player: Actor) -> bool {
    player_hit_upto(rocks, player, rocks.len() as int)
}

/// How many of the first `n` rocks are hit by some shot.
pub open spec fn hit_count_upto(rocks: Seq<Actor>, shots: Seq<Actor>, n: int) -> nat
    decreases n,
{
    if n <= 0 {
        0
    } else {
        hit_count_upto(rocks, shots, n - 1) + (if rock_hit(shots, rocks[n - 1]) {
            1nat
        } else {
            0nat
        })
    }
}

/// How many rocks are hit by some shot — the score gained in one tick.
pub open spec fn hit_count(rocks: Seq<Actor>, shots: Seq<Actor>) -> nat {
    hit_count_upto(rocks, shots, rocks.len() as int)
}

/// The rocks after one collision pass: every rock some shot collides with is
/// marked dead; the rest are untouched.
pub open spec fn rocks_after_hits(rocks: Seq<Actor>, shots: Seq<Actor>) -> Seq<Actor> {
    Seq::new(
        rocks.len(),
        |i: int|
            if rock_hit(shots, rocks[i]) {
                killed(rocks[i])
            } else {
                rocks[i]
            },
    )
}

/// The shots after one collision pass: every shot that is the first to
/// collide with some rock is marked dead; the rest are untouched.
pub open spec fn shots_after_hits(shots: Seq<Actor>, rocks: Seq<Actor>) -> Seq<Actor> {
    Seq::new(
        shots.len(),
        |j: int|
            if shot_spent(shots, rocks, j) {
                killed(shots[j])
            } else {
                shots[j]
            },
    )
}

/// If shot `j` collides with the rock and no earlier one does, `j` is the
/// first hit.
proof fn lemma_first_hit_found(shots: Seq<Actor>, rock: Actor, k: int, j: int)
    requires
        0 <= k <= j < shots.len(),
        in_collision(shots[j], rock),
        forall|jj: int| k <= jj < j ==> !in_collision(#[trigger] shots[jj], rock),
    ensures
        first_hit_from(shots, rock, k) == j,
    decreases j - k,
{
    if k < j {
        lemma_first_hit_found(shots, rock, k + 1, j);
    }
}

/// If no shot at or after `k` collides with the rock, there is no first hit.
proof fn lemma_first_hit_none(shots: Seq<Actor>, rock: Actor, k: int)
    requires
        0 <= k <= shots.len(),
        forall|jj: int| k <= jj < shots.len() ==> !in_collision(#[trigger] shots[jj], rock),
    ensures
        first_hit_from(shots, rock, k) == shots.len(),
    decreases shots.len() - k,
{
    if k < shots.len() {
        lemma_first_hit_none(shots, rock, k + 1);
    }
}

/// A tick scores at most one point per rock.
pub proof fn lemma_hit_count_le(rocks: Seq<Actor>, shots: Seq<Actor>, n: int)
    requires
        0 <= n <= rocks.len(),
    ensures
        hit_count_upto(rocks, shots, n) <= n,
    decreases n,
{
    if n > 0 {
        lemma_hit_count_le(rocks, shots, n - 1);
    }
}

/// The collision law, on a single rock and a single shot whose centers are
/// within the sum of their radii: one collision pass marks both dead and
/// scores exactly one point.
pub proof fn lemma_collision_pair(rock: Actor, shot: Actor)
    requires
        in_collision(shot, rock),
    ensures
        rock_hit(seq![shot], rock),
        rocks_after_hits(seq![rock], seq![shot])[0] == killed(rock),
        shots_after_hits(seq![shot], seq![rock])[0] == killed(shot),
        hit_count(seq![rock], seq![shot]) == 1,
{
    assert(seq![shot][0] == shot);
    assert(seq![rock][0] == rock);
    assert(in_collision(seq![shot][0], rock));
    assert(rock_hit(seq![shot], rock));
    assert(first_hit(seq![shot], rock) == 0);
    assert(rock_hit(seq![shot], seq![rock][0]) && first_hit(seq![shot], seq![rock][0]) == 0);
    assert(shot_spent(seq![shot], seq![rock], 0));
    assert(hit_count_upto(seq![rock], seq![shot], 1) == hit_count_upto(seq![rock], seq![shot], 0)
        + 1);
}

impl GameState {
    /// One collision pass, in rock order. For each rock: a rock touching the
    /// player marks the player dead; the first shot within collision range of
    /// the rock (if any) and the rock are both marked dead and one point is
    /// scored. Lives are only ever set to 0 — positions never change here.
    #[verifier::loop_isolation(false)]
    pub fn handle_collision(&mut self) -> (hits: u64)
        requires
            collision_safe(*old(self)),
            old(self).score + old(self).rocks@.len() <= u64::MAX,
        ensures
            final(self).rocks@ == rocks_after_hits(old(self).rocks@, old(self).shots@),
            final(self).shots@ == shots_after_hits(old(self).shots@, old(self).rocks@),
            final(self).player == (if player_hit(old(self).rocks@, old(self).player) {
                killed(old(self).player)
            } else {
                old(self).player
            }),
            hits == hit_count(old(self).rocks@, old(self).shots@),
            hits <= old(self).rocks@.len(),
            final(self).score == old(self).score + hits,
            final(self).level == old(self).level,
            final(self).screen_width == old(self).screen_width,
            final(self).screen_height == old(self).screen_height,
            final(self).player_shot_timeout == old(self).player_shot_timeout,
    {
        let ghost shots0 = old(self).shots@;
        let ghost rocks0 = old(self).rocks@;
        let mut hits: u64 = 0;
        let mut i: usize = 0;
        while i < self.rocks.len()
            invariant
                i <= rocks0.len(),
                self.rocks@.len() == rocks0.len(),
                self.shots@.len() == shots0.len(),
                forall|ii: int|
                    0 <= ii < rocks0.len() ==> #[trigger] self.rocks@[ii] == if ii < i
                        && rock_hit(shots0, rocks0[ii]) {
                        killed(rocks0[ii])
                    } else {
                        rocks0[ii]
                    },
                forall|jj: int|
                    0 <= jj < shots0.len() ==> #[trigger] self.shots@[jj] == if shot_spent_upto(
                        shots0,
                        rocks0,
                        jj,
                        i as int,
                    ) {
                        killed(shots0[jj])
                    } else {
                        shots0[jj]
                    },
                self.player == (if player_hit_upto(rocks0, old(self).player, i as int) {
                    killed(old(self).player)
                } else {
                    old(self).player
                }),
                hits == hit_count_upto(rocks0, shots0, i as int),
                hits <= i,
                self.score == old(self).score + hits,
                self.level == old(self).level,
                self.screen_width == old(self).screen_width,
                self.screen_height == old(self).screen_height,
                self.player_shot_timeout == old(self).player_shot_timeout,
            decreases rocks0.len() - i,
        {
            let ghost rock_orig = rocks0[i as int];
            let rock_pos = self.rocks[i].pos;
            let rock_rad = self.rocks[i].radius;
            proof {
                assert(rock_pos == rock_orig.pos && rock_rad == rock_orig.radius);
            }
            // Player-rock contact.
            let d2 = distance_squared(self.player.pos, rock_pos);
            let rsum = self.player.radius + rock_rad;
            let ghost player_was = self.player;
            proof {
                assert(0 <= rsum * rsum <= 4_000_000_000_000) by (nonlinear_arith)
                    requires 0 <= rsum <= 2_000_000;
            }
            if d2 < rsum * rsum {
                proof {
                    assert(in_collision(old(self).player, rock_orig));
                }
                self.player.life = 0;
                proof {
                    assert(self.player == killed(old(self).player));
                    assert(player_hit_upto(rocks0, old(self).player, i + 1));
                }
            } else {
                proof {
                    assert(!in_collision(old(self).player, rock_orig));
                }
            }
            // First shot within range of this rock.
            let mut j: usize = 0;
            let mut struck: bool = false;
            while j < self.shots.len() && !struck
                invariant
                    0 <= j <= shots0.len(),
                    forall|jj: int|
                        0 <= jj < j ==> !in_collision(#[trigger] shots0[jj], rock_orig),
                    struck ==> j < shots0.len() && in_collision(shots0[j as int], rock_orig),
                decreases shots0.len() - j + (if struck { 0int } else { 1int }),
            {
                let s = self.shots[j];
                proof {
                    assert(s.pos == shots0[j as int].pos && s.radius == shots0[j as int].radius);
                }
                let d2s = distance_squared(s.pos, rock_pos);
                let rs = s.radius + rock_rad;
                proof {
                    assert(0 <= rs * rs <= 4_000_000_000_000) by (nonlinear_arith)
                        requires 0 <= rs <= 2_000_000;
                }
                if d2s < rs * rs {
                    struck = true;
                    proof {
                        assert(in_collision(shots0[j as int], rock_orig));
                    }
                } else {
                    proof {
                        assert(!in_collision(shots0[j as int], rock_orig));
                    }
                    j = j + 1;
                }
            }
            if struck {
                proof {
                    lemma_first_hit_found(shots0, rock_orig, 0, j as int);
                    assert(rock_hit(shots0, rock_orig));
                }
                let mut sj = self.shots[j];
                sj.life = 0;
                self.shots.set(j, sj);
                let mut ri = self.rocks[i];
                ri.life = 0;
                self.rocks.set(i, ri);
                self.score = self.score + 1;
                hits = hits + 1;
                proof {
                    assert(self.shots@[j as int] == killed(shots0[j as int]));
                    assert(self.rocks@[i as int] == killed(rocks0[i as int]));
                    assert(shot_spent_upto(shots0, rocks0, j as int, i + 1));
                    assert forall|jj: int|
                        0 <= jj < shots0.len() && jj != j implies (shot_spent_upto(
                        shots0,
                        rocks0,
                        jj,
                        i + 1,
                    ) == shot_spent_upto(shots0, rocks0, jj, i as int)) by {
                        if shot_spent_upto(shots0, rocks0, jj, i + 1) {
                            let w = choose|w: int|
                                0 <= w < i + 1 && rock_hit(shots0, #[trigger] rocks0[w])
                                    && first_hit(shots0, rocks0[w]) == jj;
                            assert(w < i || w == i);
                            if w == i {
                                assert(first_hit(shots0, rocks0[w]) == j as int);
                                assert(false);
                            }
                        }
                    }
                }
            } else {
                proof {
                    lemma_first_hit_none(shots0, rock_orig, 0);
                    assert(!rock_hit(shots0, rock_orig));
                    assert forall|jj: int|
                        0 <= jj < shots0.len() implies (shot_spent_upto(shots0, rocks0, jj, i + 1)
                        == shot_spent_upto(shots0, rocks0, jj, i as int)) by {
                        if shot_spent_upto(shots0, rocks0, jj, i + 1) {
                            let w = choose|w: int|
                                0 <= w < i + 1 && rock_hit(shots0, #[trigger] rocks0[w])
                                    && first_hit(shots0, rocks0[w]) == jj;
                            assert(w < i || w == i);
                        }
                    }
                }
            }
            i = i + 1;
        }
        proof {
            lemma_hit_count_le(rocks0, shots0, rocks0.len() as int);
            assert(self.rocks@ =~= rocks_after_hits(rocks0, shots0));
            assert(self.shots@ =~= shots_after_hits(shots0, rocks0));
        }
        hits
    }
}

/// The weaker state bound the collision pass needs: every actor on screen
/// (rocks with spawn slack) with a sane radius, whatever the lives and
/// timers hold.
pub open spec fn collision_safe(s: GameState) -> bool {
    let w = s.screen_width as int;
    let h = s.screen_height as int;
    &&& s.screen_wf()
    &&& in_field(s.player, w, h, 0)
    &&& 0 < s.player.radius <= 1_000_000
    &&& forall|j: int| 0 <= j < s.shots@.len() ==> in_field(#[trigger] s.shots@[j], w, h, 0)
    &&& forall|j: int| 0 <= j < s.shots@.len() ==> 0 < (#[trigger] s.shots@[j]).radius <= 1_000_000
    &&& forall|i: int| 0 <= i < s.rocks@.len() ==> in_field(
        #[trigger] s.rocks@[i],
        w,
        h,
        ROCK_MAX_DIST as int,
    )
    &&& forall|i: int| 0 <= i < s.rocks@.len() ==> 0 < (#[trigger] s.rocks@[i]).radius <= 1_000_000
}

/// The shots after each has moved for one tick.
pub open spec fn moved_shots(shots: Seq<Actor>, w: int, h: int) -> Seq<Actor> {
    Seq::new(shots.len(), |j: int| moved_shot(shots[j], w, h))
}

/// A player's facing, thrust, movement and wrap over one tick, composed.
pub open spec fn moved_player(p: Actor, input: InputState, w: int, h: int) -> Actor {
    wrapped(integrated(input_applied(p, input)), w, h)
}

/// Apply one tick of control input to the player: turn by the turn axis,
/// then thrust if the thrust axis is pressed.
pub fn player_handle_input(actor: &mut Actor, input: &InputState)
    requires
        old(actor).wf(),
        old(actor).kind == ActorKind::Player,
        input.valid(),
        vel_bounded(*old(actor)),
    ensures
        *final(actor) == input_applied(*old(actor), *input),
        final(actor).wf(),
        final(actor).pos == old(actor).pos,
        final(actor).life == old(actor).life,
        final(actor).radius == old(actor).radius,
        final(actor).kind == old(actor).kind,
        final(actor).ang_vel == old(actor).ang_vel,
        0 <= final(actor).facing < TURN_MRAD,
        -MAX_PHYSICS_VEL - 2_000 <= final(actor).velocity.x <= MAX_PHYSICS_VEL + 2_000,
        -MAX_PHYSICS_VEL - 2_000 <= final(actor).velocity.y <= MAX_PHYSICS_VEL + 2_000,
{
    let delta: i64 = PLAYER_TURN_STEP * input.xaxis;
    actor.facing = turn_angle(actor.facing, delta);
    if input.yaxis > 0 {
        Actor::player_thrust(actor);
    }
}

/// The world-to-screen transform: the world has Y up and its origin at the
/// center; the screen has Y down and its origin at the top left.
pub fn world_to_screen_coords(screen_width: i64, screen_height: i64, point: Vec2) -> (r: Vec2)
    requires
        0 <= screen_width <= MAX_SCREEN_DIM,
        0 <= screen_height <= MAX_SCREEN_DIM,
        screen_width % 2 == 0,
        screen_height % 2 == 0,
        -1_000_000_000 <= point.x <= 1_000_000_000,
        -1_000_000_000 <= point.y <= 1_000_000_000,
    ensures
        r.x == point.x + screen_width / 2,
        r.y == screen_height - (point.y + screen_height / 2),
{
    let hx: i64 = ((screen_width as u64) / 2) as i64;
    let hy: i64 = ((screen_height as u64) / 2) as i64;
    Vec2 { x: point.x + hx, y: screen_height - (point.y + hy) }
}

/// The spawn-clearance law: a rock spawned on the ring around an actor
/// cannot be in collision with that actor, as long as the inner spawn
/// radius clears the radii sum even after fixed-point rounding.
pub proof fn lemma_spawn_clearance(rock: Actor, center_actor: Actor, min_r: int, max_r: int)
    requires
        crate::spawner::in_ring(rock.pos, center_actor.pos, min_r, max_r),
        SCALE <= min_r <= max_r,
        1_000_000 * ((rock.radius + center_actor.radius) * (rock.radius + center_actor.radius))
            <= 994_005 * (min_r * min_r),
    ensures
        !in_collision(center_actor, rock),
        !in_collision(rock, center_actor),
{
    crate::spawner::lemma_ring_distance(rock.pos, center_actor.pos, min_r, max_r);
    let dx = rock.pos.x - center_actor.pos.x;
    let dy = rock.pos.y - center_actor.pos.y;
    assert(dx * dx == (-dx) * (-dx) && dy * dy == (-dy) * (-dy)) by (nonlinear_arith);
    assert(dist_sq(rock.pos, center_actor.pos) == dist_sq(center_actor.pos, rock.pos));
}

/// The absorbing game-over law: once the player's life is gone, no tick of
/// the pipeline — input, movement, collision — restores it.
pub proof fn lemma_game_over_absorbing(
    p: Actor,
    input: InputState,
    w: int,
    h: int,
    rocks: Seq<Actor>,
)
    requires
        p.life <= 0,
    ensures
        (if player_hit(rocks, moved_player(p, input, w, h)) {
            killed(moved_player(p, input, w, h))
        } else {
            moved_player(p, input, w, h)
        }).life <= 0,
{
}

/// The level-up law: when every rock is dead going into a tick, the
/// collision pass leaves them all dead, and the cull empties the list.
pub proof fn lemma_dead_rocks_culled(rocks: Seq<Actor>, shots: Seq<Actor>)
    requires
        forall|i: int| 0 <= i < rocks.len() ==> (#[trigger] rocks[i]).life <= 0,
    ensures
        live_seq(rocks_after_hits(rocks, shots)).len() == 0,
{
    let after = rocks_after_hits(rocks, shots);
    assert forall|i: int| 0 <= i < after.len() implies #[trigger] after[i].life <= 0 by {
        assert(rocks[i].life <= 0);
    }
    lemma_live_seq_all_dead(after);
}

impl GameState {
    /// One fixed 1/60-second tick of the whole simulation, in order: apply
    /// input to the player; run the shot cooldown and fire if asked and
    /// allowed; move and wrap the player; move, wrap and decay every shot;
    /// detect collisions and score; cull the dead; and respawn rocks at the
    /// next level if none is left. Every stage is pinned exactly except the
    /// positions of freshly spawned rocks, which are random draws within the
    /// spawn ring around the player.
    #[verifier::loop_isolation(false)]
    #[verifier::rlimit(100)]
    pub fn update(&mut self, input: &InputState) -> (events: TickEvents)
        requires
            old(self).wf(),
            input.valid(),
            old(self).level < 1_000_000_000,
            old(self).score + old(self).rocks@.len() <= u64::MAX,
            old(self).shots@.len() < 100_000_000,
        ensures
            ({
                let w = old(self).screen_width as int;
                let h = old(self).screen_height as int;
                let p1 = input_applied(old(self).player, *input);
                let cd = ticked_cooldown(old(self).player_shot_timeout as int);
                let fired = input.fire && cd < 0;
                let shots1 = if fired {
                    old(self).shots@.push(new_shot_of(p1))
                } else {
                    old(self).shots@
                };
                let p2 = wrapped(integrated(p1), w, h);
                let shots2 = moved_shots(shots1, w, h);
                let rocks1 = old(self).rocks@;
                let p3 = if player_hit(rocks1, p2) {
                    killed(p2)
                } else {
                    p2
                };
                let shots3 = live_seq(shots_after_hits(shots2, rocks1));
                let rocks2 = live_seq(rocks_after_hits(rocks1, shots2));
                let nhits = hit_count(rocks1, shots2);
                &&& final(self).player == p3
                &&& final(self).shots@ == shots3
                &&& final(self).score == old(self).score + nhits
                &&& final(self).player_shot_timeout == (if fired {
                    PLAYER_SHOT_TICKS as int
                } else {
                    cd
                })
                &&& final(self).screen_width == old(self).screen_width
                &&& final(self).screen_height == old(self).screen_height
                &&& (rocks2.len() > 0 ==> final(self).rocks@ == rocks2
                    && final(self).level == old(self).level)
                &&& (rocks2.len() == 0 ==> final(self).level == old(self).level + 1
                    && final(self).rocks@.len() == old(self).level + 6 && (forall|k: int|
                    0 <= k < final(self).rocks@.len() ==> spawned_rock_ok(
                        #[trigger] final(self).rocks@[k],
                        p3.pos,
                        ROCK_MIN_DIST as int,
                        ROCK_MAX_DIST as int,
                    )))
                &&& events.fired == fired
                &&& events.hits == nhits
            }),
            final(self).wf(),
    {
        let ghost w = self.screen_width as int;
        let ghost h = self.screen_height as int;
        let ghost rocks1 = self.rocks@;
        // 1. Input application.
        player_handle_input(&mut self.player, input);
        let ghost p1 = self.player;
        // 2. Cooldown and firing.
        if self.player_shot_timeout > -1 {
            self.player_shot_timeout = self.player_shot_timeout - 1;
        } else {
            self.player_shot_timeout = -1;
        }
        proof {
            assert(self.player_shot_timeout as int == ticked_cooldown(
                old(self).player_shot_timeout as int,
            ));
        }
        let mut fired: bool = false;
        if input.fire && self.player_shot_timeout < 0 {
            self.fire_player_shot();
            fired = true;
        }
        let ghost shots1 = self.shots@;
        proof {
            if fired {
                let sh = new_shot_of(p1);
                lemma_unit_from_angle_magnitude(p1.facing as int);
                let ux = unit_from_angle(p1.facing as int).0;
                let uy = unit_from_angle(p1.facing as int).1;
                let c: int = SHOT_SPEED / SCALE;
                assert(c == 200);
                assert(-200_000 <= ux * c <= 200_000 && -200_000 <= uy * c <= 200_000)
                    by (nonlinear_arith)
                    requires c == 200int, -1000 <= ux <= 1000, -1000 <= uy <= 1000;
                assert(sh.wf());
                assert(in_field(sh, w, h, 0));
                assert(vel_bounded(sh));
            }
            assert forall|jj: int| 0 <= jj < shots1.len() implies (#[trigger] shots1[jj]).wf()
                && shots1[jj].kind == ActorKind::Shot && shots1[jj].radius == SHOT_RADIUS
                && in_field(shots1[jj], w, h, 0) && shots1[jj].life <= SHOT_LIFE_TICKS
                && vel_bounded(shots1[jj]) by {
                if jj < old(self).shots@.len() {
                    assert(shots1[jj] == old(self).shots@[jj]);
                }
            }
        }
        // 3. Movement: the player, then every shot (which also decays).
        Actor::update_actor_position(&mut self.player);
        Actor::wrap_actor_position(&mut self.player, self.screen_width, self.screen_height);
        let ghost p2 = self.player;
        proof {
            assert(p2 == wrapped(integrated(p1), w, h));
        }
        let mut j: usize = 0;
        while j < self.shots.len()
            invariant
                j <= shots1.len(),
                self.shots@.len() == shots1.len(),
                self.player == p2,
                self.rocks@ == rocks1,
                self.score == old(self).score,
                self.level == old(self).level,
                self.screen_width == old(self).screen_width,
                self.screen_height == old(self).screen_height,
                self.player_shot_timeout as int == (if fired {
                    PLAYER_SHOT_TICKS as int
                } else {
                    ticked_cooldown(old(self).player_shot_timeout as int)
                }),
                forall|jj: int|
                    0 <= jj < j ==> #[trigger] self.shots@[jj] == moved_shot(shots1[jj], w, h),
                forall|jj: int| j <= jj < shots1.len() ==> self.shots@[jj] == shots1[jj],
                forall|jj: int|
                    0 <= jj < j ==> in_field(#[trigger] self.shots@[jj], w, h, 0) && self.shots@[jj].wf()
                        && self.shots@[jj].radius == SHOT_RADIUS && self.shots@[jj].kind
                        == ActorKind::Shot && self.shots@[jj].life <= SHOT_LIFE_TICKS - 1
                        && vel_bounded(self.shots@[jj]),
            decreases shots1.len() - j,
        {
            let mut s = self.shots[j];
            Actor::update_actor_position(&mut s);
            Actor::wrap_actor_position(&mut s, self.screen_width, self.screen_height);
            Actor::handle_timed_life(&mut s);
            self.shots.set(j, s);
            j = j + 1;
        }
        let ghost shots2 = self.shots@;
        proof {
            assert(shots2 =~= moved_shots(shots1, w, h));
        }
        // 4. Collision detection and scoring.
        let hits = self.handle_collision();
        // 5. Cull the dead.
        self.clear_dead_stuff();
        // 6. Level respawn.
        proof {
            let shots_hit = shots_after_hits(shots2, rocks1);
            let rocks_hit = rocks_after_hits(rocks1, shots2);
            assert forall|jj: int| 0 <= jj < shots_hit.len() implies in_field(
                #[trigger] shots_hit[jj],
                w,
                h,
                0,
            ) && shots_hit[jj].wf() && shots_hit[jj].radius == SHOT_RADIUS && shots_hit[jj].kind
                == ActorKind::Shot && shots_hit[jj].life <= SHOT_LIFE_TICKS
                && vel_bounded(shots_hit[jj]) by {
                assert(shots_hit[jj] == if shot_spent(shots2, rocks1, jj) {
                    killed(shots2[jj])
                } else {
                    shots2[jj]
                });
            }
            lemma_live_seq_preserves(
                shots_hit,
                |a: Actor|
                    in_field(a, w, h, 0) && a.wf() && a.radius == SHOT_RADIUS && a.kind
                        == ActorKind::Shot && a.life <= SHOT_LIFE_TICKS && vel_bounded(a),
            );
            assert forall|ii: int| 0 <= ii < rocks_hit.len() implies in_field(
                #[trigger] rocks_hit[ii],
                w,
                h,
                ROCK_MAX_DIST as int,
            ) && rocks_hit[ii].wf() && rocks_hit[ii].radius == ROCK_RADIUS && rocks_hit[ii].kind
                == ActorKind::Rock && 0 <= rocks_hit[ii].life <= ROCK_LIFE
                && vel_bounded(rocks_hit[ii]) by {
                assert(rocks_hit[ii] == if rock_hit(shots2, rocks1[ii]) {
                    killed(rocks1[ii])
                } else {
                    rocks1[ii]
                });
                assert(rocks1[ii] == old(self).rocks@[ii]);
            }
            lemma_live_seq_preserves(
                rocks_hit,
                |a: Actor|
                    in_field(a, w, h, ROCK_MAX_DIST as int) && a.wf() && a.radius == ROCK_RADIUS
                        && a.kind == ActorKind::Rock && 0 <= a.life <= ROCK_LIFE && vel_bounded(a),
            );
            assert(self.wf());
        }
        self.check_for_level_respawn();
        // 7. The terminal signal is left to `is_game_over`.
        TickEvents { fired, hits }
    }
}

/// A new vector with only the live actors kept, in order.
fn retain_live(v: &Vec<Actor>) -> (r: Vec<Actor>)
    ensures
        r@ == live_seq(v@),
{
    let mut r: Vec<Actor> = Vec::new();
    let mut i: usize = 0;
    while i < v.len()
        invariant
            i <= v@.len(),
            r@ == live_seq(v@.subrange(0, i as int)),
        decreases v@.len() - i,
    {
        let a = v[i];
        proof {
            assert(v@.subrange(0, i + 1 as int).drop_last() =~= v@.subrange(0, i as int));
            assert(v@.subrange(0, i + 1 as int).last() == v@[i as int]);
        }
        if a.life > 0 {
            r.push(a);
        }
        i = i + 1;
    }
    proof {
        assert(v@.subrange(0, v@.len() as int) =~= v@);
    }
    r
}

/// Rocks spawned within `ROCK_MAX_DIST` of an on-screen center stay within
/// the world's positional slack for rocks, well formed and rock-shaped.
proof fn lemma_spawned_rocks_in_field(rocks: Seq<Actor>, center: Vec2, w: int, h: int)
    requires
        forall|k: int| 0 <= k < rocks.len() ==> spawned_rock_ok(
            #[trigger] rocks[k],
            center,
            ROCK_MIN_DIST as int,
            ROCK_MAX_DIST as int,
        ),
        -(w / 2) <= center.x <= w / 2,
        -(h / 2) <= center.y <= h / 2,
        w >= 2,
        h >= 2,
    ensures
        forall|k: int| 0 <= k < rocks.len() ==> in_field(
            #[trigger] rocks[k],
            w,
            h,
            ROCK_MAX_DIST as int,
        ),
        forall|k: int| 0 <= k < rocks.len() ==> vel_bounded(#[trigger] rocks[k]),
{
    assert forall|k: int| 0 <= k < rocks.len() implies in_field(
        #[trigger] rocks[k],
        w,
        h,
        ROCK_MAX_DIST as int,
    ) by {
        let rock = rocks[k];
        let (a, d) = choose|a: int, d: int|
            0 <= a < TURN_MRAD && ROCK_MIN_DIST as int <= d <= ROCK_MAX_DIST as int
                && rock.pos.x == center.x + #[trigger] dir_scaled(a, d).0
                && rock.pos.y == center.y + dir_scaled(a, d).1;
        crate::spawner::lemma_dir_scaled_bounds(a, d);
    }
}

} // verus!
