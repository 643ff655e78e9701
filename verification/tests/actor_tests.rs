use astroblasto::vecmath::Vec2;
use astroblasto::trig::{vec_from_angle, turn_angle, TURN_MRAD};
use astroblasto::actor::{Actor, ActorKind, MAX_PHYSICS_VEL, SHOT_LIFE_TICKS, PLAYER_RADIUS,
    ROCK_RADIUS, SHOT_RADIUS, PLAYER_LIFE, ROCK_LIFE};

// The unit-vector magnitude law, on every reachable facing: the scaled unit
// vector stays within a unit of the scaled circle of radius 1000.
#[test]
fn unit_vector_magnitude_within_epsilon() {
    let mut a: i64 = 0;
    while a < TURN_MRAD {
        let v = vec_from_angle(a);
        let n = v.x * v.x + v.y * v.y;
        assert!(998_001 <= n && n <= 1_000_000, "angle {} gave norm_sq {}", a, n);
        a += 1;
    }
}

#[test]
fn unit_vector_cardinal_directions() {
    // Angle 0 points along +Y ("up"): the (sin, cos) convention.
    assert_eq!(vec_from_angle(0), Vec2 { x: 0, y: 1000 });
    // A quarter turn later it points along +X.
    assert_eq!(vec_from_angle(1571), Vec2 { x: 1000, y: 0 });
}

#[test]
fn turn_angle_wraps() {
    assert_eq!(turn_angle(0, -50), TURN_MRAD - 50);
    assert_eq!(turn_angle(TURN_MRAD - 10, 50), 40);
    assert_eq!(turn_angle(100, 50), 150);
}

// The velocity-clamp law: after one integration the speed is at most
// MAX_PHYSICS_VEL (one fixed-point unit of slack).
#[test]
fn integrate_clamps_velocity() {
    let mut a = Actor::create_player();
    a.velocity = Vec2 { x: 2_000_000, y: -1_500_000 };
    Actor::update_actor_position(&mut a);
    let n = a.velocity.x * a.velocity.x + a.velocity.y * a.velocity.y;
    assert!(n <= (MAX_PHYSICS_VEL + 1) * (MAX_PHYSICS_VEL + 1));
}

#[test]
fn integrate_clamp_exact_on_axis() {
    let mut a = Actor::create_player();
    a.velocity = Vec2 { x: 300_000, y: 0 };
    Actor::update_actor_position(&mut a);
    assert_eq!(a.velocity, Vec2 { x: 250_000, y: 0 });
    // One tick of the clamped velocity: 250000 / 60 = 4166 milli-pixels.
    assert_eq!(a.pos, Vec2 { x: 4166, y: 0 });
}

#[test]
fn integrate_leaves_slow_velocity_alone() {
    let mut a = Actor::create_player();
    a.velocity = Vec2 { x: 120, y: -60 };
    Actor::update_actor_position(&mut a);
    assert_eq!(a.velocity, Vec2 { x: 120, y: -60 });
    assert_eq!(a.pos, Vec2 { x: 2, y: -1 });
}

// The wrap law: wrapping an in-bounds position is a no-op.
#[test]
fn wrap_in_bounds_is_noop() {
    let mut a = Actor::create_player();
    a.pos = Vec2 { x: 400_000, y: -300_000 };
    Actor::wrap_actor_position(&mut a, 800_000, 600_000);
    assert_eq!(a.pos, Vec2 { x: 400_000, y: -300_000 });
}

#[test]
fn wrap_corrects_by_one_screen() {
    let mut a = Actor::create_player();
    a.pos = Vec2 { x: 400_001, y: -300_001 };
    Actor::wrap_actor_position(&mut a, 800_000, 600_000);
    assert_eq!(a.pos, Vec2 { x: -399_999, y: 299_999 });
}

#[test]
fn timed_life_decays_one_tick() {
    let mut a = Actor::create_shot();
    assert_eq!(a.life, SHOT_LIFE_TICKS);
    Actor::handle_timed_life(&mut a);
    assert_eq!(a.life, SHOT_LIFE_TICKS - 1);
}

#[test]
fn created_actors_have_fixed_radii_and_lives() {
    let p = Actor::create_player();
    assert_eq!(p.kind, ActorKind::Player);
    assert_eq!(p.radius, PLAYER_RADIUS);
    assert_eq!(p.life, PLAYER_LIFE);
    let r = Actor::create_rock();
    assert_eq!(r.kind, ActorKind::Rock);
    assert_eq!(r.radius, ROCK_RADIUS);
    assert_eq!(r.life, ROCK_LIFE);
    let s = Actor::create_shot();
    assert_eq!(s.kind, ActorKind::Shot);
    assert_eq!(s.radius, SHOT_RADIUS);
    assert_eq!(s.life, SHOT_LIFE_TICKS);
}
