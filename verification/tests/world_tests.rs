use astroblasto::vecmath::Vec2;
use astroblasto::actor::{Actor, ActorKind};
use astroblasto::world::{GameState, InputState, world_to_screen_coords, PLAYER_SHOT_TICKS,
    STARTING_ROCKS};

const W: i64 = 800_000;
const H: i64 = 600_000;

fn neutral() -> InputState {
    InputState::default()
}

#[test]
fn default_input_is_neutral() {
    let i = InputState::default();
    assert_eq!(i.xaxis, 0);
    assert_eq!(i.yaxis, 0);
    assert!(!i.fire);
}

#[test]
fn new_world_shape() {
    let s = GameState::new(W, H);
    assert_eq!(s.player.pos, Vec2 { x: 0, y: 0 });
    assert_eq!(s.player.facing, 0);
    assert_eq!(s.rocks.len(), STARTING_ROCKS);
    assert_eq!(s.shots.len(), 0);
    assert_eq!(s.level, 0);
    assert_eq!(s.score, 0);
    assert!(!s.is_game_over());
}

// End-to-end scenario: one tick of pure thrust from the start. The player
// moves along (sin 0, cos 0) = (0, 1): thrust adds 1666 milli-pixels per
// second of velocity, and one tick of that moves 27 milli-pixels up. The
// rocks all spawned at least ~100 px away, so nothing collides.
#[test]
fn thrust_tick_moves_player_up() {
    let mut s = GameState::new(W, H);
    let input = InputState { xaxis: 0, yaxis: 1, fire: false };
    let ev = s.update(&input);
    assert_eq!(s.player.velocity, Vec2 { x: 0, y: 1666 });
    assert_eq!(s.player.pos, Vec2 { x: 0, y: 27 });
    assert_eq!(s.player.facing, 0);
    assert_eq!(s.score, 0);
    assert_eq!(s.level, 0);
    assert_eq!(s.rocks.len(), STARTING_ROCKS);
    assert!(!s.is_game_over());
    assert!(!ev.fired);
    assert_eq!(ev.hits, 0);
}

#[test]
fn turning_changes_facing_by_one_step() {
    let mut s = GameState::new(W, H);
    let right = InputState { xaxis: 1, yaxis: 0, fire: false };
    s.update(&right);
    assert_eq!(s.player.facing, 50);
    let left = InputState { xaxis: -1, yaxis: 0, fire: false };
    s.update(&left);
    s.update(&left);
    assert_eq!(s.player.facing, 6283 - 50);
}

fn far_rock() -> Actor {
    let mut rock = Actor::create_rock();
    rock.pos = Vec2 { x: -390_000, y: -290_000 };
    rock
}

// Firing: allowed at once (the timer starts at 0 and counts below it on the
// first tick), then blocked for PLAYER_SHOT_TICKS ticks.
#[test]
fn fire_rate_limited_by_cooldown() {
    let mut s = GameState::new(W, H);
    // One far-off rock, so no random spawn can swallow a shot mid-test.
    s.rocks = vec![far_rock()];
    let fire = InputState { xaxis: 0, yaxis: 0, fire: true };
    let ev1 = s.update(&fire);
    assert!(ev1.fired);
    assert_eq!(s.shots.len(), 1);
    assert_eq!(s.player_shot_timeout, PLAYER_SHOT_TICKS);
    // The cooldown swallows the next PLAYER_SHOT_TICKS attempts.
    for _ in 0..PLAYER_SHOT_TICKS {
        let ev = s.update(&fire);
        assert!(!ev.fired);
    }
    let ev2 = s.update(&fire);
    assert!(ev2.fired);
    assert_eq!(s.shots.len(), 2);
}

#[test]
fn shot_moves_along_facing() {
    let mut s = GameState::new(W, H);
    s.fire_player_shot();
    assert_eq!(s.shots.len(), 1);
    let shot = s.shots[0];
    assert_eq!(shot.kind, ActorKind::Shot);
    // Facing 0 points up: 200 px/s along +Y, in milli-pixels per second.
    assert_eq!(shot.velocity, Vec2 { x: 0, y: 200_000 });
    assert_eq!(shot.pos, s.player.pos);
    assert_eq!(s.player_shot_timeout, PLAYER_SHOT_TICKS);
}

// The collision scenario: a shot and a rock whose centers are within the sum
// of their radii. One collision pass marks both dead and scores exactly 1.
#[test]
fn collision_marks_both_dead_and_scores_once() {
    let mut s = GameState::new(W, H);
    let mut rock = Actor::create_rock();
    rock.pos = Vec2 { x: 100_000, y: 0 };
    let mut shot = Actor::create_shot();
    // 17 px apart; radii sum to 12 + 6 = 18 px.
    shot.pos = Vec2 { x: 100_000, y: 17_000 };
    s.rocks = vec![rock];
    s.shots = vec![shot];
    let hits = s.handle_collision();
    assert_eq!(hits, 1);
    assert_eq!(s.score, 1);
    assert!(s.rocks[0].life <= 0);
    assert!(s.shots[0].life <= 0);
    // The player, far away, is untouched.
    assert_eq!(s.player.life, 1);
}

#[test]
fn collision_misses_when_apart() {
    let mut s = GameState::new(W, H);
    let mut rock = Actor::create_rock();
    rock.pos = Vec2 { x: 100_000, y: 0 };
    let mut shot = Actor::create_shot();
    // 19 px apart; radii sum to 18 px: no contact.
    shot.pos = Vec2 { x: 100_000, y: 19_000 };
    s.rocks = vec![rock];
    s.shots = vec![shot];
    let hits = s.handle_collision();
    assert_eq!(hits, 0);
    assert_eq!(s.score, 0);
    assert_eq!(s.rocks[0].life, 1);
    assert!(s.shots[0].life > 0);
}

// Only the first shot in order kills a rock; the score still moves by 1.
#[test]
fn first_match_wins_on_one_rock() {
    let mut s = GameState::new(W, H);
    let mut rock = Actor::create_rock();
    rock.pos = Vec2 { x: 100_000, y: 0 };
    let mut shot_a = Actor::create_shot();
    shot_a.pos = Vec2 { x: 100_000, y: 10_000 };
    let mut shot_b = Actor::create_shot();
    shot_b.pos = Vec2 { x: 100_000, y: -10_000 };
    s.rocks = vec![rock];
    s.shots = vec![shot_a, shot_b];
    let hits = s.handle_collision();
    assert_eq!(hits, 1);
    assert_eq!(s.score, 1);
    assert!(s.shots[0].life <= 0);
    assert!(s.shots[1].life > 0);
}

// The lifecycle scenario: a shot lives 2 seconds. Decayed for 121 ticks its
// life has run out, and the cull removes it.
#[test]
fn expired_shot_is_culled() {
    let mut shot = Actor::create_shot();
    for _ in 0..121 {
        Actor::handle_timed_life(&mut shot);
    }
    assert!(shot.life <= 0);
    let mut s = GameState::new(W, H);
    s.shots = vec![shot];
    s.clear_dead_stuff();
    assert_eq!(s.shots.len(), 0);
}

// A shot expires through update alone: 120 ticks after firing it is gone.
#[test]
fn shot_expires_after_two_seconds_of_ticks() {
    let mut s = GameState::new(W, H);
    // One far-off rock, so the shot expires rather than hitting anything.
    s.rocks = vec![far_rock()];
    let fire = InputState { xaxis: 0, yaxis: 0, fire: true };
    s.update(&fire);
    // The firing tick already moved and decayed the new shot once.
    assert_eq!(s.shots.len(), 1);
    let calm = neutral();
    for _ in 0..118 {
        s.update(&calm);
        assert_eq!(s.shots.len(), 1);
    }
    s.update(&calm);
    assert_eq!(s.shots.len(), 0);
}

// The level-up scenario: zero every rock's life and run one tick. The rocks
// list empties, the level goes up by one, and level + 5 rocks respawn.
#[test]
fn level_up_respawns_rocks() {
    let mut s = GameState::new(W, H);
    for i in 0..s.rocks.len() {
        s.rocks[i].life = 0;
    }
    s.update(&neutral());
    assert_eq!(s.level, 1);
    assert_eq!(s.rocks.len(), 6);
    assert_eq!(s.score, 0);
}

// The game-over scenario: zero the player's life and run one tick.
#[test]
fn dead_player_signals_game_over() {
    let mut s = GameState::new(W, H);
    s.player.life = 0;
    assert!(s.is_game_over());
    s.update(&neutral());
    assert!(s.is_game_over());
}

// A rock touching the player kills the player.
#[test]
fn rock_on_player_is_game_over() {
    let mut s = GameState::new(W, H);
    let mut rock = Actor::create_rock();
    // 20 px away; radii sum to 24 px.
    rock.pos = Vec2 { x: 20_000, y: 0 };
    s.rocks = vec![rock];
    s.update(&neutral());
    assert!(s.is_game_over());
}

#[test]
fn screen_transform_flips_y() {
    let p = world_to_screen_coords(W, H, Vec2 { x: 0, y: 0 });
    assert_eq!(p, Vec2 { x: 400_000, y: 300_000 });
    let q = world_to_screen_coords(W, H, Vec2 { x: -400_000, y: 300_000 });
    assert_eq!(q, Vec2 { x: 0, y: 0 });
}

#[test]
fn smallest_and_largest_screens_accepted() {
    let small = GameState::new(100_000, 100_000);
    assert_eq!(small.rocks.len(), STARTING_ROCKS);
    let large = GameState::new(100_000_000, 100_000_000);
    assert_eq!(large.rocks.len(), STARTING_ROCKS);
    assert!(!large.is_game_over());
}

#[test]
fn cull_keeps_live_order() {
    let mut s = GameState::new(W, H);
    let mut a = Actor::create_shot();
    a.pos = Vec2 { x: 1_000, y: 0 };
    let mut b = Actor::create_shot();
    b.life = 0;
    let mut c = Actor::create_shot();
    c.pos = Vec2 { x: 3_000, y: 0 };
    s.shots = vec![a, b, c];
    s.clear_dead_stuff();
    assert_eq!(s.shots.len(), 2);
    assert_eq!(s.shots[0].pos.x, 1_000);
    assert_eq!(s.shots[1].pos.x, 3_000);
}
