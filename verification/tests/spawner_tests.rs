use astroblasto::vecmath::Vec2;
use astroblasto::actor::{ActorKind, ROCK_RADIUS, ROCK_LIFE, MAX_ROCK_VEL};
use astroblasto::spawner::{create_rocks, random_vec};

fn dist_sq(a: Vec2, b: Vec2) -> i64 {
    let dx = a.x - b.x;
    let dy = a.y - b.y;
    dx * dx + dy * dy
}

// The spawn-distance law at run time: every rock lies at distance at most
// max_r from the center, and at least min_r up to fixed-point rounding
// (1000000 * dist_sq >= 994005 * min_r^2).
#[test]
fn spawned_rocks_respect_ring_and_count() {
    let center = Vec2 { x: 10_000, y: -20_000 };
    let min_r: i64 = 100_000;
    let max_r: i64 = 250_000;
    let rocks = create_rocks(8, center, min_r, max_r);
    assert_eq!(rocks.len(), 8);
    for rock in &rocks {
        let d2 = dist_sq(rock.pos, center);
        assert!(d2 <= max_r * max_r, "rock too far: dist_sq {}", d2);
        assert!(
            (d2 as i128) * 1_000_000 >= 994_005i128 * (min_r as i128) * (min_r as i128),
            "rock too close: dist_sq {}",
            d2
        );
        assert_eq!(rock.kind, ActorKind::Rock);
        assert_eq!(rock.radius, ROCK_RADIUS);
        assert_eq!(rock.life, ROCK_LIFE);
        assert!(rock.velocity.x.abs() <= MAX_ROCK_VEL);
        assert!(rock.velocity.y.abs() <= MAX_ROCK_VEL);
    }
}

#[test]
fn spawn_zero_rocks() {
    let rocks = create_rocks(0, Vec2 { x: 0, y: 0 }, 100_000, 250_000);
    assert_eq!(rocks.len(), 0);
}

#[test]
fn random_vec_bounded() {
    for _ in 0..32 {
        let v = random_vec(50_000);
        assert!(v.x.abs() <= 50_000);
        assert!(v.y.abs() <= 50_000);
    }
    let z = random_vec(0);
    assert_eq!(z, Vec2 { x: 0, y: 0 });
}
