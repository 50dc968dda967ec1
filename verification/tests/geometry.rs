//! The fixed-point geometry and the entity steps, on concrete values.

use spaced_out::entity::{Enemy, MovementMod};
use spaced_out::math::{collides, isqrt, normalize, Vec2};
use spaced_out::{Actor, ActorType};

fn laser(pos: Vec2, velocity: Vec2, life: i32) -> Actor {
    Actor { tag: ActorType::Laser, pos, velocity, life }
}

#[test]
fn isqrt_exact_values() {
    assert_eq!(isqrt(0), 0);
    assert_eq!(isqrt(1), 1);
    assert_eq!(isqrt(15), 3);
    assert_eq!(isqrt(16), 4);
    assert_eq!(isqrt(670_000u128 * 670_000u128), 670_000);
    assert_eq!(isqrt(u128::MAX), u64::MAX);
}

#[test]
fn normalize_pythagorean() {
    // A 3-4-5 triangle scales exactly.
    let v = normalize(Vec2 { x: 3000, y: 4000 });
    assert_eq!(v, Vec2 { x: 600, y: 800 });
}

#[test]
fn normalize_axis_and_zero() {
    assert_eq!(normalize(Vec2 { x: -670_000, y: 0 }), Vec2 { x: -1000, y: 0 });
    assert_eq!(normalize(Vec2 { x: 0, y: 5 }), Vec2 { x: 0, y: 1000 });
    // The zero vector has no direction and stays zero.
    assert_eq!(normalize(Vec2 { x: 0, y: 0 }), Vec2 { x: 0, y: 0 });
}

#[test]
fn collision_boundary_counts_as_hit() {
    let center = Vec2 { x: 0, y: 0 };
    // Exactly on the circle: squared distance equals the squared radius.
    assert!(collides(Vec2 { x: 16_000, y: 0 }, center, 16_000));
    // Just outside.
    assert!(!collides(Vec2 { x: 16_001, y: 0 }, center, 16_000));
    // Inside, off-axis: 9-12-15 within radius 16.
    assert!(collides(Vec2 { x: 9_000, y: 12_000 }, center, 16_000));
}

#[test]
fn laser_moves_by_velocity_times_dt() {
    let mut a = laser(Vec2 { x: 1000, y: -2000 }, Vec2 { x: 180, y: 240 }, 5);
    a.update(500);
    assert_eq!(a.pos, Vec2 { x: 1000 + 180 * 500, y: -2000 + 240 * 500 });
    assert_eq!(a.life, 5);
}

#[test]
fn laser_out_of_bounds_is_marked_dead() {
    let mut a = laser(Vec2 { x: 800_000, y: 0 }, Vec2 { x: 300, y: 0 }, 5);
    a.update(1000);
    assert_eq!(a.pos, Vec2 { x: 1_100_000, y: 0 });
    assert_eq!(a.life, -1);
}

#[test]
fn enemy_linear_motion_scenario() {
    // An enemy at (670, 0) heading (-1, 0) at speed 100 stands at
    // (570, 0) one second later.
    let mut e = Enemy::new(
        Vec2 { x: 670_000, y: 0 },
        Vec2 { x: -1000, y: 0 },
        100,
        None,
        15,
        5,
    );
    e.update(1000);
    assert_eq!(e.pos, Vec2 { x: 570_000, y: 0 });
    assert_eq!(e.life, 15);
    assert_eq!(e.max_life, 15);
}

#[test]
fn enemy_acceleration_adds_to_speed_each_step() {
    let mut e = Enemy::new(
        Vec2 { x: 0, y: 0 },
        Vec2 { x: 1000, y: 0 },
        60,
        Some(MovementMod::Accelerating(10)),
        15,
        5,
    );
    e.update(100);
    assert_eq!(e.speed, 70);
    // position advanced with the raised speed: 70 * 100 ms = 7 units
    assert_eq!(e.pos, Vec2 { x: 7000, y: 0 });
    e.update(100);
    assert_eq!(e.speed, 80);
    assert_eq!(e.pos, Vec2 { x: 7000 + 8000, y: 0 });
}

#[test]
fn enemy_spiral_turns_inward() {
    // Straight to the right of the origin: toward-origin is (-1, 0),
    // its perpendicular (0, 1); a 0.8 blend is (-200, 800) scaled,
    // normalized.
    let mut e = Enemy::new(
        Vec2 { x: 670_000, y: 0 },
        Vec2 { x: -1000, y: 0 },
        60,
        Some(MovementMod::Spiral(800)),
        15,
        5,
    );
    e.update(0);
    // blend = (0.2 * (-1000, 0) + 0.8 * (0, -(-1000))) = (-200000, 800000),
    // length 824621, rescaled by 1000 and rounded toward zero.
    assert_eq!(e.direction, Vec2 { x: -242, y: 970 });
    // dt was zero: no motion.
    assert_eq!(e.pos, Vec2 { x: 670_000, y: 0 });
}

#[test]
fn enemy_spiral_full_factor_is_tangential() {
    let mut e = Enemy::new(
        Vec2 { x: 670_000, y: 0 },
        Vec2 { x: -1000, y: 0 },
        60,
        Some(MovementMod::Spiral(1000)),
        15,
        5,
    );
    e.update(0);
    assert_eq!(e.direction, Vec2 { x: 0, y: 1000 });
}

#[test]
fn enemy_spiral_zero_factor_heads_home() {
    let mut e = Enemy::new(
        Vec2 { x: 0, y: 400_000 },
        Vec2 { x: 1000, y: 0 },
        60,
        Some(MovementMod::Spiral(0)),
        15,
        5,
    );
    e.update(0);
    assert_eq!(e.direction, Vec2 { x: 0, y: -1000 });
}
