//! The per-frame state machine: spawning, freezing, scoring.

use spaced_out::entity::MovementMod;
use spaced_out::math::Vec2;
use spaced_out::state::MainState;
use spaced_out::{Actor, ActorType, Enemy};

const EAST: Vec2 = Vec2 { x: 1000, y: 0 };

fn laser_at(pos: Vec2, life: i32) -> Actor {
    Actor { tag: ActorType::Laser, pos, velocity: Vec2 { x: 0, y: 0 }, life }
}

fn still_enemy(pos: Vec2, life: i32) -> Enemy {
    Enemy::new(pos, Vec2 { x: 0, y: 0 }, 0, None, life, 5)
}

#[test]
fn fresh_session_resources() {
    let s = MainState::new();
    assert_eq!(s.score, 0);
    assert_eq!(s.money, 100);
    assert_eq!(s.spaceout_charge, 0);
    assert_eq!(s.spaceout_time, 0);
    assert_eq!(s.player.life, 1000);
    assert_eq!(s.player.num_lasers, 1);
    assert_eq!(s.player.laser_fire_rate, 500);
    assert!(s.lasers.is_empty());
    assert!(s.enemies.is_empty());
}

#[test]
fn fire_rate_gates_lasers() {
    // Firing for one second at a 0.3-second fire rate yields exactly
    // three lasers.
    let mut s = MainState::new();
    s.set_firing(true);
    s.set_mouse_position(940, 760);
    s.player.laser_fire_rate = 300;
    s.next_shot_timeout = 300;
    s.next_enemy_timeout = 2000;
    for _ in 0..10 {
        s.tick(100, EAST);
    }
    assert_eq!(s.lasers.len(), 3);
}

#[test]
fn laser_is_aimed_from_screen_center_to_mouse() {
    let mut s = MainState::new();
    s.set_firing(true);
    // 300 right of and 400 below the screen center: a 3-4-5 aim.
    s.set_mouse_position(640 + 300, 360 + 400);
    s.next_enemy_timeout = 2000;
    s.tick(16, EAST);
    assert_eq!(s.lasers.len(), 1);
    assert_eq!(s.lasers[0].velocity, Vec2 { x: 180, y: 240 });
    assert_eq!(s.lasers[0].pos, Vec2 { x: 180 * 16, y: 240 * 16 });
    assert_eq!(s.lasers[0].life, 5);
    assert!(matches!(s.lasers[0].tag, ActorType::Laser));
}

#[test]
fn enemy_spawn_uses_tuning_constants() {
    let mut s = MainState::new();
    s.tick(16, EAST);
    assert_eq!(s.enemies.len(), 1);
    let e = &s.enemies[0];
    // 670 units east, already advanced 16 ms toward the origin.
    assert_eq!(e.speed, 60);
    assert_eq!(e.max_life, 15);
    assert_eq!(e.life, 15);
    assert_eq!(e.worth, 5);
    assert!(matches!(e.movement_mod, Some(MovementMod::Spiral(800))));
    // The spawn reset the countdown after this tick's decrement ran.
    assert_eq!(s.next_enemy_timeout, 1000);
    // No second enemy until the countdown runs out again.
    s.tick(16, EAST);
    assert_eq!(s.next_enemy_timeout, 1000 - 16);
    assert_eq!(s.enemies.len(), 1);
}

#[test]
fn spaceout_freezes_enemies_and_spawning() {
    let mut s = MainState::new();
    s.spaceout_charge = 100;
    s.enemies.push(Enemy::new(
        Vec2 { x: 670_000, y: 0 },
        Vec2 { x: -1000, y: 0 },
        100,
        None,
        15,
        5,
    ));
    s.on_activation_key();
    assert_eq!(s.spaceout_time, 5000);
    assert_eq!(s.spaceout_charge, 0);
    let before = s.enemies[0].pos;
    for _ in 0..10 {
        s.tick(100, EAST);
    }
    // One second of active spaceout: no movement, no newcomer.
    assert_eq!(s.enemies.len(), 1);
    assert_eq!(s.enemies[0].pos, before);
    assert_eq!(s.spaceout_time, 4000);
}

#[test]
fn spaceout_expires_and_time_resumes() {
    let mut s = MainState::new();
    s.next_enemy_timeout = 100_000;
    s.spaceout_time = 150;
    s.enemies.push(Enemy::new(
        Vec2 { x: 670_000, y: 0 },
        Vec2 { x: -1000, y: 0 },
        100,
        None,
        15,
        5,
    ));
    s.tick(100, EAST);
    // Still frozen: 50 ms of the effect remain.
    assert_eq!(s.spaceout_time, 50);
    assert_eq!(s.enemies[0].pos, Vec2 { x: 670_000, y: 0 });
    s.tick(100, EAST);
    // The countdown bottomed out this sub-step, and motion resumed.
    assert_eq!(s.spaceout_time, 0);
    assert_eq!(s.enemies[0].pos, Vec2 { x: 670_000 - 10_000, y: 0 });
}

#[test]
fn activation_needs_full_charge() {
    let mut s = MainState::new();
    s.spaceout_charge = 99;
    s.on_activation_key();
    assert_eq!(s.spaceout_time, 0);
    assert_eq!(s.spaceout_charge, 99);
}

#[test]
fn collision_drains_both_parties() {
    // A laser at the origin and an enemy 10 units away: one hit takes
    // 5 life from each.
    let mut s = MainState::new();
    s.next_shot_timeout = 1000;
    s.next_enemy_timeout = 1000;
    s.lasers.push(laser_at(Vec2 { x: 0, y: 0 }, 5));
    s.enemies.push(still_enemy(Vec2 { x: 10_000, y: 0 }, 15));
    s.tick(0, EAST);
    assert_eq!(s.lasers[0].life, 0);
    assert_eq!(s.enemies[0].life, 10);
}

#[test]
fn one_laser_may_damage_several_enemies_per_tick() {
    let mut s = MainState::new();
    s.next_shot_timeout = 1000;
    s.next_enemy_timeout = 1000;
    s.lasers.push(laser_at(Vec2 { x: 0, y: 0 }, 5));
    s.enemies.push(still_enemy(Vec2 { x: 10_000, y: 0 }, 15));
    s.enemies.push(still_enemy(Vec2 { x: 0, y: -12_000 }, 15));
    s.enemies.push(still_enemy(Vec2 { x: 300_000, y: 0 }, 15));
    s.tick(0, EAST);
    // Two enemies were in range: the laser took two hits' damage.
    assert_eq!(s.lasers[0].life, 5 - 10);
    assert_eq!(s.enemies[0].life, 10);
    assert_eq!(s.enemies[1].life, 10);
    assert_eq!(s.enemies[2].life, 15);
}

#[test]
fn cleanup_scores_each_kill() {
    let mut s = MainState::new();
    s.enemies.push(still_enemy(Vec2 { x: 10_000, y: 0 }, 0));
    s.enemies.push(still_enemy(Vec2 { x: 20_000, y: 0 }, -1));
    s.enemies.push(still_enemy(Vec2 { x: 30_000, y: 0 }, 7));
    s.lasers.push(laser_at(Vec2 { x: 0, y: 0 }, -3));
    s.lasers.push(laser_at(Vec2 { x: 5000, y: 0 }, 2));
    s.end_frame();
    // Two enemies died: +10 score, +10 money, +20 charge.
    assert_eq!(s.score, 10);
    assert_eq!(s.money, 110);
    assert_eq!(s.spaceout_charge, 20);
    assert_eq!(s.enemies.len(), 1);
    assert_eq!(s.enemies[0].life, 7);
    assert_eq!(s.lasers.len(), 1);
    assert_eq!(s.lasers[0].life, 2);
}

#[test]
fn charge_is_clamped_at_one_hundred() {
    let mut s = MainState::new();
    s.spaceout_charge = 95;
    for i in 0..11 {
        s.enemies.push(still_enemy(Vec2 { x: 10_000 + 1000 * i, y: 0 }, -1));
    }
    s.end_frame();
    // Eleven kills would be 110 charge on top of 95; it stays at 100.
    assert_eq!(s.spaceout_charge, 100);
    assert_eq!(s.score, 55);
    assert_eq!(s.money, 100 + 55);
    assert!(s.enemies.is_empty());
}

#[test]
fn mouse_position_is_clamped() {
    let mut s = MainState::new();
    s.set_mouse_position(5_000_000, -5_000_000);
    assert_eq!(s.mouse_position, (1_000_000, -1_000_000));
}
