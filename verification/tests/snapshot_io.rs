//! Saving and restoring a session, and the determinism it buys.

use spaced_out::math::Vec2;
use spaced_out::state::MainState;

const NORTH: Vec2 = Vec2 { x: 0, y: -1000 };

fn assert_same_session(a: &MainState, b: &MainState) {
    assert_eq!(a.lasers, b.lasers);
    assert_eq!(a.enemies, b.enemies);
    assert_eq!(a.player, b.player);
    assert_eq!(a.firing, b.firing);
    assert_eq!(a.next_shot_timeout, b.next_shot_timeout);
    assert_eq!(a.next_enemy_timeout, b.next_enemy_timeout);
    assert_eq!(a.mouse_position, b.mouse_position);
    assert_eq!(a.score, b.score);
    assert_eq!(a.money, b.money);
    assert_eq!(a.spaceout_charge, b.spaceout_charge);
    assert_eq!(a.spaceout_time, b.spaceout_time);
}

fn busy_session() -> MainState {
    let mut s = MainState::new();
    s.set_firing(true);
    s.set_mouse_position(900, 500);
    for _ in 0..120 {
        s.tick(16, NORTH);
    }
    s.end_frame();
    s
}

#[test]
fn round_trip_reproduces_the_session() {
    let s = busy_session();
    let words = s.save();
    let restored = MainState::restore(&words).expect("a saved session restores");
    assert_same_session(&s, &restored);
}

#[test]
fn round_trip_reproduces_future_ticks() {
    let mut original = busy_session();
    let words = original.save();
    let mut restored = MainState::restore(&words).expect("a saved session restores");
    // Identical future inputs give identical futures.
    for _ in 0..60 {
        original.tick(16, NORTH);
        restored.tick(16, NORTH);
    }
    original.end_frame();
    restored.end_frame();
    assert_same_session(&original, &restored);
}

#[test]
fn truncated_snapshot_is_refused() {
    let s = busy_session();
    let mut words = s.save();
    words.pop();
    assert!(MainState::restore(&words).is_none());
    assert!(MainState::restore(&Vec::new()).is_none());
}

#[test]
fn tampered_snapshot_is_refused() {
    let s = MainState::new();
    let mut words = s.save();
    // An overfull spaceout charge does not describe a session.
    words[2] = 101;
    assert!(MainState::restore(&words).is_none());
    // Nor does a negative score.
    let mut words = s.save();
    words[0] = -1;
    assert!(MainState::restore(&words).is_none());
    // Nor a laser count that disagrees with the length.
    let mut words = s.save();
    words[13] = 3;
    assert!(MainState::restore(&words).is_none());
}

#[test]
fn snapshot_layout_header() {
    let mut s = MainState::new();
    s.score = 12;
    s.money = 345;
    s.spaceout_charge = 67;
    let words = s.save();
    assert_eq!(words.len(), 15);
    assert_eq!(&words[0..3], &[12, 345, 67]);
    assert_eq!(words[13], 0);
    assert_eq!(words[14], 0);
}
