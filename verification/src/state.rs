//! The session state and its fixed-timestep simulation.
//!
//! A frame is a run of `tick` sub-steps (each advancing a fixed slice
//! of time) followed by one `end_frame` cleanup that removes dead
//! entities and settles score, money and spaceout charge. Every phase
//! has a functional specification over the state's view, so a whole
//! tick is a mathematical function of the previous state and its
//! inputs.

use vstd::prelude::*;

use crate::entity::{Actor, ActorType, Enemy, MovementMod, Player};
use crate::entity::{actor_step, enemy_step, wf_actor, wf_enemy};
use crate::entity::{DAMAGE, LIFE_FLOOR};
use crate::math::Vec2;
use crate::math::{clamp_i64, clamp_spec, collides, collides_spec, div_unit, normalize, tdiv};
use crate::math::{in_bounds, is_direction, lemma_mul_bound, normalize_spec};
use crate::math::{DT_LIMIT, POS_LIMIT, SPEED_LIMIT, UNIT};

verus! {

/// The entity lists are kept at or below this many entries; a spawn
/// past the cap is dropped.
pub const MAX_ENTITIES: usize = 1_000_000;

/// Countdowns never exceed this many milliseconds.
pub const TIMER_LIMIT: i64 = 86_400_000;

/// Speed of a fired laser, in milliunits per millisecond.
pub const LASER_SPEED: i64 = 300;

/// Life of a fresh laser.
pub const LASER_LIFE: i32 = 5;

/// Hit distance of the laser-enemy circle test, in milliunits.
pub const HIT_RADIUS: i64 = 16_000;

/// Enemies appear this many screen units from the origin.
pub const SPAWN_RADIUS: i64 = 670;

/// Speed of a fresh enemy, in milliunits per millisecond.
pub const ENEMY_SPEED: i64 = 60;

/// Life of a fresh enemy.
pub const ENEMY_LIFE: i32 = 15;

/// Reward value carried by a fresh enemy.
pub const ENEMY_WORTH: i32 = 5;

/// Milliseconds between enemy spawns.
pub const ENEMY_SPAWN_INTERVAL: i64 = 1_000;

/// Spiral steering factor of a fresh enemy, out of `UNIT`.
pub const SPIRAL_FACTOR: i64 = 800;

/// Milliseconds of frozen time granted by an activation.
pub const SPACEOUT_DURATION: i64 = 5_000;

/// The charge at which the spaceout effect can be activated.
pub const SPACEOUT_FULL: i32 = 100;

/// Score and money awarded per kill.
pub const KILL_SCORE: i32 = 5;

/// Spaceout charge awarded per kill.
pub const KILL_CHARGE: i32 = 10;

/// The screen point lasers are aimed from, in screen units.
pub const SCREEN_CENTER_X: i64 = 640;

/// See `SCREEN_CENTER_X`.
pub const SCREEN_CENTER_Y: i64 = 360;

/// Reported mouse coordinates are clamped to this magnitude.
pub const MOUSE_LIMIT: i64 = 1_000_000;

/// All game state one session owns.
pub struct MainState {
    pub lasers: Vec<Actor>,
    pub enemies: Vec<Enemy>,
    pub player: Player,
    pub firing: bool,
    pub next_shot_timeout: i64,
    pub next_enemy_timeout: i64,
    pub mouse_position: (i64, i64),
    pub score: i32,
    pub money: i32,
    pub spaceout_charge: i32,
    pub spaceout_time: i64,
}

/// The mathematical value of a session state.
#[verifier::ext_equal]
pub struct GameView {
    pub lasers: Seq<Actor>,
    pub enemies: Seq<Enemy>,
    pub player: Player,
    pub firing: bool,
    pub next_shot_timeout: int,
    pub next_enemy_timeout: int,
    pub mouse_x: int,
    pub mouse_y: int,
    pub score: int,
    pub money: int,
    pub spaceout_charge: int,
    pub spaceout_time: int,
}

impl View for MainState {
    type V = GameView;

    open spec fn view(&self) -> GameView {
        GameView {
            lasers: self.lasers@,
            enemies: self.enemies@,
            player: self.player,
            firing: self.firing,
            next_shot_timeout: self.next_shot_timeout as int,
            next_enemy_timeout: self.next_enemy_timeout as int,
            mouse_x: self.mouse_position.0 as int,
            mouse_y: self.mouse_position.1 as int,
            score: self.score as int,
            money: self.money as int,
            spaceout_charge: self.spaceout_charge as int,
            spaceout_time: self.spaceout_time as int,
        }
    }
}

/// The invariant every session state keeps: all entities are within
/// their bounds, the lists are at or below the cap, countdowns are
/// nonnegative, the spaceout charge sits in `[0, SPACEOUT_FULL]`, and
/// score and money are nonnegative.
pub open spec fn wf_view(v: GameView) -> bool {
    &&& forall|i: int| 0 <= i < v.lasers.len() ==> wf_actor(#[trigger] v.lasers[i])
    &&& forall|i: int| 0 <= i < v.enemies.len() ==> wf_enemy(#[trigger] v.enemies[i])
    &&& v.lasers.len() <= MAX_ENTITIES
    &&& v.enemies.len() <= MAX_ENTITIES
    &&& 0 <= v.next_shot_timeout <= TIMER_LIMIT
    &&& 0 <= v.next_enemy_timeout <= TIMER_LIMIT
    &&& 0 <= v.spaceout_time <= TIMER_LIMIT
    &&& 0 <= v.spaceout_charge <= SPACEOUT_FULL
    &&& 0 <= v.score <= i32::MAX
    &&& 0 <= v.money <= i32::MAX
    &&& -MOUSE_LIMIT <= v.mouse_x <= MOUSE_LIMIT
    &&& -MOUSE_LIMIT <= v.mouse_y <= MOUSE_LIMIT
    &&& 0 <= v.player.laser_fire_rate <= TIMER_LIMIT
}

/// The state a session starts in.
pub open spec fn initial_view() -> GameView {
    GameView {
        lasers: Seq::empty(),
        enemies: Seq::empty(),
        player: Player { life: 1000, num_lasers: 1, laser_speed: 40, laser_fire_rate: 500 },
        firing: false,
        next_shot_timeout: 0,
        next_enemy_timeout: 0,
        mouse_x: 0,
        mouse_y: 0,
        score: 0,
        money: 100,
        spaceout_charge: 0,
        spaceout_time: 0,
    }
}

/// A countdown run `dt` milliseconds further down, held at zero.
pub open spec fn run_down(t: int, dt: int) -> int {
    if t - dt > 0 {
        t - dt
    } else {
        0
    }
}

/// The countdown phase of a tick: all three timers run down.
pub open spec fn timers_phase(v: GameView, dt: int) -> GameView {
    GameView {
        next_shot_timeout: run_down(v.next_shot_timeout, dt),
        next_enemy_timeout: run_down(v.next_enemy_timeout, dt),
        spaceout_time: run_down(v.spaceout_time, dt),
        ..v
    }
}

/// The velocity of a laser fired while the mouse sits at the given
/// screen position: the unit vector from the screen center toward the
/// mouse, times `LASER_SPEED`.
pub open spec fn laser_velocity_spec(mx: int, my: int) -> Vec2 {
    let aim = Vec2 { x: ((mx - SCREEN_CENTER_X) * UNIT) as i64, y: ((my - SCREEN_CENTER_Y) * UNIT) as i64 };
    let dir = normalize_spec(aim);
    Vec2 {
        x: tdiv(dir.x * LASER_SPEED, UNIT as int) as i64,
        y: tdiv(dir.y * LASER_SPEED, UNIT as int) as i64,
    }
}

/// The laser-spawn phase of a tick: while the trigger is held and the
/// fire-rate countdown has reached zero, one laser appears at the
/// origin aimed at the mouse, and the countdown is reset to the
/// player's fire rate. A shot past the `MAX_ENTITIES` cap is dropped,
/// though the countdown still resets.
pub open spec fn laser_spawn_phase(v: GameView) -> GameView {
    if v.firing && v.next_shot_timeout == 0 {
        let laser = Actor {
            tag: ActorType::Laser,
            pos: Vec2 { x: 0, y: 0 },
            velocity: laser_velocity_spec(v.mouse_x, v.mouse_y),
            life: LASER_LIFE,
        };
        GameView {
            lasers: if v.lasers.len() < MAX_ENTITIES {
                v.lasers.push(laser)
            } else {
                v.lasers
            },
            next_shot_timeout: v.player.laser_fire_rate as int,
            ..v
        }
    } else {
        v
    }
}

/// The enemy a spawn with unit heading `sdir` produces: it stands
/// `SPAWN_RADIUS` units out along `sdir`, heads toward the origin, and
/// carries the fixed tuning values and the spiral steering behavior.
pub open spec fn spawned_enemy(sdir: Vec2) -> Enemy {
    let pos = Vec2 { x: (SPAWN_RADIUS * sdir.x) as i64, y: (SPAWN_RADIUS * sdir.y) as i64 };
    let dir = normalize_spec(Vec2 { x: (-(pos.x as int)) as i64, y: (-(pos.y as int)) as i64 });
    Enemy {
        pos,
        direction: dir,
        speed: ENEMY_SPEED,
        movement_mod: Option::Some(MovementMod::Spiral(SPIRAL_FACTOR)),
        life: ENEMY_LIFE,
        max_life: ENEMY_LIFE,
        worth: ENEMY_WORTH,
    }
}

/// The enemy-spawn phase of a tick: when the spawn countdown has
/// reached zero and the spaceout effect is inactive, one enemy appears
/// and the countdown is reset to the spawn interval. An arrival past
/// the `MAX_ENTITIES` cap is dropped, though the countdown still
/// resets.
pub open spec fn enemy_spawn_phase(v: GameView, sdir: Vec2) -> GameView {
    if v.next_enemy_timeout == 0 && v.spaceout_time == 0 {
        GameView {
            enemies: if v.enemies.len() < MAX_ENTITIES {
                v.enemies.push(spawned_enemy(sdir))
            } else {
                v.enemies
            },
            next_enemy_timeout: ENEMY_SPAWN_INTERVAL as int,
            ..v
        }
    } else {
        v
    }
}

/// The motion phase of a tick: every laser advances; enemies advance
/// only while the spaceout effect is inactive.
pub open spec fn motion_phase(v: GameView, dt: int) -> GameView {
    GameView {
        lasers: v.lasers.map_values(|a: Actor| actor_step(a, dt)),
        enemies: if v.spaceout_time == 0 {
            v.enemies.map_values(|e: Enemy| enemy_step(e, dt))
        } else {
            v.enemies
        },
        ..v
    }
}

/// How many of the lasers hit an enemy standing at `p`: those within
/// `HIT_RADIUS` of it.
pub open spec fn hits_on_point(ls: Seq<Actor>, p: Vec2) -> int
    decreases ls.len(),
{
    if ls.len() == 0 {
        0
    } else {
        hits_on_point(ls.drop_last(), p) + if collides_spec(ls.last().pos, p, HIT_RADIUS as int) {
            1int
        } else {
            0int
        }
    }
}

/// How many of the enemies a laser standing at `p` hits.
pub open spec fn hits_by_laser(es: Seq<Enemy>, p: Vec2) -> int
    decreases es.len(),
{
    if es.len() == 0 {
        0
    } else {
        hits_by_laser(es.drop_last(), p) + if collides_spec(p, es.last().pos, HIT_RADIUS as int) {
            1int
        } else {
            0int
        }
    }
}

/// A hit count lies between zero and the number of lasers.
pub proof fn lemma_hits_on_point_bounds(ls: Seq<Actor>, p: Vec2)
    ensures
        0 <= hits_on_point(ls, p) <= ls.len(),
    decreases ls.len(),
{
    if ls.len() > 0 {
        lemma_hits_on_point_bounds(ls.drop_last(), p);
    }
}

/// A hit count lies between zero and the number of enemies.
pub proof fn lemma_hits_by_laser_bounds(es: Seq<Enemy>, p: Vec2)
    ensures
        0 <= hits_by_laser(es, p) <= es.len(),
    decreases es.len(),
{
    if es.len() > 0 {
        lemma_hits_by_laser_bounds(es.drop_last(), p);
    }
}

/// A life counter after the given number of hits: `DAMAGE` each, and
/// it never sinks below `LIFE_FLOOR`.
pub open spec fn drained(life: int, hits: int) -> int {
    if life - hits * (DAMAGE as int) >= LIFE_FLOOR as int {
        life - hits * (DAMAGE as int)
    } else {
        LIFE_FLOOR as int
    }
}

/// A laser after taking the given number of hits.
pub open spec fn laser_after_hits(a: Actor, hits: int) -> Actor {
    Actor { life: drained(a.life as int, hits) as i32, ..a }
}

/// An enemy after taking the given number of hits.
pub open spec fn enemy_after_hits(e: Enemy, hits: int) -> Enemy {
    Enemy { life: drained(e.life as int, hits) as i32, ..e }
}

/// The collision phase of a tick: every laser loses `DAMAGE` life for
/// each enemy within `HIT_RADIUS` of it, and every enemy loses
/// `DAMAGE` life for each laser within `HIT_RADIUS` of it — one laser
/// may well damage several enemies in one tick. Positions do not
/// change.
pub open spec fn collision_phase(v: GameView) -> GameView {
    GameView {
        lasers: Seq::new(
            v.lasers.len(),
            |i: int| laser_after_hits(v.lasers[i], hits_by_laser(v.enemies, v.lasers[i].pos)),
        ),
        enemies: Seq::new(
            v.enemies.len(),
            |j: int| enemy_after_hits(v.enemies[j], hits_on_point(v.lasers, v.enemies[j].pos)),
        ),
        ..v
    }
}

/// One whole fixed sub-step: countdowns, spawning, motion, collisions.
pub open spec fn tick_spec(v: GameView, dt: int, sdir: Vec2) -> GameView {
    collision_phase(
        motion_phase(enemy_spawn_phase(laser_spawn_phase(timers_phase(v, dt)), sdir), dt),
    )
}

/// Advance every laser in the list by `dt` milliseconds.
#[verifier::loop_isolation(false)]
fn step_lasers(ls: &mut Vec<Actor>, dt: i64)
    requires
        forall|i: int| 0 <= i < old(ls)@.len() ==> wf_actor(#[trigger] old(ls)@[i]),
        0 <= dt <= DT_LIMIT,
    ensures
        final(ls)@ == old(ls)@.map_values(|a: Actor| actor_step(a, dt as int)),
        forall|i: int| 0 <= i < final(ls)@.len() ==> wf_actor(#[trigger] final(ls)@[i]),
{
    let ghost orig = ls@;
    let n = ls.len();
    let mut i: usize = 0;
    while i < n
        invariant
            i <= n,
            ls@.len() == n,
            forall|j: int| 0 <= j < i ==> #[trigger] ls@[j] == actor_step(orig[j], dt as int),
            forall|j: int| 0 <= j < i ==> wf_actor(#[trigger] ls@[j]),
            forall|j: int| i <= j < n ==> #[trigger] ls@[j] == orig[j],
        decreases n - i,
    {
        let mut a = ls[i];
        a.update(dt);
        ls.set(i, a);
        i = i + 1;
    }
    proof {
        assert(ls@ =~= orig.map_values(|a: Actor| actor_step(a, dt as int)));
    }
}

/// Advance every enemy in the list by `dt` milliseconds.
#[verifier::loop_isolation(false)]
fn step_enemies(es: &mut Vec<Enemy>, dt: i64)
    requires
        forall|i: int| 0 <= i < old(es)@.len() ==> wf_enemy(#[trigger] old(es)@[i]),
        0 <= dt <= DT_LIMIT,
    ensures
        final(es)@ == old(es)@.map_values(|e: Enemy| enemy_step(e, dt as int)),
        forall|i: int| 0 <= i < final(es)@.len() ==> wf_enemy(#[trigger] final(es)@[i]),
{
    let ghost orig = es@;
    let n = es.len();
    let mut i: usize = 0;
    while i < n
        invariant
            i <= n,
            es@.len() == n,
            forall|j: int| 0 <= j < i ==> #[trigger] es@[j] == enemy_step(orig[j], dt as int),
            forall|j: int| 0 <= j < i ==> wf_enemy(#[trigger] es@[j]),
            forall|j: int| i <= j < n ==> #[trigger] es@[j] == orig[j],
        decreases n - i,
    {
        let mut e = es[i];
        e.update(dt);
        es.set(i, e);
        i = i + 1;
    }
    proof {
        assert(es@ =~= orig.map_values(|e: Enemy| enemy_step(e, dt as int)));
    }
}

/// One hit's worth of damage, floored at `LIFE_FLOOR`.
fn hit_one(life: i32) -> (r: i32)
    requires
        LIFE_FLOOR <= life,
    ensures
        r as int == drained(life as int, 1),
{
    if life >= LIFE_FLOOR + DAMAGE {
        life - DAMAGE
    } else {
        LIFE_FLOOR
    }
}

/// The given number of hits' worth of damage, floored at `LIFE_FLOOR`.
fn drain_by(life: i32, hits: usize) -> (r: i32)
    requires
        LIFE_FLOOR <= life,
        hits <= MAX_ENTITIES,
    ensures
        r as int == drained(life as int, hits as int),
{
    proof {
        lemma_mul_bound(DAMAGE as int, hits as int, DAMAGE as int, MAX_ENTITIES as int);
    }
    let dec = (DAMAGE as i64) * (hits as i64);
    let nl = life as i64 - dec;
    if nl >= LIFE_FLOOR as i64 {
        nl as i32
    } else {
        LIFE_FLOOR
    }
}

/// Play every laser against every enemy, in list order, damaging both
/// parties of each hit.
#[verifier::loop_isolation(false)]
fn resolve_collisions(ls: &mut Vec<Actor>, es: &mut Vec<Enemy>)
    requires
        forall|i: int| 0 <= i < old(ls)@.len() ==> wf_actor(#[trigger] old(ls)@[i]),
        forall|j: int| 0 <= j < old(es)@.len() ==> wf_enemy(#[trigger] old(es)@[j]),
        old(ls)@.len() <= MAX_ENTITIES,
        old(es)@.len() <= MAX_ENTITIES,
    ensures
        final(ls)@ == Seq::new(
            old(ls)@.len(),
            |i: int| laser_after_hits(old(ls)@[i], hits_by_laser(old(es)@, old(ls)@[i].pos)),
        ),
        final(es)@ == Seq::new(
            old(es)@.len(),
            |j: int| enemy_after_hits(old(es)@[j], hits_on_point(old(ls)@, old(es)@[j].pos)),
        ),
{
    let ghost ls0 = ls@;
    let ghost es0 = es@;
    let nl = ls.len();
    let ne = es.len();
    let mut i: usize = 0;
    while i < nl
        invariant
            i <= nl,
            ls@.len() == nl,
            es@.len() == ne,
            forall|a: int| 0 <= a < i ==> #[trigger] ls@[a] == laser_after_hits(
                ls0[a],
                hits_by_laser(es0, ls0[a].pos),
            ),
            forall|a: int| i <= a < nl ==> #[trigger] ls@[a] == ls0[a],
            forall|b: int| 0 <= b < ne ==> #[trigger] es@[b] == enemy_after_hits(
                es0[b],
                hits_on_point(ls0.take(i as int), es0[b].pos),
            ),
        decreases nl - i,
    {
        let lpos = ls[i].pos;
        let mut hits: usize = 0;
        let mut j: usize = 0;
        while j < ne
            invariant
                j <= ne,
                i < nl,
                es@.len() == ne,
                hits <= j,
                hits as int == hits_by_laser(es0.take(j as int), lpos),
                forall|b: int| 0 <= b < j ==> #[trigger] es@[b] == enemy_after_hits(
                    es0[b],
                    hits_on_point(ls0.take(i as int + 1), es0[b].pos),
                ),
                forall|b: int| j <= b < ne ==> #[trigger] es@[b] == enemy_after_hits(
                    es0[b],
                    hits_on_point(ls0.take(i as int), es0[b].pos),
                ),
            decreases ne - j,
        {
            proof {
                lemma_hits_on_point_bounds(ls0.take(i as int), es0[j as int].pos);
                lemma_hits_by_laser_bounds(es0.take(j as int), lpos);
                assert(es0.take(j as int + 1).drop_last() =~= es0.take(j as int));
                assert(ls0.take(i as int + 1).drop_last() =~= ls0.take(i as int));
            }
            let epos = es[j].pos;
            assert(epos == es0[j as int].pos);
            let hit = collides(lpos, epos, HIT_RADIUS);
            if hit {
                let mut e = es[j];
                e.life = hit_one(e.life);
                es.set(j, e);
                hits = hits + 1;
            }
            j = j + 1;
        }
        proof {
            assert(es0.take(ne as int) =~= es0);
            assert(ls0.take(nl as int) =~= ls0);
            lemma_hits_by_laser_bounds(es0, lpos);
        }
        let mut a = ls[i];
        a.life = drain_by(a.life, hits);
        ls.set(i, a);
        i = i + 1;
    }
    proof {
        assert(ls0.take(nl as int) =~= ls0);
        assert(ls@ =~= Seq::new(
            ls0.len(),
            |i: int| laser_after_hits(ls0[i], hits_by_laser(es0, ls0[i].pos)),
        ));
        assert(es@ =~= Seq::new(
            es0.len(),
            |j: int| enemy_after_hits(es0[j], hits_on_point(ls0, es0[j].pos)),
        ));
    }
}

/// The lasers that survive a cleanup: those with positive life, in
/// their original order.
pub open spec fn live_lasers(s: Seq<Actor>) -> Seq<Actor>
    decreases s.len(),
{
    if s.len() == 0 {
        Seq::empty()
    } else {
        let rest = live_lasers(s.drop_last());
        if s.last().life > 0 {
            rest.push(s.last())
        } else {
            rest
        }
    }
}

/// The enemies that survive a cleanup: those with positive life, in
/// their original order.
pub open spec fn live_enemies(s: Seq<Enemy>) -> Seq<Enemy>
    decreases s.len(),
{
    if s.len() == 0 {
        Seq::empty()
    } else {
        let rest = live_enemies(s.drop_last());
        if s.last().life > 0 {
            rest.push(s.last())
        } else {
            rest
        }
    }
}

/// Survivors are no more numerous than the whole list, and stay
/// well-formed.
pub proof fn lemma_live_lasers_props(s: Seq<Actor>)
    requires
        forall|i: int| 0 <= i < s.len() ==> wf_actor(#[trigger] s[i]),
    ensures
        live_lasers(s).len() <= s.len(),
        forall|i: int| 0 <= i < live_lasers(s).len() ==> wf_actor(#[trigger] live_lasers(s)[i]),
    decreases s.len(),
{
    if s.len() > 0 {
        lemma_live_lasers_props(s.drop_last());
    }
}

/// Survivors are no more numerous than the whole list, and stay
/// well-formed.
pub proof fn lemma_live_enemies_props(s: Seq<Enemy>)
    requires
        forall|i: int| 0 <= i < s.len() ==> wf_enemy(#[trigger] s[i]),
    ensures
        live_enemies(s).len() <= s.len(),
        forall|i: int| 0 <= i < live_enemies(s).len() ==> wf_enemy(#[trigger] live_enemies(s)[i]),
    decreases s.len(),
{
    if s.len() > 0 {
        lemma_live_enemies_props(s.drop_last());
    }
}

/// How many enemies a cleanup of `v` removes.
pub open spec fn kills_of(v: GameView) -> int {
    v.enemies.len() - live_enemies(v.enemies).len()
}

/// `x` raised by `inc`, held at `cap`.
pub open spec fn bump_capped(x: int, inc: int, cap: int) -> int {
    if x + inc > cap {
        cap
    } else {
        x + inc
    }
}

/// The once-per-frame cleanup: dead lasers and enemies leave, and for
/// each of the `k` enemies that died, score and money rise by
/// `KILL_SCORE` and the spaceout charge by `KILL_CHARGE`, the charge
/// held at `SPACEOUT_FULL` (score and money at `i32::MAX`, which a
/// session never nears).
pub open spec fn cleanup_spec(v: GameView) -> GameView {
    let k = kills_of(v);
    GameView {
        lasers: live_lasers(v.lasers),
        enemies: live_enemies(v.enemies),
        score: bump_capped(v.score, KILL_SCORE as int * k, i32::MAX as int),
        money: bump_capped(v.money, KILL_SCORE as int * k, i32::MAX as int),
        spaceout_charge: bump_capped(v.spaceout_charge, KILL_CHARGE as int * k, SPACEOUT_FULL as int),
        ..v
    }
}

/// The lasers of `ls` with positive life, in order.
#[verifier::loop_isolation(false)]
fn retain_live_lasers(ls: &Vec<Actor>) -> (out: Vec<Actor>)
    ensures
        out@ == live_lasers(ls@),
{
    let mut out: Vec<Actor> = Vec::new();
    let n = ls.len();
    let mut i: usize = 0;
    while i < n
        invariant
            i <= n,
            out@ == live_lasers(ls@.take(i as int)),
        decreases n - i,
    {
        proof {
            assert(ls@.take(i as int + 1).drop_last() =~= ls@.take(i as int));
        }
        if ls[i].life > 0 {
            let a = ls[i];
            out.push(a);
        }
        i = i + 1;
    }
    proof {
        assert(ls@.take(n as int) =~= ls@);
    }
    out
}

/// The enemies of `es` with positive life, in order.
#[verifier::loop_isolation(false)]
fn retain_live_enemies(es: &Vec<Enemy>) -> (out: Vec<Enemy>)
    ensures
        out@ == live_enemies(es@),
{
    let mut out: Vec<Enemy> = Vec::new();
    let n = es.len();
    let mut i: usize = 0;
    while i < n
        invariant
            i <= n,
            out@ == live_enemies(es@.take(i as int)),
        decreases n - i,
    {
        proof {
            assert(es@.take(i as int + 1).drop_last() =~= es@.take(i as int));
        }
        if es[i].life > 0 {
            let e = es[i];
            out.push(e);
        }
        i = i + 1;
    }
    proof {
        assert(es@.take(n as int) =~= es@);
    }
    out
}

/// `v` raised by `per` for each of `k` kills, held at `cap`.
fn bump_i32(v: i32, per: i32, k: usize, cap: i32) -> (r: i32)
    requires
        0 <= v <= cap,
        0 <= per <= 100,
        k <= MAX_ENTITIES,
    ensures
        r as int == bump_capped(v as int, per as int * k as int, cap as int),
{
    proof {
        lemma_mul_bound(per as int, k as int, 100, MAX_ENTITIES as int);
    }
    let inc = (per as i64) * (k as i64);
    let sum = v as i64 + inc;
    if sum > cap as i64 {
        cap
    } else {
        sum as i32
    }
}

impl MainState {
    /// A fresh session.
    pub fn new() -> (s: MainState)
        ensures
            s@ == initial_view(),
            wf_view(s@),
    {
        let s = MainState {
            player: Player::new(),
            enemies: Vec::new(),
            lasers: Vec::new(),
            firing: false,
            next_shot_timeout: 0,
            next_enemy_timeout: 0,
            mouse_position: (0, 0),
            score: 0,
            money: 100,
            spaceout_charge: 0,
            spaceout_time: 0,
        };
        proof {
            assert(s@ =~= initial_view());
        }
        s
    }

    /// The input collaborator reports whether the trigger is held.
    pub fn set_firing(&mut self, firing: bool)
        ensures
            final(self)@ == (GameView { firing, ..old(self)@ }),
            wf_view(old(self)@) ==> wf_view(final(self)@),
    {
        self.firing = firing;
        proof {
            assert(self@ =~= (GameView { firing, ..old(self)@ }));
        }
    }

    /// The input collaborator reports the mouse position in screen
    /// units; coordinates are held to `MOUSE_LIMIT`.
    pub fn set_mouse_position(&mut self, x: i64, y: i64)
        ensures
            final(self)@ == (GameView {
                mouse_x: clamp_spec(x as int, -MOUSE_LIMIT as int, MOUSE_LIMIT as int),
                mouse_y: clamp_spec(y as int, -MOUSE_LIMIT as int, MOUSE_LIMIT as int),
                ..old(self)@
            }),
            wf_view(old(self)@) ==> wf_view(final(self)@),
    {
        let cx = clamp_i64(x, -MOUSE_LIMIT, MOUSE_LIMIT);
        let cy = clamp_i64(y, -MOUSE_LIMIT, MOUSE_LIMIT);
        self.mouse_position = (cx, cy);
        proof {
            assert(self@ =~= (GameView {
                mouse_x: clamp_spec(x as int, -MOUSE_LIMIT as int, MOUSE_LIMIT as int),
                mouse_y: clamp_spec(y as int, -MOUSE_LIMIT as int, MOUSE_LIMIT as int),
                ..old(self)@
            }));
        }
    }

    /// The activation key: only a full charge starts the spaceout
    /// effect; it then grants `SPACEOUT_DURATION` of frozen time and
    /// drains the charge to exactly zero.
    pub fn on_activation_key(&mut self)
        ensures
            old(self).spaceout_charge == SPACEOUT_FULL ==> final(self)@ == (GameView {
                spaceout_time: SPACEOUT_DURATION as int,
                spaceout_charge: 0,
                ..old(self)@
            }),
            old(self).spaceout_charge != SPACEOUT_FULL ==> *final(self) == *old(self),
            wf_view(old(self)@) ==> wf_view(final(self)@),
    {
        if self.spaceout_charge == SPACEOUT_FULL {
            self.spaceout_time = SPACEOUT_DURATION;
            self.spaceout_charge = 0;
            proof {
                assert(self@ =~= (GameView {
                    spaceout_time: SPACEOUT_DURATION as int,
                    spaceout_charge: 0,
                    ..old(self)@
                }));
            }
        }
    }

    /// Run all countdowns `dt` milliseconds further down.
    fn run_timers(&mut self, dt: i64)
        requires
            wf_view(old(self)@),
            0 <= dt <= DT_LIMIT,
        ensures
            final(self)@ == timers_phase(old(self)@, dt as int),
            wf_view(final(self)@),
    {
        self.next_shot_timeout = if self.next_shot_timeout - dt > 0 {
            self.next_shot_timeout - dt
        } else {
            0
        };
        self.next_enemy_timeout = if self.next_enemy_timeout - dt > 0 {
            self.next_enemy_timeout - dt
        } else {
            0
        };
        self.spaceout_time = if self.spaceout_time - dt > 0 {
            self.spaceout_time - dt
        } else {
            0
        };
        proof {
            assert(self@ =~= timers_phase(old(self)@, dt as int));
        }
    }

    /// Fire one laser if the trigger is held and the countdown is out.
    fn spawn_laser(&mut self)
        requires
            wf_view(old(self)@),
        ensures
            final(self)@ == laser_spawn_phase(old(self)@),
            wf_view(final(self)@),
    {
        if self.firing && self.next_shot_timeout == 0 {
            let mx = self.mouse_position.0;
            let my = self.mouse_position.1;
            let aim = Vec2 { x: (mx - SCREEN_CENTER_X) * UNIT, y: (my - SCREEN_CENTER_Y) * UNIT };
            let dir = normalize(aim);
            proof {
                lemma_mul_bound(dir.x as int, LASER_SPEED as int, UNIT as int, LASER_SPEED as int);
                lemma_mul_bound(dir.y as int, LASER_SPEED as int, UNIT as int, LASER_SPEED as int);
            }
            let vel = Vec2 { x: div_unit(dir.x * LASER_SPEED), y: div_unit(dir.y * LASER_SPEED) };
            let laser = Actor {
                tag: ActorType::Laser,
                pos: Vec2 { x: 0, y: 0 },
                velocity: vel,
                life: LASER_LIFE,
            };
            if self.lasers.len() < MAX_ENTITIES {
                self.lasers.push(laser);
            }
            self.next_shot_timeout = self.player.laser_fire_rate;
            proof {
                assert(self@ =~= laser_spawn_phase(old(self)@));
            }
        } else {
            proof {
                assert(self@ =~= laser_spawn_phase(old(self)@));
            }
        }
    }

    /// Let one enemy in if the spawn countdown is out and time is not
    /// frozen; `spawn_dir` is the drawn unit heading of the spawn
    /// point.
    fn spawn_enemy(&mut self, spawn_dir: Vec2)
        requires
            wf_view(old(self)@),
            is_direction(spawn_dir),
        ensures
            final(self)@ == enemy_spawn_phase(old(self)@, spawn_dir),
            wf_view(final(self)@),
    {
        if self.next_enemy_timeout == 0 && self.spaceout_time == 0 {
            let pos = Vec2 { x: SPAWN_RADIUS * spawn_dir.x, y: SPAWN_RADIUS * spawn_dir.y };
            let to_base = normalize(Vec2 { x: -pos.x, y: -pos.y });
            let enemy = Enemy::new(
                pos,
                to_base,
                ENEMY_SPEED,
                Option::Some(MovementMod::Spiral(SPIRAL_FACTOR)),
                ENEMY_LIFE,
                ENEMY_WORTH,
            );
            if self.enemies.len() < MAX_ENTITIES {
                self.enemies.push(enemy);
            }
            self.next_enemy_timeout = ENEMY_SPAWN_INTERVAL;
            proof {
                assert(self@ =~= enemy_spawn_phase(old(self)@, spawn_dir));
            }
        } else {
            proof {
                assert(self@ =~= enemy_spawn_phase(old(self)@, spawn_dir));
            }
        }
    }

    /// Move every laser, and every enemy unless time is frozen.
    fn motion(&mut self, dt: i64)
        requires
            wf_view(old(self)@),
            0 <= dt <= DT_LIMIT,
        ensures
            final(self)@ == motion_phase(old(self)@, dt as int),
            wf_view(final(self)@),
    {
        step_lasers(&mut self.lasers, dt);
        if self.spaceout_time == 0 {
            step_enemies(&mut self.enemies, dt);
        }
        proof {
            assert(self@ =~= motion_phase(old(self)@, dt as int));
        }
    }

    /// Resolve all laser-enemy hits of this sub-step.
    fn collisions(&mut self)
        requires
            wf_view(old(self)@),
        ensures
            final(self)@ == collision_phase(old(self)@),
            wf_view(final(self)@),
    {
        resolve_collisions(&mut self.lasers, &mut self.enemies);
        proof {
            assert(self@ =~= collision_phase(old(self)@));
            assert forall|i: int| 0 <= i < self@.lasers.len() implies wf_actor(
                #[trigger] self@.lasers[i],
            ) by {
                lemma_hits_by_laser_bounds(old(self)@.enemies, old(self)@.lasers[i].pos);
            }
            assert forall|j: int| 0 <= j < self@.enemies.len() implies wf_enemy(
                #[trigger] self@.enemies[j],
            ) by {
                lemma_hits_on_point_bounds(old(self)@.lasers, old(self)@.enemies[j].pos);
            }
        }
    }

    /// One fixed sub-step of `delta_time` milliseconds; `spawn_dir` is
    /// the unit heading drawn for the enemy spawn point, should one
    /// spawn fall due this sub-step.
    pub fn tick(&mut self, delta_time: i64, spawn_dir: Vec2)
        requires
            wf_view(old(self)@),
            0 <= delta_time <= DT_LIMIT,
            is_direction(spawn_dir),
        ensures
            final(self)@ == tick_spec(old(self)@, delta_time as int, spawn_dir),
            wf_view(final(self)@),
    {
        self.run_timers(delta_time);
        self.spawn_laser();
        self.spawn_enemy(spawn_dir);
        self.motion(delta_time);
        self.collisions();
    }

    /// The once-per-frame cleanup after the sub-steps of a frame have
    /// run: remove the dead, count the kills, settle the resources.
    pub fn end_frame(&mut self)
        requires
            wf_view(old(self)@),
        ensures
            final(self)@ == cleanup_spec(old(self)@),
            wf_view(final(self)@),
    {
        proof {
            lemma_live_lasers_props(self.lasers@);
            lemma_live_enemies_props(self.enemies@);
        }
        let new_lasers = retain_live_lasers(&self.lasers);
        self.lasers = new_lasers;
        let num_enemies = self.enemies.len();
        let new_enemies = retain_live_enemies(&self.enemies);
        let kills = num_enemies - new_enemies.len();
        self.enemies = new_enemies;
        self.score = bump_i32(self.score, KILL_SCORE, kills, i32::MAX);
        self.money = bump_i32(self.money, KILL_SCORE, kills, i32::MAX);
        self.spaceout_charge = bump_i32(self.spaceout_charge, KILL_CHARGE, kills, SPACEOUT_FULL);
        proof {
            assert(self@ =~= cleanup_spec(old(self)@));
        }
    }
}

/// Law: through a sub-step in which the spaceout effect stays active,
/// no enemy moves and none is added — only enemy life can change, by
/// collisions.
pub proof fn lemma_spaceout_freezes_enemies(v: GameView, dt: int, sdir: Vec2)
    requires
        wf_view(v),
        0 <= dt <= DT_LIMIT,
        v.spaceout_time - dt > 0,
    ensures
        tick_spec(v, dt, sdir).enemies.len() == v.enemies.len(),
        forall|j: int| 0 <= j < v.enemies.len() ==> #[trigger] tick_spec(
            v,
            dt,
            sdir,
        ).enemies[j].pos == v.enemies[j].pos,
{
}

/// Law: a cleanup in which exactly `k` enemies die raises score and
/// money by exactly `KILL_SCORE * k` each, wherever that stays within
/// the machine range, and raises the charge by `KILL_CHARGE * k`
/// before the clamp at `SPACEOUT_FULL`.
pub proof fn lemma_scoring(v: GameView)
    requires
        wf_view(v),
        v.score + KILL_SCORE * kills_of(v) <= i32::MAX,
        v.money + KILL_SCORE * kills_of(v) <= i32::MAX,
    ensures
        cleanup_spec(v).score == v.score + KILL_SCORE * kills_of(v),
        cleanup_spec(v).money == v.money + KILL_SCORE * kills_of(v),
        cleanup_spec(v).spaceout_charge == bump_capped(
            v.spaceout_charge,
            KILL_CHARGE * kills_of(v),
            SPACEOUT_FULL as int,
        ),
{
}

/// Law: the score never falls: a sub-step leaves it untouched, and a
/// cleanup can only raise it.
pub proof fn lemma_score_monotonic(v: GameView, dt: int, sdir: Vec2)
    requires
        wf_view(v),
        0 <= dt <= DT_LIMIT,
    ensures
        tick_spec(v, dt, sdir).score == v.score,
        cleanup_spec(v).score >= v.score,
{
    lemma_live_enemies_props(v.enemies);
}

/// Law: whatever a frame brings, the spaceout charge a cleanup leaves
/// lies in `[0, SPACEOUT_FULL]`.
pub proof fn lemma_charge_clamped(v: GameView)
    requires
        wf_view(v),
    ensures
        0 <= cleanup_spec(v).spaceout_charge <= SPACEOUT_FULL,
{
    lemma_live_enemies_props(v.enemies);
}

} // verus!
