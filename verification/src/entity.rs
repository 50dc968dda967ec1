//! The entities of a session: the player, lasers and enemies.
//!
//! Every update has an exact fixed-point contract: a position advances
//! by `velocity * dt` (or `direction * speed * dt / UNIT`), clamped to
//! the playing field, and an entity farther than `OOB_RADIUS` from the
//! origin has its life forced negative so the next cleanup removes it
//! (the distance-based out-of-bounds policy).

use vstd::prelude::*;

use crate::math::Vec2;
use crate::math::{clamp_i64, clamp_spec, div_unit, normalize, tdiv};
use crate::math::{in_bounds, is_direction, lemma_mul_bound, norm_sq, norm_sq_spec, normalize_spec};
use crate::math::{DT_LIMIT, POS_LIMIT, SPEED_LIMIT, UNIT};

verus! {

/// Life counters saturate here instead of underflowing.
pub const LIFE_FLOOR: i32 = -1_000_000_000;

/// Distance from the origin, in milliunits, past which an entity is
/// marked dead.
pub const OOB_RADIUS: i64 = 800_000;

/// Life taken from both parties of a laser-enemy hit.
pub const DAMAGE: i32 = 5;

/// What a moving actor is.
#[derive(Clone, Copy, PartialEq, Eq, Structural, Debug)]
pub enum ActorType {
    Player,
    Laser,
}

/// A projectile (or the player marker): a point with a velocity in
/// milliunits per millisecond and a life counter.
#[derive(Clone, Copy, PartialEq, Eq, Debug)]
pub struct Actor {
    pub tag: ActorType,
    pub pos: Vec2,
    pub velocity: Vec2,
    pub life: i32,
}

/// A per-enemy steering behavior applied once per step, before the
/// position is integrated.
#[derive(Clone, Copy, PartialEq, Eq, Debug)]
pub enum MovementMod {
    /// The speed grows by this much, in milliunits per millisecond,
    /// each step.
    Accelerating(i64),
    /// The heading is re-derived each step as a blend, weighted by
    /// this factor out of `UNIT`, between "toward the origin" and the
    /// perpendicular of that; the path curves inward.
    Spiral(i64),
}

/// An enemy: a point with a unit heading, a scalar speed in milliunits
/// per millisecond, an optional steering behavior, and bookkeeping for
/// health and reward.
#[derive(Clone, Copy, PartialEq, Eq, Debug)]
pub struct Enemy {
    pub pos: Vec2,
    pub direction: Vec2,
    pub speed: i64,
    pub movement_mod: Option<MovementMod>,
    pub life: i32,
    pub max_life: i32,
    pub worth: i32,
}

/// The player's tuning values; the fire rate is in milliseconds.
#[derive(Clone, Copy, PartialEq, Eq, Structural, Debug)]
pub struct Player {
    pub life: i32,
    pub num_lasers: i32,
    pub laser_speed: i64,
    pub laser_fire_rate: i64,
}

/// The bounds every live actor keeps.
pub open spec fn wf_actor(a: Actor) -> bool {
    &&& in_bounds(a.pos)
    &&& -SPEED_LIMIT <= a.velocity.x <= SPEED_LIMIT
    &&& -SPEED_LIMIT <= a.velocity.y <= SPEED_LIMIT
    &&& LIFE_FLOOR <= a.life
}

/// The bounds a steering behavior's parameter keeps.
pub open spec fn wf_mod(m: Option<MovementMod>) -> bool {
    match m {
        Option::None => true,
        Option::Some(MovementMod::Accelerating(acc)) => -SPEED_LIMIT <= acc <= SPEED_LIMIT,
        Option::Some(MovementMod::Spiral(k)) => 0 <= k <= UNIT,
    }
}

/// The bounds every live enemy keeps.
pub open spec fn wf_enemy(e: Enemy) -> bool {
    &&& in_bounds(e.pos)
    &&& is_direction(e.direction)
    &&& -SPEED_LIMIT <= e.speed <= SPEED_LIMIT
    &&& wf_mod(e.movement_mod)
    &&& LIFE_FLOOR <= e.life
}

/// A coordinate advanced by `delta` and held to the playing field.
pub open spec fn moved_coord(p: int, delta: int) -> int {
    clamp_spec(p + delta, -POS_LIMIT as int, POS_LIMIT as int)
}

/// Dead once it left the disc of radius `OOB_RADIUS` around the origin.
pub open spec fn out_of_bounds(p: Vec2) -> bool {
    norm_sq_spec(p) > OOB_RADIUS * OOB_RADIUS
}

/// One step of an actor: the position advances by `velocity * dt`
/// (clamped to the field), then a position out of bounds forces the
/// life to `-1`.
pub open spec fn actor_step(a: Actor, dt: int) -> Actor {
    let p = Vec2 {
        x: moved_coord(a.pos.x as int, a.velocity.x * dt) as i64,
        y: moved_coord(a.pos.y as int, a.velocity.y * dt) as i64,
    };
    let life: i32 = if out_of_bounds(p) {
        (-1) as i32
    } else {
        a.life
    };
    Actor { pos: p, life, ..a }
}

/// The heading toward the origin, blended with its perpendicular by
/// the factor `k` out of `UNIT`, renormalized: the inward spiral.
pub open spec fn spiral_direction(pos: Vec2, k: int) -> Vec2 {
    let tb = normalize_spec(
        Vec2 { x: (-(pos.x as int)) as i64, y: (-(pos.y as int)) as i64 },
    );
    let perp = Vec2 { x: tb.y, y: (-(tb.x as int)) as i64 };
    let blend = Vec2 {
        x: ((UNIT - k) * tb.x + k * perp.x) as i64,
        y: ((UNIT - k) * tb.y + k * perp.y) as i64,
    };
    normalize_spec(blend)
}

/// The speed an enemy has after its steering behavior ran.
pub open spec fn stepped_speed(e: Enemy) -> i64 {
    match e.movement_mod {
        Option::Some(MovementMod::Accelerating(acc)) => clamp_spec(
            e.speed + acc,
            -SPEED_LIMIT as int,
            SPEED_LIMIT as int,
        ) as i64,
        _ => e.speed,
    }
}

/// The heading an enemy has after its steering behavior ran.
pub open spec fn stepped_direction(e: Enemy) -> Vec2 {
    match e.movement_mod {
        Option::Some(MovementMod::Spiral(k)) => spiral_direction(e.pos, k as int),
        _ => e.direction,
    }
}

/// One step of an enemy: steering first, then the position advances by
/// `direction * speed * dt / UNIT` (clamped to the field), then a
/// position out of bounds forces the life to `-1`.
pub open spec fn enemy_step(e: Enemy, dt: int) -> Enemy {
    let dir = stepped_direction(e);
    let speed = stepped_speed(e);
    let p = Vec2 {
        x: moved_coord(e.pos.x as int, tdiv(dir.x * speed * dt, UNIT as int)) as i64,
        y: moved_coord(e.pos.y as int, tdiv(dir.y * speed * dt, UNIT as int)) as i64,
    };
    let life: i32 = if out_of_bounds(p) {
        (-1) as i32
    } else {
        e.life
    };
    Enemy { pos: p, direction: dir, speed, life, ..e }
}

impl Actor {
    /// Advance this actor by `delta_time` milliseconds.
    pub fn update(&mut self, delta_time: i64)
        requires
            wf_actor(*old(self)),
            0 <= delta_time <= DT_LIMIT,
        ensures
            *final(self) == actor_step(*old(self), delta_time as int),
            wf_actor(*final(self)),
    {
        proof {
            lemma_mul_bound(
                self.velocity.x as int,
                delta_time as int,
                SPEED_LIMIT as int,
                DT_LIMIT as int,
            );
            lemma_mul_bound(
                self.velocity.y as int,
                delta_time as int,
                SPEED_LIMIT as int,
                DT_LIMIT as int,
            );
        }
        let dx = self.velocity.x * delta_time;
        let dy = self.velocity.y * delta_time;
        self.pos.x = clamp_i64(self.pos.x + dx, -POS_LIMIT, POS_LIMIT);
        self.pos.y = clamp_i64(self.pos.y + dy, -POS_LIMIT, POS_LIMIT);
        let d2 = norm_sq(self.pos);
        if d2 > OOB_RADIUS as u128 * OOB_RADIUS as u128 {
            self.life = -1;
        }
    }
}

impl Enemy {
    /// A fresh enemy; its health bar maximum is its starting life.
    pub fn new(
        pos: Vec2,
        direction: Vec2,
        speed: i64,
        movement_mod: Option<MovementMod>,
        life: i32,
        worth: i32,
    ) -> (e: Enemy)
        requires
            in_bounds(pos),
            is_direction(direction),
            -SPEED_LIMIT <= speed <= SPEED_LIMIT,
            wf_mod(movement_mod),
            LIFE_FLOOR <= life,
        ensures
            e == (Enemy { pos, direction, speed, movement_mod, life, max_life: life, worth }),
            wf_enemy(e),
    {
        Enemy { pos, direction, speed, movement_mod, life, max_life: life, worth }
    }

    /// Advance this enemy by `delta_time` milliseconds.
    pub fn update(&mut self, delta_time: i64)
        requires
            wf_enemy(*old(self)),
            0 <= delta_time <= DT_LIMIT,
        ensures
            *final(self) == enemy_step(*old(self), delta_time as int),
            wf_enemy(*final(self)),
    {
        match self.movement_mod {
            Option::Some(MovementMod::Accelerating(acc)) => {
                self.speed = clamp_i64(self.speed + acc, -SPEED_LIMIT, SPEED_LIMIT);
            },
            Option::Some(MovementMod::Spiral(k)) => {
                let tb = normalize(Vec2 { x: -self.pos.x, y: -self.pos.y });
                let perp = Vec2 { x: tb.y, y: -tb.x };
                proof {
                    lemma_mul_bound((UNIT - k) as int, tb.x as int, UNIT as int, UNIT as int);
                    lemma_mul_bound((UNIT - k) as int, tb.y as int, UNIT as int, UNIT as int);
                    lemma_mul_bound(k as int, perp.x as int, UNIT as int, UNIT as int);
                    lemma_mul_bound(k as int, perp.y as int, UNIT as int, UNIT as int);
                }
                let bx = (UNIT - k) * tb.x + k * perp.x;
                let by = (UNIT - k) * tb.y + k * perp.y;
                self.direction = normalize(Vec2 { x: bx, y: by });
            },
            Option::None => {},
        }
        proof {
            lemma_mul_bound(
                self.direction.x as int,
                self.speed as int,
                UNIT as int,
                SPEED_LIMIT as int,
            );
            lemma_mul_bound(
                self.direction.y as int,
                self.speed as int,
                UNIT as int,
                SPEED_LIMIT as int,
            );
            lemma_mul_bound(
                self.direction.x * self.speed,
                delta_time as int,
                UNIT as int * SPEED_LIMIT as int,
                DT_LIMIT as int,
            );
            lemma_mul_bound(
                self.direction.y * self.speed,
                delta_time as int,
                UNIT as int * SPEED_LIMIT as int,
                DT_LIMIT as int,
            );
        }
        let dx = div_unit(self.direction.x * self.speed * delta_time);
        let dy = div_unit(self.direction.y * self.speed * delta_time);
        self.pos.x = clamp_i64(self.pos.x + dx, -POS_LIMIT, POS_LIMIT);
        self.pos.y = clamp_i64(self.pos.y + dy, -POS_LIMIT, POS_LIMIT);
        proof {
            lemma_mul_bound(OOB_RADIUS as int, OOB_RADIUS as int, OOB_RADIUS as int, OOB_RADIUS as int);
        }
        let d2 = norm_sq(self.pos);
        if d2 > OOB_RADIUS as u128 * OOB_RADIUS as u128 {
            self.life = -1;
        }
    }
}

impl Player {
    /// The session's player, with the starting tuning values.
    pub fn new() -> (p: Player)
        ensures
            p == (Player { life: 1000, num_lasers: 1, laser_speed: 40, laser_fire_rate: 500 }),
    {
        Player { life: 1000, num_lasers: 1, laser_speed: 40, laser_fire_rate: 500 }
    }
}

/// Law: wherever the field clamp does not engage, an actor's position
/// after a step is exactly the old position plus `velocity * dt`.
pub proof fn lemma_actor_motion_exact(a: Actor, dt: int)
    requires
        wf_actor(a),
        0 <= dt <= DT_LIMIT,
        -POS_LIMIT <= a.pos.x + a.velocity.x * dt <= POS_LIMIT,
        -POS_LIMIT <= a.pos.y + a.velocity.y * dt <= POS_LIMIT,
    ensures
        actor_step(a, dt).pos.x == a.pos.x + a.velocity.x * dt,
        actor_step(a, dt).pos.y == a.pos.y + a.velocity.y * dt,
{
}

/// Law: wherever the field clamp does not engage, an enemy's position
/// after a step is exactly the old position plus the fixed-point
/// product `direction * speed * dt / UNIT` of its stepped heading and
/// speed.
pub proof fn lemma_enemy_motion_exact(e: Enemy, dt: int)
    requires
        wf_enemy(e),
        0 <= dt <= DT_LIMIT,
        -POS_LIMIT <= e.pos.x + tdiv(stepped_direction(e).x * stepped_speed(e) * dt, UNIT as int)
            <= POS_LIMIT,
        -POS_LIMIT <= e.pos.y + tdiv(stepped_direction(e).y * stepped_speed(e) * dt, UNIT as int)
            <= POS_LIMIT,
    ensures
        enemy_step(e, dt).pos.x == e.pos.x + tdiv(
            stepped_direction(e).x * stepped_speed(e) * dt,
            UNIT as int,
        ),
        enemy_step(e, dt).pos.y == e.pos.y + tdiv(
            stepped_direction(e).y * stepped_speed(e) * dt,
            UNIT as int,
        ),
{
}

} // verus!
