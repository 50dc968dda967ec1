//! Saving and restoring a session as a flat record of numbers.
//!
//! A snapshot holds the resource triple (score, money, charge), the
//! countdowns and input latches, and both entity lists, flattened into
//! one `i64` word list. Restoring validates everything the state
//! invariant demands, and restoring a saved session reproduces its
//! view exactly — so, the tick being a function of the view, the
//! restored session's future under equal inputs is the original's.

use vstd::prelude::*;

use crate::entity::{Actor, ActorType, Enemy, MovementMod, Player};
use crate::entity::{wf_actor, wf_enemy, LIFE_FLOOR};
use crate::math::Vec2;
use crate::math::{POS_LIMIT, SPEED_LIMIT, UNIT};
use crate::state::{GameView, MainState};
use crate::state::{wf_view, MAX_ENTITIES, MOUSE_LIMIT, SPACEOUT_FULL, TIMER_LIMIT};

verus! {

/// Words in a snapshot before the entity records.
pub const HEADER_WORDS: usize = 15;

/// Words per laser record.
pub const LASER_WORDS: usize = 6;

/// Words per enemy record.
pub const ENEMY_WORDS: usize = 10;

/// The word standing for an actor's tag.
pub open spec fn tag_code(t: ActorType) -> i64 {
    match t {
        ActorType::Player => 0,
        ActorType::Laser => 1,
    }
}

/// The tag a word stands for.
pub open spec fn tag_of(x: i64) -> ActorType {
    if x == 0 {
        ActorType::Player
    } else {
        ActorType::Laser
    }
}

/// The word standing for a steering behavior's variant.
pub open spec fn mod_code(m: Option<MovementMod>) -> i64 {
    match m {
        Option::None => 0,
        Option::Some(MovementMod::Accelerating(_)) => 1,
        Option::Some(MovementMod::Spiral(_)) => 2,
    }
}

/// The word holding a steering behavior's parameter.
pub open spec fn mod_param(m: Option<MovementMod>) -> i64 {
    match m {
        Option::None => 0,
        Option::Some(MovementMod::Accelerating(a)) => a,
        Option::Some(MovementMod::Spiral(k)) => k,
    }
}

/// The steering behavior a pair of words stands for.
pub open spec fn mod_of(c: i64, p: i64) -> Option<MovementMod> {
    if c == 1 {
        Option::Some(MovementMod::Accelerating(p))
    } else if c == 2 {
        Option::Some(MovementMod::Spiral(p))
    } else {
        Option::None
    }
}

/// One laser, flattened.
pub open spec fn encode_actor(a: Actor) -> Seq<i64> {
    seq![
        tag_code(a.tag),
        a.pos.x,
        a.pos.y,
        a.velocity.x,
        a.velocity.y,
        a.life as i64,
    ]
}

/// One enemy, flattened.
pub open spec fn encode_enemy(e: Enemy) -> Seq<i64> {
    seq![
        e.pos.x,
        e.pos.y,
        e.direction.x,
        e.direction.y,
        e.speed,
        mod_code(e.movement_mod),
        mod_param(e.movement_mod),
        e.life as i64,
        e.max_life as i64,
        e.worth as i64,
    ]
}

/// The laser list, flattened record by record.
pub open spec fn encode_lasers(s: Seq<Actor>) -> Seq<i64>
    decreases s.len(),
{
    if s.len() == 0 {
        Seq::empty()
    } else {
        encode_lasers(s.drop_last()) + encode_actor(s.last())
    }
}

/// The enemy list, flattened record by record.
pub open spec fn encode_enemies(s: Seq<Enemy>) -> Seq<i64>
    decreases s.len(),
{
    if s.len() == 0 {
        Seq::empty()
    } else {
        encode_enemies(s.drop_last()) + encode_enemy(s.last())
    }
}

/// The leading words: resources, countdowns, input latches, the
/// player's tuning values, and both list lengths.
pub open spec fn encode_header(v: GameView) -> Seq<i64> {
    seq![
        v.score as i64,
        v.money as i64,
        v.spaceout_charge as i64,
        v.spaceout_time as i64,
        v.next_shot_timeout as i64,
        v.next_enemy_timeout as i64,
        if v.firing { 1i64 } else { 0i64 },
        v.mouse_x as i64,
        v.mouse_y as i64,
        v.player.life as i64,
        v.player.num_lasers as i64,
        v.player.laser_speed,
        v.player.laser_fire_rate,
        v.lasers.len() as i64,
        v.enemies.len() as i64,
    ]
}

/// A whole session, flattened.
pub open spec fn encode_view(v: GameView) -> Seq<i64> {
    encode_header(v) + encode_lasers(v.lasers) + encode_enemies(v.enemies)
}

/// A flattened laser list is six words per laser.
pub proof fn lemma_encode_lasers_len(s: Seq<Actor>)
    ensures
        encode_lasers(s).len() == 6 * s.len(),
    decreases s.len(),
{
    if s.len() > 0 {
        lemma_encode_lasers_len(s.drop_last());
    }
}

/// A flattened enemy list is ten words per enemy.
pub proof fn lemma_encode_enemies_len(s: Seq<Enemy>)
    ensures
        encode_enemies(s).len() == 10 * s.len(),
    decreases s.len(),
{
    if s.len() > 0 {
        lemma_encode_enemies_len(s.drop_last());
    }
}

/// Word `f` of record `i` of a flattened laser list is word `f` of
/// laser `i`, flattened.
pub proof fn lemma_encode_lasers_at(s: Seq<Actor>, i: int, f: int)
    requires
        0 <= i < s.len(),
        0 <= f < 6,
    ensures
        encode_lasers(s)[6 * i + f] == encode_actor(s[i])[f],
    decreases s.len(),
{
    lemma_encode_lasers_len(s.drop_last());
    if i < s.len() - 1 {
        lemma_encode_lasers_at(s.drop_last(), i, f);
        assert(encode_lasers(s)[6 * i + f] == encode_lasers(s.drop_last())[6 * i + f]);
    } else {
        assert(encode_lasers(s)[6 * i + f] == encode_actor(s.last())[f]);
    }
}

/// Word `f` of record `j` of a flattened enemy list is word `f` of
/// enemy `j`, flattened.
pub proof fn lemma_encode_enemies_at(s: Seq<Enemy>, j: int, f: int)
    requires
        0 <= j < s.len(),
        0 <= f < 10,
    ensures
        encode_enemies(s)[10 * j + f] == encode_enemy(s[j])[f],
    decreases s.len(),
{
    lemma_encode_enemies_len(s.drop_last());
    if j < s.len() - 1 {
        lemma_encode_enemies_at(s.drop_last(), j, f);
        assert(encode_enemies(s)[10 * j + f] == encode_enemies(s.drop_last())[10 * j + f]);
    } else {
        assert(encode_enemies(s)[10 * j + f] == encode_enemy(s.last())[f]);
    }
}

/// Words past the header and before the enemy records come from the
/// flattened laser list.
pub proof fn lemma_view_laser_word(v: GameView, k: int)
    requires
        15 <= k < 15 + encode_lasers(v.lasers).len(),
    ensures
        encode_view(v)[k] == encode_lasers(v.lasers)[k - 15],
{
}

/// Words past the laser records come from the flattened enemy list.
pub proof fn lemma_view_enemy_word(v: GameView, k: int)
    requires
        15 + encode_lasers(v.lasers).len() <= k < encode_view(v).len(),
    ensures
        encode_view(v)[k] == encode_enemies(v.enemies)[k - 15 - encode_lasers(v.lasers).len()],
{
}

/// The word fits an `i32` field.
pub open spec fn fits_i32(x: i64) -> bool {
    i32::MIN <= x <= i32::MAX
}

/// The laser record at index `i` of the words, read back.
pub open spec fn actor_at(d: Seq<i64>, i: int) -> Actor {
    let b = 15 + 6 * i;
    Actor {
        tag: tag_of(d[b]),
        pos: Vec2 { x: d[b + 1], y: d[b + 2] },
        velocity: Vec2 { x: d[b + 3], y: d[b + 4] },
        life: d[b + 5] as i32,
    }
}

/// The enemy record at index `j` of the words, read back.
pub open spec fn enemy_at(d: Seq<i64>, nl: int, j: int) -> Enemy {
    let b = 15 + 6 * nl + 10 * j;
    Enemy {
        pos: Vec2 { x: d[b], y: d[b + 1] },
        direction: Vec2 { x: d[b + 2], y: d[b + 3] },
        speed: d[b + 4],
        movement_mod: mod_of(d[b + 5], d[b + 6]),
        life: d[b + 7] as i32,
        max_life: d[b + 8] as i32,
        worth: d[b + 9] as i32,
    }
}

/// Laser record `i` carries a life word that fits its field.
pub open spec fn laser_rec_ok(d: Seq<i64>, i: int) -> bool {
    fits_i32(d[15 + 6 * i + 5])
}

/// Enemy record `j` carries life, health-bar and worth words that fit
/// their fields.
pub open spec fn enemy_rec_ok(d: Seq<i64>, nl: int, j: int) -> bool {
    let b = 15 + 6 * nl + 10 * j;
    fits_i32(d[b + 7]) && fits_i32(d[b + 8]) && fits_i32(d[b + 9])
}

/// Every record's fixed-width words fit their fields.
pub open spec fn records_ok(d: Seq<i64>, nl: int, ne: int) -> bool {
    &&& forall|i: int| 0 <= i < nl ==> #[trigger] laser_rec_ok(d, i)
    &&& forall|j: int| 0 <= j < ne ==> #[trigger] enemy_rec_ok(d, nl, j)
}

/// The header's fixed-width words fit their fields.
pub open spec fn header_ok(d: Seq<i64>) -> bool {
    fits_i32(d[9]) && fits_i32(d[10])
}

/// The session the words describe, counts taken as given.
pub open spec fn view_at(d: Seq<i64>, nl: int, ne: int) -> GameView {
    GameView {
        lasers: Seq::new(nl as nat, |i: int| actor_at(d, i)),
        enemies: Seq::new(ne as nat, |j: int| enemy_at(d, nl, j)),
        player: Player {
            life: d[9] as i32,
            num_lasers: d[10] as i32,
            laser_speed: d[11],
            laser_fire_rate: d[12],
        },
        firing: d[6] != 0,
        next_shot_timeout: d[4] as int,
        next_enemy_timeout: d[5] as int,
        mouse_x: d[7] as int,
        mouse_y: d[8] as int,
        score: d[0] as int,
        money: d[1] as int,
        spaceout_charge: d[2] as int,
        spaceout_time: d[3] as int,
    }
}

/// What restoring a word list yields: the session it describes, or
/// nothing where the list is not a well-formed session's image.
pub open spec fn decode_view(d: Seq<i64>) -> Option<GameView> {
    if d.len() < 15 {
        Option::None
    } else {
        let nl = d[13] as int;
        let ne = d[14] as int;
        if !(0 <= nl <= MAX_ENTITIES && 0 <= ne <= MAX_ENTITIES) {
            Option::None
        } else if d.len() != 15 + 6 * nl + 10 * ne {
            Option::None
        } else if !(header_ok(d) && records_ok(d, nl, ne)) {
            Option::None
        } else {
            let v = view_at(d, nl, ne);
            if wf_view(v) {
                Option::Some(v)
            } else {
                Option::None
            }
        }
    }
}

impl MainState {
    /// Flatten this session into one word list.
    pub fn save(&self) -> (out: Vec<i64>)
        requires
            wf_view(self@),
        ensures
            out@ == encode_view(self@),
    {
        let mut out: Vec<i64> = Vec::new();
        out.push(self.score as i64);
        out.push(self.money as i64);
        out.push(self.spaceout_charge as i64);
        out.push(self.spaceout_time);
        out.push(self.next_shot_timeout);
        out.push(self.next_enemy_timeout);
        out.push(if self.firing { 1 } else { 0 });
        out.push(self.mouse_position.0);
        out.push(self.mouse_position.1);
        out.push(self.player.life as i64);
        out.push(self.player.num_lasers as i64);
        out.push(self.player.laser_speed);
        out.push(self.player.laser_fire_rate);
        out.push(self.lasers.len() as i64);
        out.push(self.enemies.len() as i64);
        proof {
            assert(out@ =~= encode_header(self@));
        }
        let nl = self.lasers.len();
        let mut i: usize = 0;
        while i < nl
            invariant
                i <= nl,
                nl == self.lasers@.len(),
                wf_view(self@),
                out@ == encode_header(self@) + encode_lasers(self.lasers@.take(i as int)),
            decreases nl - i,
        {
            proof {
                assert(self.lasers@.take(i as int + 1).drop_last() =~= self.lasers@.take(
                    i as int,
                ));
            }
            let a = self.lasers[i];
            out.push(
                match a.tag {
                    ActorType::Player => 0,
                    ActorType::Laser => 1,
                },
            );
            out.push(a.pos.x);
            out.push(a.pos.y);
            out.push(a.velocity.x);
            out.push(a.velocity.y);
            out.push(a.life as i64);
            proof {
                assert(out@ =~= encode_header(self@) + encode_lasers(self.lasers@.take(
                    i as int + 1,
                )));
            }
            i = i + 1;
        }
        proof {
            assert(self.lasers@.take(nl as int) =~= self.lasers@);
        }
        let ne = self.enemies.len();
        let mut j: usize = 0;
        while j < ne
            invariant
                j <= ne,
                ne == self.enemies@.len(),
                wf_view(self@),
                out@ == encode_header(self@) + encode_lasers(self.lasers@) + encode_enemies(
                    self.enemies@.take(j as int),
                ),
            decreases ne - j,
        {
            proof {
                assert(self.enemies@.take(j as int + 1).drop_last() =~= self.enemies@.take(
                    j as int,
                ));
            }
            let e = self.enemies[j];
            out.push(e.pos.x);
            out.push(e.pos.y);
            out.push(e.direction.x);
            out.push(e.direction.y);
            out.push(e.speed);
            match e.movement_mod {
                Option::None => {
                    out.push(0);
                    out.push(0);
                },
                Option::Some(MovementMod::Accelerating(acc)) => {
                    out.push(1);
                    out.push(acc);
                },
                Option::Some(MovementMod::Spiral(k)) => {
                    out.push(2);
                    out.push(k);
                },
            }
            out.push(e.life as i64);
            out.push(e.max_life as i64);
            out.push(e.worth as i64);
            proof {
                assert(out@ =~= encode_header(self@) + encode_lasers(self.lasers@)
                    + encode_enemies(self.enemies@.take(j as int + 1)));
            }
            j = j + 1;
        }
        proof {
            assert(self.enemies@.take(ne as int) =~= self.enemies@);
        }
        out
    }

    /// Read a session back from a word list; word lists that describe
    /// no well-formed session are refused.
    #[verifier::loop_isolation(false)]
    pub fn restore(data: &Vec<i64>) -> (r: Option<MainState>)
        ensures
            match r {
                Option::Some(s) => decode_view(data@) == Option::Some(s@) && wf_view(s@),
                Option::None => decode_view(data@) is None,
            },
    {
        if data.len() < 15 {
            return Option::None;
        }
        let nl64 = data[13];
        let ne64 = data[14];
        if nl64 < 0 || nl64 > MAX_ENTITIES as i64 || ne64 < 0 || ne64 > MAX_ENTITIES as i64 {
            return Option::None;
        }
        let nl = nl64 as usize;
        let ne = ne64 as usize;
        if data.len() != 15 + 6 * nl + 10 * ne {
            return Option::None;
        }
        let ghost dv = data@;
        let ghost gv = view_at(dv, nl as int, ne as int);
        if data[0] < 0 || data[0] > i32::MAX as i64 || data[1] < 0 || data[1] > i32::MAX as i64 {
            return Option::None;
        }
        if data[2] < 0 || data[2] > SPACEOUT_FULL as i64 {
            return Option::None;
        }
        if data[3] < 0 || data[3] > TIMER_LIMIT || data[4] < 0 || data[4] > TIMER_LIMIT || data[5]
            < 0 || data[5] > TIMER_LIMIT {
            return Option::None;
        }
        if data[7] < -MOUSE_LIMIT || data[7] > MOUSE_LIMIT || data[8] < -MOUSE_LIMIT || data[8]
            > MOUSE_LIMIT {
            return Option::None;
        }
        if data[9] < i32::MIN as i64 || data[9] > i32::MAX as i64 || data[10] < i32::MIN as i64
            || data[10] > i32::MAX as i64 {
            return Option::None;
        }
        if data[12] < 0 || data[12] > TIMER_LIMIT {
            return Option::None;
        }
        let mut lasers: Vec<Actor> = Vec::new();
        let mut i: usize = 0;
        while i < nl
            invariant
                i <= nl,
                lasers@.len() == i as int,
                forall|k: int| 0 <= k < i ==> #[trigger] lasers@[k] == actor_at(dv, k),
                forall|k: int| 0 <= k < i ==> wf_actor(#[trigger] lasers@[k]),
                forall|k: int| 0 <= k < i ==> #[trigger] laser_rec_ok(dv, k),
            decreases nl - i,
        {
            let b = 15 + 6 * i;
            let lifew = data[b + 5];
            if lifew < i32::MIN as i64 || lifew > i32::MAX as i64 {
                proof {
                    assert(!laser_rec_ok(dv, i as int));
                }
                return Option::None;
            }
            let a = Actor {
                tag: if data[b] == 0 {
                    ActorType::Player
                } else {
                    ActorType::Laser
                },
                pos: Vec2 { x: data[b + 1], y: data[b + 2] },
                velocity: Vec2 { x: data[b + 3], y: data[b + 4] },
                life: lifew as i32,
            };
            assert(a == actor_at(dv, i as int));
            if a.pos.x < -POS_LIMIT || a.pos.x > POS_LIMIT || a.pos.y < -POS_LIMIT || a.pos.y
                > POS_LIMIT || a.velocity.x < -SPEED_LIMIT || a.velocity.x > SPEED_LIMIT
                || a.velocity.y < -SPEED_LIMIT || a.velocity.y > SPEED_LIMIT || a.life
                < LIFE_FLOOR {
                proof {
                    assert(gv.lasers[i as int] == actor_at(dv, i as int));
                    assert(!wf_view(gv));
                }
                return Option::None;
            }
            lasers.push(a);
            i = i + 1;
        }
        let mut enemies: Vec<Enemy> = Vec::new();
        let mut j: usize = 0;
        while j < ne
            invariant
                j <= ne,
                enemies@.len() == j as int,
                forall|k: int| 0 <= k < j ==> #[trigger] enemies@[k] == enemy_at(dv, nl as int, k),
                forall|k: int| 0 <= k < j ==> wf_enemy(#[trigger] enemies@[k]),
                forall|k: int| 0 <= k < j ==> #[trigger] enemy_rec_ok(dv, nl as int, k),
            decreases ne - j,
        {
            let b = 15 + 6 * nl + 10 * j;
            let lifew = data[b + 7];
            let maxw = data[b + 8];
            let worthw = data[b + 9];
            if lifew < i32::MIN as i64 || lifew > i32::MAX as i64 || maxw < i32::MIN as i64
                || maxw > i32::MAX as i64 || worthw < i32::MIN as i64 || worthw
                > i32::MAX as i64 {
                proof {
                    assert(!enemy_rec_ok(dv, nl as int, j as int));
                }
                return Option::None;
            }
            let mcode = data[b + 5];
            let mparam = data[b + 6];
            let e = Enemy {
                pos: Vec2 { x: data[b], y: data[b + 1] },
                direction: Vec2 { x: data[b + 2], y: data[b + 3] },
                speed: data[b + 4],
                movement_mod: if mcode == 1 {
                    Option::Some(MovementMod::Accelerating(mparam))
                } else if mcode == 2 {
                    Option::Some(MovementMod::Spiral(mparam))
                } else {
                    Option::None
                },
                life: lifew as i32,
                max_life: maxw as i32,
                worth: worthw as i32,
            };
            assert(e == enemy_at(dv, nl as int, j as int));
            let mod_ok: bool = match e.movement_mod {
                Option::None => true,
                Option::Some(MovementMod::Accelerating(acc)) => -SPEED_LIMIT <= acc && acc
                    <= SPEED_LIMIT,
                Option::Some(MovementMod::Spiral(k)) => 0 <= k && k <= UNIT,
            };
            if e.pos.x < -POS_LIMIT || e.pos.x > POS_LIMIT || e.pos.y < -POS_LIMIT || e.pos.y
                > POS_LIMIT || e.direction.x < -UNIT || e.direction.x > UNIT || e.direction.y
                < -UNIT || e.direction.y > UNIT || e.speed < -SPEED_LIMIT || e.speed > SPEED_LIMIT
                || !mod_ok || e.life < LIFE_FLOOR {
                proof {
                    assert(gv.enemies[j as int] == enemy_at(dv, nl as int, j as int));
                    assert(!wf_view(gv));
                }
                return Option::None;
            }
            enemies.push(e);
            j = j + 1;
        }
        let s = MainState {
            lasers,
            enemies,
            player: Player {
                life: data[9] as i32,
                num_lasers: data[10] as i32,
                laser_speed: data[11],
                laser_fire_rate: data[12],
            },
            firing: data[6] != 0,
            next_shot_timeout: data[4],
            next_enemy_timeout: data[5],
            mouse_position: (data[7], data[8]),
            score: data[0] as i32,
            money: data[1] as i32,
            spaceout_charge: data[2] as i32,
            spaceout_time: data[3],
        };
        proof {
            assert(s@.lasers =~= gv.lasers);
            assert(s@.enemies =~= gv.enemies);
            assert(s@ =~= gv);
            assert(wf_view(gv));
            assert(records_ok(dv, nl as int, ne as int));
            assert(decode_view(dv) == Option::Some(gv));
        }
        Option::Some(s)
    }
}

/// Law: restoring a saved session yields exactly the session saved.
pub proof fn lemma_snapshot_round_trip(v: GameView)
    requires
        wf_view(v),
    ensures
        decode_view(encode_view(v)) == Option::Some(v),
{
    let d = encode_view(v);
    let nl = v.lasers.len() as int;
    let ne = v.enemies.len() as int;
    lemma_encode_lasers_len(v.lasers);
    lemma_encode_enemies_len(v.enemies);
    assert(d.len() == 15 + 6 * nl + 10 * ne);
    assert(d[13] == nl as i64 && d[14] == ne as i64);
    assert forall|i: int| 0 <= i < nl implies #[trigger] laser_rec_ok(d, i) by {
        let b = 15 + 6 * i;
        lemma_encode_lasers_at(v.lasers, i, 5);
        lemma_view_laser_word(v, b + 5);
        assert(d[b + 5] == encode_actor(v.lasers[i])[5]);
    }
    assert forall|i: int| 0 <= i < nl implies #[trigger] actor_at(d, i) == v.lasers[i] by {
        let b = 15 + 6 * i;
        lemma_encode_lasers_at(v.lasers, i, 0);
        lemma_encode_lasers_at(v.lasers, i, 1);
        lemma_encode_lasers_at(v.lasers, i, 2);
        lemma_encode_lasers_at(v.lasers, i, 3);
        lemma_encode_lasers_at(v.lasers, i, 4);
        lemma_encode_lasers_at(v.lasers, i, 5);
        lemma_view_laser_word(v, b);
        lemma_view_laser_word(v, b + 1);
        lemma_view_laser_word(v, b + 2);
        lemma_view_laser_word(v, b + 3);
        lemma_view_laser_word(v, b + 4);
        lemma_view_laser_word(v, b + 5);
        assert(d[b] == encode_actor(v.lasers[i])[0]);
        assert(d[b + 1] == encode_actor(v.lasers[i])[1]);
        assert(d[b + 2] == encode_actor(v.lasers[i])[2]);
        assert(d[b + 3] == encode_actor(v.lasers[i])[3]);
        assert(d[b + 4] == encode_actor(v.lasers[i])[4]);
        assert(d[b + 5] == encode_actor(v.lasers[i])[5]);
    }
    assert forall|j: int| 0 <= j < ne implies #[trigger] enemy_rec_ok(d, nl, j) by {
        let b = 15 + 6 * nl + 10 * j;
        lemma_encode_enemies_at(v.enemies, j, 7);
        lemma_encode_enemies_at(v.enemies, j, 8);
        lemma_encode_enemies_at(v.enemies, j, 9);
        lemma_view_enemy_word(v, b + 7);
        lemma_view_enemy_word(v, b + 8);
        lemma_view_enemy_word(v, b + 9);
        assert(d[b + 7] == encode_enemy(v.enemies[j])[7]);
        assert(d[b + 8] == encode_enemy(v.enemies[j])[8]);
        assert(d[b + 9] == encode_enemy(v.enemies[j])[9]);
    }
    assert forall|j: int| 0 <= j < ne implies #[trigger] enemy_at(d, nl, j) == v.enemies[j] by {
        let b = 15 + 6 * nl + 10 * j;
        lemma_encode_enemies_at(v.enemies, j, 0);
        lemma_encode_enemies_at(v.enemies, j, 1);
        lemma_encode_enemies_at(v.enemies, j, 2);
        lemma_encode_enemies_at(v.enemies, j, 3);
        lemma_encode_enemies_at(v.enemies, j, 4);
        lemma_encode_enemies_at(v.enemies, j, 5);
        lemma_encode_enemies_at(v.enemies, j, 6);
        lemma_encode_enemies_at(v.enemies, j, 7);
        lemma_encode_enemies_at(v.enemies, j, 8);
        lemma_encode_enemies_at(v.enemies, j, 9);
        lemma_view_enemy_word(v, b);
        lemma_view_enemy_word(v, b + 1);
        lemma_view_enemy_word(v, b + 2);
        lemma_view_enemy_word(v, b + 3);
        lemma_view_enemy_word(v, b + 4);
        lemma_view_enemy_word(v, b + 5);
        lemma_view_enemy_word(v, b + 6);
        lemma_view_enemy_word(v, b + 7);
        lemma_view_enemy_word(v, b + 8);
        lemma_view_enemy_word(v, b + 9);
        assert(d[b] == encode_enemy(v.enemies[j])[0]);
        assert(d[b + 1] == encode_enemy(v.enemies[j])[1]);
        assert(d[b + 2] == encode_enemy(v.enemies[j])[2]);
        assert(d[b + 3] == encode_enemy(v.enemies[j])[3]);
        assert(d[b + 4] == encode_enemy(v.enemies[j])[4]);
        assert(d[b + 5] == encode_enemy(v.enemies[j])[5]);
        assert(d[b + 6] == encode_enemy(v.enemies[j])[6]);
        assert(d[b + 7] == encode_enemy(v.enemies[j])[7]);
        assert(d[b + 8] == encode_enemy(v.enemies[j])[8]);
        assert(d[b + 9] == encode_enemy(v.enemies[j])[9]);
    }
    let w = view_at(d, nl, ne);
    assert(w.lasers =~= v.lasers);
    assert(w.enemies =~= v.enemies);
    assert(w =~= v);
}

} // verus!
