//! The enemy wave controller: spawn bursts, synchronized patrol flips and
//! probabilistic enemy fire.

use vstd::prelude::*;

use crate::components::{
    cadd, count_enemies, Entity, Movable, Position, Role, SpriteSize, Velocity,
};
use crate::rng::rand_in_range;
use crate::world::World;

verus! {

/// Full extent of an enemy ship: 144 x 75 px at sprite scale 1/2.
pub const ENEMY_W: i64 = 216_000;

/// Height of an enemy ship in units.
pub const ENEMY_H: i64 = 112_500;

/// Full extent of an enemy bolt: 17 x 55 px at sprite scale 1/2.
pub const ENEMY_LASER_W: i64 = 25_500;

/// Height of an enemy bolt in units.
pub const ENEMY_LASER_H: i64 = 82_500;

/// Spawn margin kept from the window edge: 200 px.
pub const SPAWN_MARGIN: i64 = 600_000;

/// Extra margin kept at the bottom, away from the player: 80 px.
pub const SPAWN_MARGIN_BOTTOM: i64 = 240_000;

/// Patrol speed bound: 0.3 in milli-units.
pub const PATROL_VEL: i64 = 300;

/// Muzzle offset of an enemy bolt below the ship: 15 px.
pub const ENEMY_FIRE_Y_OFFSET: i64 = 45_000;

/// One-in-N chance of enemy fire per tick.
pub const ENEMY_FIRE_DENOM: i64 = 60;

/// Ticks per patrol phase step: the phase is the elapsed time in half
/// seconds, derived from the logical tick counter.
pub const TICKS_PER_PHASE: u64 = 30;

/// Whether a freshly spawned enemy is acceptable: inside the spawn box
/// and with patrol velocity within the draw's bounds.
pub open spec fn enemy_ok(e: Entity, win_w: int, win_h: int) -> bool {
    let w_span = win_w / 2 - SPAWN_MARGIN;
    let h_span = win_h / 2 - SPAWN_MARGIN;
    &&& e.role is Enemy
    &&& e.movable == (Movable { auto_despawn: false })
    &&& e.size == (SpriteSize { w: ENEMY_W, h: ENEMY_H })
    &&& -w_span <= e.pos.x < w_span
    &&& -h_span + SPAWN_MARGIN_BOTTOM <= e.pos.y < h_span
    &&& -PATROL_VEL <= e.vel.x < PATROL_VEL
    &&& -PATROL_VEL <= e.vel.y < PATROL_VEL
}

/// Size of the spawn burst this tick: a whole wave when the field is
/// empty, nothing otherwise.
pub open spec fn spawn_burst_count(w: World) -> nat {
    if w.enemy_count == 0 {
        w.wave as nat
    } else {
        0
    }
}

/// When the live enemy count has reached zero, spawn exactly one wave of
/// enemies — positions drawn uniformly from the window interior minus the
/// margins, velocities uniform within the patrol bound — and set the
/// count to the wave size.
pub fn enemy_spawn_system(w: &mut World)
    requires
        old(w).wf(),
        old(w).state is InGame,
        old(w).win.w / 2 - SPAWN_MARGIN > 0,
        old(w).win.h / 2 - SPAWN_MARGIN > SPAWN_MARGIN_BOTTOM - (old(w).win.h / 2 - SPAWN_MARGIN),
    ensures
        final(w).wf(),
        final(w).entities@.len() == old(w).entities@.len() + spawn_burst_count(*old(w)),
        forall|i: int|
            0 <= i < old(w).entities@.len() ==> final(w).entities@[i] == #[trigger] old(w).entities@[i],
        forall|i: int|
            old(w).entities@.len() <= i < final(w).entities@.len() ==> enemy_ok(
                #[trigger] final(w).entities@[i],
                old(w).win.w as int,
                old(w).win.h as int,
            ),
        final(w).enemy_count == if old(w).enemy_count == 0 {
            old(w).wave
        } else {
            old(w).enemy_count
        },
        final(w).win == old(w).win && final(w).wave == old(w).wave && final(w).score == old(w).score && final(w).rotated
            == old(w).rotated && final(w).tick == old(w).tick && final(w).player == old(w).player && final(w).state
            == old(w).state,
{
    if w.enemy_count != 0 {
        return ;
    }
    let w_span = w.win.w / 2 - SPAWN_MARGIN;
    let h_span = w.win.h / 2 - SPAWN_MARGIN;
    let wave = w.wave;
    let ghost s0 = old(w).entities@;
    let mut k: u32 = 0;
    while k < wave
        invariant
            w.win == old(w).win && w.wave == old(w).wave && w.enemy_count == old(w).enemy_count
                && w.score == old(w).score && w.rotated == old(w).rotated && w.tick == old(w).tick
                && w.player == old(w).player && w.state == old(w).state,
            old(w).wf(),
            0 <= k <= wave,
            wave == old(w).wave,
            w_span == old(w).win.w / 2 - SPAWN_MARGIN,
            h_span == old(w).win.h / 2 - SPAWN_MARGIN,
            w_span > 0,
            -h_span + SPAWN_MARGIN_BOTTOM < h_span,
            w.entities@.len() == s0.len() + k,
            forall|i: int| 0 <= i < s0.len() ==> w.entities@[i] == #[trigger] s0[i],
            forall|i: int|
                s0.len() <= i < w.entities@.len() ==> enemy_ok(
                    #[trigger] w.entities@[i],
                    old(w).win.w as int,
                    old(w).win.h as int,
                ),
            forall|i: int| 0 <= i < w.entities@.len() ==> (#[trigger] w.entities@[i]).ok(),
            count_enemies(w.entities@) == count_enemies(s0) + k,
        decreases wave - k,
    {
        let x = rand_in_range(-w_span, w_span);
        let y = rand_in_range(-h_span + SPAWN_MARGIN_BOTTOM, h_span);
        let vx = rand_in_range(-PATROL_VEL, PATROL_VEL);
        let vy = rand_in_range(-PATROL_VEL, PATROL_VEL);
        let e = Entity {
            pos: Position { x, y },
            vel: Velocity { x: vx, y: vy },
            size: SpriteSize { w: ENEMY_W, h: ENEMY_H },
            movable: Movable { auto_despawn: false },
            role: Role::Enemy,
        };
        let ghost before = w.entities@;
        w.entities.push(e);
        proof {
            crate::world::lemma_count_enemies_push(before, e);
        }
        k = k + 1;
    }
    w.enemy_count = wave;
}

/// The patrol phase of a tick: elapsed half seconds.
pub open spec fn patrol_phase(tick: u64) -> int {
    tick as int / TICKS_PER_PHASE as int
}

/// One enemy's velocity after a flip of the given axis.
pub open spec fn flipped(e: Entity, flip_x: bool) -> Entity {
    if e.role is Enemy {
        if flip_x {
            Entity { vel: Velocity { x: (-e.vel.x) as i64, y: e.vel.y }, ..e }
        } else {
            Entity { vel: Velocity { x: e.vel.x, y: (-e.vel.y) as i64 }, ..e }
        }
    } else {
        e
    }
}

/// Every enemy's velocity after a flip of the given axis.
pub open spec fn flip_enemies(s: Seq<Entity>, flip_x: bool) -> Seq<Entity> {
    s.map_values(|e: Entity| flipped(e, flip_x))
}

/// Synchronized patrol reversal. On an even phase, if this window has not
/// flipped yet: reverse every enemy's horizontal velocity, or, each
/// fourth phase, the vertical one, and latch. On an odd phase, clear the
/// latch.
pub fn enemy_movement_system(w: &mut World)
    requires
        old(w).wf(),
    ensures
        final(w).wf(),
        ({
            let phase = patrol_phase(old(w).tick);
            if phase % 2 == 0 {
                if !old(w).rotated {
                    &&& final(w).entities@ == flip_enemies(old(w).entities@, phase % 4 != 0)
                    &&& final(w).rotated == true
                } else {
                    &&& final(w).entities@ == old(w).entities@
                    &&& final(w).rotated == old(w).rotated
                }
            } else {
                &&& final(w).entities@ == old(w).entities@
                &&& final(w).rotated == false
            }
        }),
        final(w).win == old(w).win && final(w).wave == old(w).wave && final(w).enemy_count == old(w).enemy_count
            && final(w).score == old(w).score && final(w).tick == old(w).tick && final(w).player == old(w).player
            && final(w).state == old(w).state,
{
    let phase = w.tick / TICKS_PER_PHASE;
    if phase % 2 == 0 {
        if !w.rotated {
            let flip_x = phase % 4 != 0;
            flip_enemy_velocities(w, flip_x);
            w.rotated = true;
        }
    } else {
        w.rotated = false;
    }
}

/// Reverse one velocity axis of every enemy ship.
fn flip_enemy_velocities(w: &mut World, flip_x: bool)
    requires
        old(w).wf(),
    ensures
        final(w).wf(),
        final(w).entities@ == flip_enemies(old(w).entities@, flip_x),
        final(w).win == old(w).win && final(w).wave == old(w).wave && final(w).enemy_count == old(w).enemy_count
            && final(w).score == old(w).score && final(w).rotated == old(w).rotated && final(w).tick == old(w).tick
            && final(w).player == old(w).player && final(w).state == old(w).state,
{
    let n = w.entities.len();
    let mut out: Vec<Entity> = Vec::new();
    let mut i: usize = 0;
    while i < n
        invariant
            n == old(w).entities@.len(),
            w == old(w),
            old(w).wf(),
            0 <= i <= n,
            out@ == flip_enemies(old(w).entities@, flip_x).take(i as int),
        decreases n - i,
    {
        let e = w.entities[i];
        let f = match e.role {
            Role::Enemy => {
                if flip_x {
                    Entity { vel: Velocity { x: -e.vel.x, y: e.vel.y }, ..e }
                } else {
                    Entity { vel: Velocity { x: e.vel.x, y: -e.vel.y }, ..e }
                }
            },
            _ => e,
        };
        out.push(f);
        proof {
            assert(flip_enemies(old(w).entities@, flip_x).take(i + 1) =~= flip_enemies(
                old(w).entities@,
                flip_x,
            ).take(i as int).push(flipped(old(w).entities@[i as int], flip_x)));
        }
        i = i + 1;
    }
    proof {
        assert(flip_enemies(old(w).entities@, flip_x).take(n as int) =~= flip_enemies(
            old(w).entities@,
            flip_x,
        ));
        lemma_flip_wf(old(w).entities@, flip_x);
    }
    w.entities = out;
}

proof fn lemma_flip_wf(s: Seq<Entity>, flip_x: bool)
    requires
        forall|i: int| 0 <= i < s.len() ==> (#[trigger] s[i]).ok(),
    ensures
        forall|i: int|
            0 <= i < flip_enemies(s, flip_x).len() ==> (#[trigger] flip_enemies(s, flip_x)[i]).ok(),
        count_enemies(flip_enemies(s, flip_x)) == count_enemies(s),
    decreases s.len(),
{
    if s.len() > 0 {
        assert(flip_enemies(s, flip_x).drop_last() =~= flip_enemies(s.drop_last(), flip_x));
        lemma_flip_wf(s.drop_last(), flip_x);
        assert(flip_enemies(s, flip_x).last() == flipped(s.last(), flip_x));
    }
}

/// Whether enemy fire triggers this tick: a fixed one-in-sixty draw.
pub fn enemy_fire_criteria() -> (r: bool) {
    let n = rand_in_range(0, ENEMY_FIRE_DENOM);
    n == 0
}

/// The bolt an enemy at `pos` fires: straight down from just below the
/// ship.
pub open spec fn enemy_laser_entity(pos: Position) -> Entity {
    Entity {
        pos: Position { x: pos.x, y: cadd(pos.y as int, -(ENEMY_FIRE_Y_OFFSET as int)) },
        vel: Velocity { x: 0, y: (-1000) as i64 },
        size: SpriteSize { w: ENEMY_LASER_W, h: ENEMY_LASER_H },
        movable: Movable { auto_despawn: true },
        role: Role::EnemyLaser,
    }
}

/// Number of enemies at indices below `j`.
pub open spec fn enemies_before(s: Seq<Entity>, j: int) -> nat
    decreases j,
{
    if j <= 0 || j > s.len() {
        0
    } else {
        enemies_before(s, j - 1) + if s[j - 1].role is Enemy {
            1nat
        } else {
            0nat
        }
    }
}

/// Fire one enemy bolt from an enemy chosen uniformly at random: the bolt
/// starts just below that ship and flies straight down. With no enemies
/// alive nothing happens.
pub fn enemy_fire_system(w: &mut World)
    requires
        old(w).wf(),
        old(w).entities@.len() < 0x7fff_ffff,
    ensures
        final(w).wf(),
        count_enemies(old(w).entities@) == 0 ==> final(w).entities@ == old(w).entities@,
        count_enemies(old(w).entities@) > 0 ==> exists|i: int|
            0 <= i < old(w).entities@.len() && (#[trigger] old(w).entities@[i]).role is Enemy
                && final(w).entities@ == old(w).entities@.push(
                enemy_laser_entity(old(w).entities@[i].pos),
            ),
        final(w).win == old(w).win && final(w).wave == old(w).wave && final(w).enemy_count == old(w).enemy_count
            && final(w).score == old(w).score && final(w).rotated == old(w).rotated && final(w).tick == old(w).tick
            && final(w).player == old(w).player && final(w).state == old(w).state,
{
    let count = count_enemies_exec(&w.entities);
    if count == 0 {
        return ;
    }
    let nth = rand_in_range(0, count);
    let i = nth_enemy_index(&w.entities, nth);
    let pos = w.entities[i].pos;
    let bolt = Entity {
        pos: Position { x: pos.x, y: crate::components::add_coord(pos.y, -ENEMY_FIRE_Y_OFFSET) },
        vel: Velocity { x: 0, y: -1000 },
        size: SpriteSize { w: ENEMY_LASER_W, h: ENEMY_LASER_H },
        movable: Movable { auto_despawn: true },
        role: Role::EnemyLaser,
    };
    w.entities.push(bolt);
    proof {
        crate::world::lemma_count_enemies_push(old(w).entities@, bolt);
    }
}

/// Count the live enemy ships.
fn count_enemies_exec(entities: &Vec<Entity>) -> (r: i64)
    requires
        entities@.len() < 0x7fff_ffff,
    ensures
        r as int == count_enemies(entities@),
{
    let n = entities.len();
    let mut r: i64 = 0;
    let mut i: usize = 0;
    while i < n
        invariant
            n == entities@.len(),
            n < 0x7fff_ffff,
            0 <= i <= n,
            0 <= r <= i,
            r as int == enemies_before(entities@, i as int),
        decreases n - i,
    {
        match entities[i].role {
            Role::Enemy => {
                r = r + 1;
            },
            _ => {},
        }
        i = i + 1;
    }
    proof {
        lemma_enemies_before_all(entities@);
    }
    r
}

/// The two enemy counters agree on the whole sequence.
proof fn lemma_enemies_before_all(s: Seq<Entity>)
    ensures
        enemies_before(s, s.len() as int) == count_enemies(s),
    decreases s.len(),
{
    if s.len() > 0 {
        lemma_enemies_before_all(s.drop_last());
        lemma_enemies_before_stable(s.drop_last(), s, s.len() as int - 1);
    }
}

/// `enemies_before` ignores entities at or past `j`.
proof fn lemma_enemies_before_stable(a: Seq<Entity>, b: Seq<Entity>, j: int)
    requires
        j <= a.len(),
        j <= b.len(),
        forall|i: int| 0 <= i < j ==> a[i] == b[i],
    ensures
        enemies_before(a, j) == enemies_before(b, j),
    decreases j,
{
    if j > 0 {
        lemma_enemies_before_stable(a, b, j - 1);
    }
}

/// Index of the `nth` enemy (0-based, in entity order).
fn nth_enemy_index(entities: &Vec<Entity>, nth: i64) -> (r: usize)
    requires
        0 <= nth < count_enemies(entities@),
    ensures
        0 <= r < entities@.len(),
        entities@[r as int].role is Enemy,
{
    let n = entities.len();
    let mut seen: i64 = 0;
    let mut i: usize = 0;
    loop
        invariant
            n == entities@.len(),
            0 <= i <= n,
            0 <= seen <= nth < count_enemies(entities@),
            seen as int == enemies_before(entities@, i as int),
        decreases n - i,
    {
        if i >= n {
            proof {
                lemma_enemies_before_all(entities@);
                lemma_enemies_before_stable(entities@, entities@, n as int);
                assert(false);
            }
        } else {
            match entities[i].role {
                Role::Enemy => {
                    if seen == nth {
                        return i;
                    }
                    seen = seen + 1;
                },
                _ => {},
            }
            i = i + 1;
        }
    }
}

} // verus!
