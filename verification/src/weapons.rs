//! Weapon-specific projectile generation: parallel laser beams and the
//! shotgun's angular spread.

use vstd::prelude::*;

use crate::components::{cadd, Entity, Movable, Position, Role, SpriteSize, Velocity};
use crate::player::{find_player, player_index, PlayerState};
use crate::world::World;

verus! {

/// Full extent of a laser-gun bolt: 9 x 54 px at sprite scale 1/2.
pub const LASERGUN_W: i64 = 13_500;

/// Height of a laser-gun bolt in units.
pub const LASERGUN_H: i64 = 81_000;

/// Full extent of a shotgun pellet: 13 x 37 px at sprite scale 1/2.
pub const SHOTGUN_W: i64 = 19_500;

/// Height of a shotgun pellet in units.
pub const SHOTGUN_H: i64 = 55_500;

/// Horizontal distance between neighbouring laser beams: 8 px.
pub const X_OFFSET_STEP: i64 = 24_000;

/// Vertical muzzle offset of a laser beam: 30 px.
pub const Y_OFFSET: i64 = 90_000;

/// Vertical shortening per beam pair: 3 px.
pub const Y_OFFSET_STEP: i64 = 9_000;

/// Vertical muzzle offset of a shotgun pellet: 15 px.
pub const SHOTGUN_Y_OFFSET: i64 = 45_000;

/// The two mutually exclusive fire paths.
#[derive(Clone, Copy, Debug, PartialEq, Eq, Structural)]
pub enum WeaponType {
    /// Parallel upward beams, one per weapon level.
    Lasergun,
    /// An angular spread of pellets, one per weapon level.
    Shotgun,
}

/// Whether a weapon's fire path runs this tick: the trigger edge must be
/// fresh and the weapon equipped.
pub fn fire_criteria(weapon: WeaponType, fire_just_pressed: bool, player_state: &PlayerState) -> (r:
    bool)
    ensures
        r == (fire_just_pressed && player_state.weapon_type == weapon),
{
    fire_just_pressed && player_state.weapon_type == weapon
}

/// One laser bolt at signed beam slot `k` (0 is the centered beam): offset
/// `k * X_OFFSET_STEP` across and `Y_OFFSET - |k| * Y_OFFSET_STEP` up.
pub open spec fn laser_shot(pos: Position, k: int) -> Entity {
    let a = if k >= 0 {
        k
    } else {
        -k
    };
    Entity {
        pos: Position {
            x: cadd(pos.x as int, k * X_OFFSET_STEP),
            y: cadd(pos.y as int, Y_OFFSET - a * Y_OFFSET_STEP),
        },
        vel: Velocity { x: 0, y: 1000 },
        size: SpriteSize { w: LASERGUN_W, h: LASERGUN_H },
        movable: Movable { auto_despawn: true },
        role: Role::PlayerLaser,
    }
}

/// The symmetric beam pairs for slots 1..=i, in firing order.
pub open spec fn lasergun_pairs(pos: Position, i: nat) -> Seq<Entity>
    decreases i,
{
    if i == 0 {
        Seq::empty()
    } else {
        lasergun_pairs(pos, (i - 1) as nat) + seq![
            laser_shot(pos, i as int),
            laser_shot(pos, -(i as int)),
        ]
    }
}

/// All bolts of one laser-gun volley at level `lvl`: a centered bolt when
/// the level is odd, then `lvl / 2` symmetric pairs.
pub open spec fn lasergun_shots(pos: Position, lvl: u32) -> Seq<Entity> {
    (if lvl % 2 == 1 {
        seq![laser_shot(pos, 0)]
    } else {
        Seq::<Entity>::empty()
    }) + lasergun_pairs(pos, (lvl / 2) as nat)
}

/// A laser-gun volley has exactly `lvl` bolts: the fan's beam count equals
/// the weapon level.
pub proof fn lemma_lasergun_count(pos: Position, lvl: u32)
    ensures
        lasergun_shots(pos, lvl).len() == lvl,
{
    lemma_lasergun_pairs_len(pos, (lvl / 2) as nat);
}

proof fn lemma_lasergun_pairs_len(pos: Position, i: nat)
    ensures
        lasergun_pairs(pos, i).len() == 2 * i,
    decreases i,
{
    if i > 0 {
        lemma_lasergun_pairs_len(pos, (i - 1) as nat);
    }
}

proof fn lemma_lasergun_shots_ok(pos: Position, lvl: u32)
    ensures
        forall|j: int|
            0 <= j < lasergun_shots(pos, lvl).len() ==> (#[trigger] lasergun_shots(pos, lvl)[j]).ok(),
        forall|j: int|
            0 <= j < lasergun_shots(pos, lvl).len() ==> !((#[trigger] lasergun_shots(
                pos,
                lvl,
            )[j]).role is Enemy),
{
    lemma_lasergun_pairs_ok(pos, (lvl / 2) as nat);
}

proof fn lemma_lasergun_pairs_ok(pos: Position, i: nat)
    ensures
        forall|j: int|
            0 <= j < lasergun_pairs(pos, i).len() ==> (#[trigger] lasergun_pairs(pos, i)[j]).ok(),
        forall|j: int|
            0 <= j < lasergun_pairs(pos, i).len() ==> !((#[trigger] lasergun_pairs(pos, i)[j]).role
                is Enemy),
    decreases i,
{
    if i > 0 {
        lemma_lasergun_pairs_ok(pos, (i - 1) as nat);
    }
}

/// Fire one laser-gun volley from the player's position: a centered beam
/// when the level is odd, and a symmetric pair per two further levels, so
/// the number of parallel beams equals the weapon level. Without a player
/// ship nothing is fired.
pub fn lasergun_fire_system(w: &mut World)
    requires
        old(w).wf(),
    ensures
        final(w).wf(),
        final(w).entities@ == match player_index(old(w).entities@) {
            Some(i) => old(w).entities@ + lasergun_shots(
                old(w).entities@[i].pos,
                old(w).player.weapon_lvl,
            ),
            None => old(w).entities@,
        },
        final(w).win == old(w).win && final(w).wave == old(w).wave && final(w).enemy_count == old(w).enemy_count
            && final(w).score == old(w).score && final(w).rotated == old(w).rotated && final(w).tick == old(w).tick
            && final(w).player == old(w).player && final(w).state == old(w).state,
{
    let player = match find_player(&w.entities) {
        Some(i) => i,
        None => {
            proof {
                assert(w.entities@ =~= old(w).entities@);
            }
            return ;
        },
    };
    let pos = w.entities[player].pos;
    let lvl = w.player.weapon_lvl;
    let ghost s0 = old(w).entities@;
    if lvl % 2 == 1 {
        let bolt = make_laser_shot(pos, 0, false);
        w.entities.push(bolt);
    }
    let half = lvl / 2;
    let mut i: u32 = 0;
    while i < half
        invariant
            w.win == old(w).win && w.wave == old(w).wave && w.enemy_count == old(w).enemy_count
                && w.score == old(w).score && w.rotated == old(w).rotated && w.tick == old(w).tick
                && w.player == old(w).player && w.state == old(w).state,
            0 <= i <= half,
            half == old(w).player.weapon_lvl / 2,
            pos == s0[player_index(s0).unwrap()].pos,
            -crate::components::POS_LIMIT <= pos.x <= crate::components::POS_LIMIT,
            -crate::components::POS_LIMIT <= pos.y <= crate::components::POS_LIMIT,
            w.entities@ == (s0 + if old(w).player.weapon_lvl % 2 == 1 {
                seq![laser_shot(pos, 0)]
            } else {
                Seq::<Entity>::empty()
            }) + lasergun_pairs(pos, i as nat),
        decreases half - i,
    {
        let k = i + 1;
        let right = make_laser_shot(pos, k as i64, false);
        let left = make_laser_shot(pos, k as i64, true);
        w.entities.push(right);
        w.entities.push(left);
        proof {
            assert(lasergun_pairs(pos, k as nat) == lasergun_pairs(pos, i as nat) + seq![
                laser_shot(pos, k as int),
                laser_shot(pos, -(k as int)),
            ]);
            assert(w.entities@ =~= (s0 + if old(w).player.weapon_lvl % 2 == 1 {
                seq![laser_shot(pos, 0)]
            } else {
                Seq::<Entity>::empty()
            }) + lasergun_pairs(pos, k as nat));
        }
        i = k;
    }
    proof {
        assert(w.entities@ =~= s0 + lasergun_shots(pos, old(w).player.weapon_lvl));
        lemma_lasergun_shots_ok(pos, old(w).player.weapon_lvl);
        crate::world::lemma_count_enemies_append_non_enemies(s0, lasergun_shots(pos, old(w).player.weapon_lvl));
    }
}

/// Build the bolt for slot `k` (negated when `neg` is set).
fn make_laser_shot(pos: Position, k: i64, neg: bool) -> (e: Entity)
    requires
        -crate::components::POS_LIMIT <= pos.x <= crate::components::POS_LIMIT,
        -crate::components::POS_LIMIT <= pos.y <= crate::components::POS_LIMIT,
        0 <= k <= 0x8000_0000,
    ensures
        e == laser_shot(pos, if neg {
            -(k as int)
        } else {
            k as int
        }),
{
    let off_x = if neg {
        -(k * X_OFFSET_STEP)
    } else {
        k * X_OFFSET_STEP
    };
    let off_y = Y_OFFSET - k * Y_OFFSET_STEP;
    Entity {
        pos: Position {
            x: crate::components::add_coord(pos.x, off_x),
            y: crate::components::add_coord(pos.y, off_y),
        },
        vel: Velocity { x: 0, y: 1000 },
        size: SpriteSize { w: LASERGUN_W, h: LASERGUN_H },
        movable: Movable { auto_despawn: true },
        role: Role::PlayerLaser,
    }
}

/// The exact spread direction of pellet `k` (0-based) at level `lvl`, as a
/// signed fraction of the 60-degree dispersion: the pellet's angle off the
/// forward axis is `dispersion * num / den` with `num = 2k + 1 - lvl` and
/// `den = 2 * (lvl + 1)`.
pub open spec fn shotgun_angle(lvl: u32, k: int) -> (i64, i64) {
    ((2 * k + 1 - lvl) as i64, (2 * (lvl as int) + 2) as i64)
}

/// The exact pellet angles of one shotgun volley at level `lvl`, as
/// fractions of the dispersion. Converting a fraction to a velocity via
/// sine and cosine is floating-point work and stays with the caller.
pub fn shotgun_angles(lvl: u32) -> (r: Vec<(i64, i64)>)
    ensures
        r@.len() == lvl,
        forall|k: int| 0 <= k < lvl ==> #[trigger] r@[k] == shotgun_angle(lvl, k),
{
    let mut r: Vec<(i64, i64)> = Vec::new();
    let den: i64 = 2 * (lvl as i64) + 2;
    let mut k: u32 = 0;
    while k < lvl
        invariant
            0 <= k <= lvl,
            den == 2 * (lvl as int) + 2,
            r@.len() == k,
            forall|j: int| 0 <= j < k ==> #[trigger] r@[j] == shotgun_angle(lvl, j),
        decreases lvl - k,
    {
        let num: i64 = 2 * (k as i64) + 1 - (lvl as i64);
        r.push((num, den));
        k = k + 1;
    }
    r
}

/// One shotgun pellet from `pos` with caller-supplied direction `v`.
pub open spec fn shotgun_shot(pos: Position, v: Velocity) -> Entity {
    Entity {
        pos: Position { x: pos.x, y: cadd(pos.y as int, SHOTGUN_Y_OFFSET as int) },
        vel: v,
        size: SpriteSize { w: SHOTGUN_W, h: SHOTGUN_H },
        movable: Movable { auto_despawn: true },
        role: Role::PlayerLaser,
    }
}

/// The volley of pellets for the given directions, in order.
pub open spec fn shotgun_shots(pos: Position, dirs: Seq<Velocity>) -> Seq<Entity>
    decreases dirs.len(),
{
    if dirs.len() == 0 {
        Seq::empty()
    } else {
        shotgun_shots(pos, dirs.drop_last()) + seq![shotgun_shot(pos, dirs.last())]
    }
}

proof fn lemma_shotgun_shots_ok(pos: Position, dirs: Seq<Velocity>)
    requires
        -crate::components::POS_LIMIT <= pos.x <= crate::components::POS_LIMIT,
        forall|k: int|
            0 <= k < dirs.len() ==> -1000 <= (#[trigger] dirs[k]).x <= 1000 && -1000 <= dirs[k].y
                <= 1000,
    ensures
        forall|j: int|
            0 <= j < shotgun_shots(pos, dirs).len() ==> (#[trigger] shotgun_shots(pos, dirs)[j]).ok(),
        shotgun_shots(pos, dirs).len() == dirs.len(),
        forall|j: int|
            0 <= j < shotgun_shots(pos, dirs).len() ==> !((#[trigger] shotgun_shots(pos, dirs)[j]).role
                is Enemy),
    decreases dirs.len(),
{
    if dirs.len() > 0 {
        lemma_shotgun_shots_ok(pos, dirs.drop_last());
    }
}

/// Fire one shotgun volley from the player's position: one pellet per
/// supplied direction, each offset 15 px up. The directions are the
/// unit vectors of the volley's spread angles, in milli-units; the caller
/// computes them from `shotgun_angles`. Without a player ship nothing is
/// fired.
pub fn shotgun_fire_system(w: &mut World, dirs: &Vec<Velocity>)
    requires
        old(w).wf(),
        forall|k: int|
            0 <= k < dirs@.len() ==> -1000 <= (#[trigger] dirs@[k]).x <= 1000 && -1000 <= dirs@[k].y
                <= 1000,
    ensures
        final(w).wf(),
        final(w).entities@ == match player_index(old(w).entities@) {
            Some(i) => old(w).entities@ + shotgun_shots(old(w).entities@[i].pos, dirs@),
            None => old(w).entities@,
        },
        final(w).win == old(w).win && final(w).wave == old(w).wave && final(w).enemy_count == old(w).enemy_count
            && final(w).score == old(w).score && final(w).rotated == old(w).rotated && final(w).tick == old(w).tick
            && final(w).player == old(w).player && final(w).state == old(w).state,
{
    let player = match find_player(&w.entities) {
        Some(i) => i,
        None => {
            proof {
                assert(w.entities@ =~= old(w).entities@);
            }
            return ;
        },
    };
    let pos = w.entities[player].pos;
    let ghost s0 = old(w).entities@;
    let n = dirs.len();
    let mut k: usize = 0;
    while k < n
        invariant
            w.win == old(w).win && w.wave == old(w).wave && w.enemy_count == old(w).enemy_count
                && w.score == old(w).score && w.rotated == old(w).rotated && w.tick == old(w).tick
                && w.player == old(w).player && w.state == old(w).state,
            n == dirs@.len(),
            0 <= k <= n,
            pos == s0[player_index(s0).unwrap()].pos,
            -crate::components::POS_LIMIT <= pos.x <= crate::components::POS_LIMIT,
            -crate::components::POS_LIMIT <= pos.y <= crate::components::POS_LIMIT,
            w.entities@ == s0 + shotgun_shots(pos, dirs@.take(k as int)),
        decreases n - k,
    {
        let d = dirs[k];
        let pellet = Entity {
            pos: Position { x: pos.x, y: crate::components::add_coord(pos.y, SHOTGUN_Y_OFFSET) },
            vel: d,
            size: SpriteSize { w: SHOTGUN_W, h: SHOTGUN_H },
            movable: Movable { auto_despawn: true },
            role: Role::PlayerLaser,
        };
        w.entities.push(pellet);
        proof {
            assert(dirs@.take(k + 1).drop_last() =~= dirs@.take(k as int));
            assert(dirs@.take(k + 1).last() == dirs@[k as int]);
            assert(w.entities@ =~= s0 + shotgun_shots(pos, dirs@.take(k + 1)));
        }
        k = k + 1;
    }
    proof {
        assert(dirs@.take(n as int) =~= dirs@);
        lemma_shotgun_shots_ok(pos, dirs@);
        crate::world::lemma_count_enemies_append_non_enemies(s0, shotgun_shots(pos, dirs@));
    }
}

/// Pellet directions are evenly spaced by `2/den` of the dispersion (that
/// is, dispersion / (lvl + 1)) and symmetric about the forward axis: slot
/// `k` and slot `lvl - 1 - k` carry opposite angles, and for an odd level
/// the middle pellet flies straight forward.
pub proof fn lemma_shotgun_spread(lvl: u32)
    ensures
        forall|k: int|
            0 <= k + 1 < lvl ==> #[trigger] shotgun_angle(lvl, k + 1).0 == shotgun_angle(lvl, k).0
                + 2,
        forall|k: int|
            0 <= k < lvl ==> #[trigger] shotgun_angle(lvl, k).0 == -shotgun_angle(
                lvl,
                lvl - 1 - k,
            ).0,
        lvl % 2 == 1 ==> shotgun_angle(lvl, (lvl - 1) as int / 2).0 == 0,
        angle_num_sum(lvl, lvl as int) == 0,
{
    lemma_angle_num_sum(lvl, lvl as int);
}

/// Sum of the first `n` pellet-angle numerators at level `lvl`.
pub open spec fn angle_num_sum(lvl: u32, n: int) -> int
    decreases n,
{
    if n <= 0 {
        0
    } else {
        angle_num_sum(lvl, n - 1) + shotgun_angle(lvl, n - 1).0
    }
}

proof fn lemma_angle_num_sum(lvl: u32, n: int)
    requires
        0 <= n <= lvl,
    ensures
        angle_num_sum(lvl, n) == n * n - n * (lvl as int),
    decreases n,
{
    if n <= 0 {
        assert(n * n == 0 && n * (lvl as int) == 0) by (nonlinear_arith)
            requires
                n == 0,
        ;
    } else {
        lemma_angle_num_sum(lvl, n - 1);
        assert(0 <= lvl < 0x1_0000_0000);
        assert(-0x1_0000_0000 <= 2 * (n - 1) + 1 - (lvl as int) < 0x2_0000_0000);
        assert(shotgun_angle(lvl, n - 1).0 == 2 * (n - 1) + 1 - (lvl as int));
        assert(angle_num_sum(lvl, n) == (n - 1) * (n - 1) - (n - 1) * (lvl as int) + 2 * (n - 1)
            + 1 - (lvl as int));
        assert((n - 1) * (n - 1) - (n - 1) * (lvl as int) + 2 * (n - 1) + 1 - (lvl as int) == n * n
            - n * (lvl as int)) by (nonlinear_arith);
    }
}

} // verus!
