//! The statically ordered per-tick pipeline. The order is load-bearing:
//! movement first, then weapon fire, then the wave controller, then
//! collision resolution, then power-up dispatch, so that collisions see
//! the tick's freshly moved and spawned entities and the wave side
//! effects are visible to the next tick's spawn decision.

use vstd::prelude::*;

use crate::background::{background_scrolling_system, background_top_index, tile_row, BACKGROUND_TILE};
use crate::collision::{
    collect_power_up_system, count_after_hits, enemy_laser_hit_player_system, hit_pairs,
    keep_unmarked, kill_spawns, player_hit_found, player_hit_outcome, player_laser_hit_enemy_system,
    power_up_found, power_up_kind, apply_power_up, score_after_hits, wave_after_hits,
};
use crate::components::{cadd, count_enemies, Entity, Position, Velocity, VEL_LIMIT};
use crate::enemy::{
    enemy_fire_criteria, enemy_fire_system, enemy_laser_entity, enemy_movement_system,
    enemy_ok, enemy_spawn_system, flip_enemies, patrol_phase, spawn_burst_count, SPAWN_MARGIN,
    SPAWN_MARGIN_BOTTOM,
};
use crate::movement::{move_and_cull, movement_system};
use crate::player::{player_index, player_keyboard_event_system};
use crate::powerups::{materialized, non_requests, power_up_spawn_system, PowerUpType};
use crate::state::GameState;
use crate::weapons::{
    fire_criteria, lasergun_fire_system, lasergun_shots, shotgun_fire_system, shotgun_shots,
    WeaponType,
};
use crate::world::{advance_tick, World};

verus! {

/// The raw key state one tick consumes.
#[derive(Clone, Copy, Debug, PartialEq, Eq, Structural)]
pub struct TickInput {
    /// Left arrow held.
    pub left: bool,
    /// Right arrow held.
    pub right: bool,
    /// Fire key freshly pressed this tick.
    pub fire_just_pressed: bool,
}

/// The two worlds agree on every field; entity stores are compared by
/// their contents.
pub open spec fn same_world(a: World, b: World) -> bool {
    &&& b.entities@ == a.entities@
    &&& same_resources(a, b)
}

/// The two worlds agree on every scalar resource (everything but the
/// entity store).
pub open spec fn same_resources(a: World, b: World) -> bool {
    &&& b.win == a.win
    &&& b.wave == a.wave
    &&& b.enemy_count == a.enemy_count
    &&& b.score == a.score
    &&& b.rotated == a.rotated
    &&& b.tick == a.tick
    &&& b.player == a.player
    &&& b.state == a.state
}

/// Step: the logical clock advances by one; nothing else moves.
pub open spec fn clock_step(a: World, b: World) -> bool {
    &&& b.entities@ == a.entities@
    &&& b.tick == a.tick + 1
    &&& b.win == a.win && b.wave == a.wave && b.enemy_count == a.enemy_count && b.score == a.score
        && b.rotated == a.rotated && b.player == a.player && b.state == a.state
}

/// The horizontal velocity the held arrow keys select.
pub open spec fn keyboard_vx(left: bool, right: bool) -> i64 {
    if left {
        (-VEL_LIMIT) as i64
    } else if right {
        VEL_LIMIT
    } else {
        0
    }
}

/// Step: the player ship's horizontal velocity is set from the keys.
pub open spec fn keyboard_step(a: World, b: World, left: bool, right: bool) -> bool {
    &&& match player_index(a.entities@) {
        Some(i) => b.entities@ == a.entities@.update(
            i,
            Entity {
                vel: Velocity { x: keyboard_vx(left, right), y: a.entities@[i].vel.y },
                ..a.entities@[i]
            },
        ),
        None => b.entities@ == a.entities@,
    }
    &&& same_resources(a, b)
}

/// Step: every mover advances one fixed step and out-of-bounds
/// auto-despawn entities leave.
pub open spec fn movement_step(a: World, b: World) -> bool {
    &&& b.entities@ == move_and_cull(a.entities@, a.win)
    &&& same_resources(a, b)
}

/// Step: on a fresh fire edge the equipped weapon's volley is appended —
/// the laser fan or one shotgun pellet per supplied direction; otherwise
/// nothing is fired.
pub open spec fn fire_step(a: World, b: World, pressed: bool, dirs: Seq<Velocity>) -> bool {
    &&& if pressed && a.player.weapon_type is Lasergun {
        match player_index(a.entities@) {
            Some(i) => b.entities@ == a.entities@ + lasergun_shots(
                a.entities@[i].pos,
                a.player.weapon_lvl,
            ),
            None => b.entities@ == a.entities@,
        }
    } else if pressed && a.player.weapon_type is Shotgun {
        match player_index(a.entities@) {
            Some(i) => b.entities@ == a.entities@ + shotgun_shots(a.entities@[i].pos, dirs),
            None => b.entities@ == a.entities@,
        }
    } else {
        b.entities@ == a.entities@
    }
    &&& same_resources(a, b)
}

/// Step: at an empty field a whole wave of enemies spawns inside the
/// margins and the enemy count becomes the wave size.
pub open spec fn spawn_step(a: World, b: World) -> bool {
    &&& b.entities@.len() == a.entities@.len() + spawn_burst_count(a)
    &&& forall|i: int| 0 <= i < a.entities@.len() ==> b.entities@[i] == #[trigger] a.entities@[i]
    &&& forall|i: int|
        a.entities@.len() <= i < b.entities@.len() ==> enemy_ok(
            #[trigger] b.entities@[i],
            a.win.w as int,
            a.win.h as int,
        )
    &&& b.enemy_count == if a.enemy_count == 0 {
        a.wave
    } else {
        a.enemy_count
    }
    &&& b.win == a.win && b.wave == a.wave && b.score == a.score && b.rotated == a.rotated
        && b.tick == a.tick && b.player == a.player && b.state == a.state
}

/// Step: the synchronized patrol flip, driven by the tick phase and the
/// flip latch.
pub open spec fn patrol_step(a: World, b: World) -> bool {
    &&& ({
        let phase = patrol_phase(a.tick);
        if phase % 2 == 0 {
            if !a.rotated {
                &&& b.entities@ == flip_enemies(a.entities@, phase % 4 != 0)
                &&& b.rotated == true
            } else {
                &&& b.entities@ == a.entities@
                &&& b.rotated == a.rotated
            }
        } else {
            &&& b.entities@ == a.entities@
            &&& b.rotated == false
        }
    })
    &&& b.win == a.win && b.wave == a.wave && b.enemy_count == a.enemy_count && b.score == a.score
        && b.tick == a.tick && b.player == a.player && b.state == a.state
}

/// Step: either the one-in-sixty draw did not fire, or one bolt was
/// launched straight down from a live enemy.
pub open spec fn enemy_fire_step(a: World, b: World) -> bool {
    ||| same_world(a, b)
    ||| (count_enemies(a.entities@) > 0 && (exists|i: int|
        0 <= i < a.entities@.len() && (#[trigger] a.entities@[i]).role is Enemy && b.entities@
            == a.entities@.push(enemy_laser_entity(a.entities@[i].pos))) && same_resources(a, b))
}

/// Step: the full laser-versus-enemy resolution pass — greedy first-match
/// kills, 100 points each, the wave advance on the last kill, and per
/// kill an explosion plus a chance-dependent power-up request.
pub open spec fn hits_step(a: World, b: World) -> bool {
    &&& b.score as int == score_after_hits(a)
    &&& b.enemy_count as int == count_after_hits(a)
    &&& b.wave as int == wave_after_hits(a)
    &&& exists|luck: Seq<bool>, kinds: Seq<PowerUpType>|
        luck.len() == hit_pairs(a.entities@).len() && kinds.len() == hit_pairs(a.entities@).len()
            && b.entities@ == keep_unmarked(a.entities@, hit_pairs(a.entities@)) + kill_spawns(
            a.entities@,
            hit_pairs(a.entities@),
            luck,
            kinds,
        )
    &&& b.win == a.win && b.rotated == a.rotated && b.tick == a.tick && b.player == a.player
        && b.state == a.state
}

/// Step: the first overlapping enemy projectile, if any, costs one life
/// and may end the session.
pub open spec fn player_hit_step(a: World, b: World) -> bool {
    match player_hit_found(a) {
        Some(_) => player_hit_outcome(a, b),
        None => same_world(a, b),
    }
}

/// Step: the first overlapping power-up, if any, is collected and its
/// effect applied (skipped at the counters' machine limits).
pub open spec fn collect_step(a: World, b: World) -> bool {
    if a.player.lives < u32::MAX && a.player.weapon_lvl < u32::MAX {
        match power_up_found(a) {
            Some(pi) => {
                &&& b.entities@ == a.entities@.remove(pi)
                &&& b.player == apply_power_up(a.player, power_up_kind(a.entities@[pi]))
                &&& b.win == a.win && b.wave == a.wave && b.enemy_count == a.enemy_count
                    && b.score == a.score && b.rotated == a.rotated && b.tick == a.tick
                    && b.state == a.state
            },
            None => same_world(a, b),
        }
    } else {
        same_world(a, b)
    }
}

/// Step: every pending power-up request is materialized into a concrete
/// power-up.
pub open spec fn dispatch_step(a: World, b: World) -> bool {
    &&& b.entities@ == non_requests(a.entities@) + materialized(a.entities@)
    &&& same_resources(a, b)
}

/// Step: when the scroll marker sits below the respawn threshold, a full
/// backdrop row spawns at its height and the marker climbs one tile.
pub open spec fn background_step(a: World, b: World) -> bool {
    &&& b.entities@ == match background_top_index(a.entities@) {
        Some(i) => {
            let m = a.entities@[i];
            if m.pos.y < (a.win.h + BACKGROUND_TILE) / 2 {
                a.entities@.update(
                    i,
                    Entity {
                        pos: Position { x: m.pos.x, y: cadd(m.pos.y as int, BACKGROUND_TILE as int) },
                        ..m
                    },
                ) + tile_row(m.pos.y, a.win.w as int / 2)
            } else {
                a.entities@
            }
        },
        None => a.entities@,
    }
    &&& same_resources(a, b)
}

/// The whole tick, step by step and in the required order, from `w0`
/// through the intermediate worlds to `wend`: clock, input, movement,
/// weapon fire, spawn burst, patrol flip, enemy fire, laser-enemy
/// resolution, player-hit resolution, and — only while the session is
/// still live — pickup, power-up dispatch and backdrop scroll.
pub open spec fn tick_chain(
    w0: World,
    input: TickInput,
    dirs: Seq<Velocity>,
    w1: World,
    w2: World,
    w3: World,
    w4: World,
    w5: World,
    w6: World,
    w7: World,
    w8: World,
    w9: World,
    w10: World,
    w11: World,
    wend: World,
) -> bool {
    &&& clock_step(w0, w1)
    &&& keyboard_step(w1, w2, input.left, input.right)
    &&& movement_step(w2, w3)
    &&& fire_step(w3, w4, input.fire_just_pressed, dirs)
    &&& spawn_step(w4, w5)
    &&& patrol_step(w5, w6)
    &&& enemy_fire_step(w6, w7)
    &&& hits_step(w7, w8)
    &&& player_hit_step(w8, w9)
    &&& if w9.state is InGame {
        &&& collect_step(w9, w10)
        &&& dispatch_step(w10, w11)
        &&& background_step(w11, wend)
    } else {
        &&& same_world(w9, w10)
        &&& same_world(w10, w11)
        &&& same_world(w11, wend)
    }
}

/// One tick relates its start and end worlds through some chain of
/// intermediate worlds, one per pipeline stage.
pub open spec fn tick_rel(w0: World, input: TickInput, dirs: Seq<Velocity>, wend: World) -> bool {
    exists|w1: World, w2: World, w3: World, w4: World, w5: World, w6: World, w7: World, w8: World, w9: World, w10: World, w11: World|
        #![trigger tick_chain(w0, input, dirs, w1, w2, w3, w4, w5, w6, w7, w8, w9, w10, w11, wend)]
        tick_chain(w0, input, dirs, w1, w2, w3, w4, w5, w6, w7, w8, w9, w10, w11, wend)
}

/// Run one full gameplay tick in the required order: input, movement,
/// weapon fire, wave controller (spawn, patrol, enemy fire), collision
/// resolution, power-up dispatch, backdrop scroll. The whole pipeline is
/// pinned by `tick_rel`: the end world is reachable from the start world
/// through the stage steps above, in that order. The state machine's
/// in-tick transition — losing the last life — may leave the world at
/// the main menu; every other outcome stays in play.
///
/// `shotgun_dirs` carries the pellet direction vectors for a shotgun
/// volley, one per weapon level, computed by the shell from the exact
/// angles of `shotgun_angles`.
pub fn run_tick(w: &mut World, input: TickInput, shotgun_dirs: &Vec<Velocity>)
    requires
        old(w).wf(),
        old(w).state is InGame,
        old(w).player.lives >= 1,
        old(w).player.lives < u32::MAX,
        old(w).player.weapon_lvl < u32::MAX,
        old(w).tick < u64::MAX,
        old(w).wave < 0x1000_0000,
        old(w).player.weapon_lvl < 0x1000_0000,
        old(w).entities@.len() < 0x4000_0000,
        old(w).score as int + 100 * (old(w).enemy_count as int) <= u32::MAX as int,
        old(w).score as int + 100 * (old(w).wave as int) <= u32::MAX as int,
        old(w).win.w / 2 - SPAWN_MARGIN > 0,
        old(w).win.h / 2 - SPAWN_MARGIN > SPAWN_MARGIN_BOTTOM - (old(w).win.h / 2 - SPAWN_MARGIN),
        shotgun_dirs@.len() == old(w).player.weapon_lvl,
        forall|k: int|
            0 <= k < shotgun_dirs@.len() ==> -1000 <= (#[trigger] shotgun_dirs@[k]).x <= 1000
                && -1000 <= shotgun_dirs@[k].y <= 1000,
    ensures
        final(w).wf(),
        tick_rel(*old(w), input, shotgun_dirs@, *final(w)),
        final(w).state is InGame || final(w).state is MainMenu,
        final(w).tick == old(w).tick + 1,
        final(w).win == old(w).win,
        final(w).score >= old(w).score,
        final(w).wave >= old(w).wave,
{
    advance_tick(w);
    let ghost g1 = *w;
    player_keyboard_event_system(w, input.left, input.right);
    let ghost g2 = *w;
    movement_system(w);
    let ghost g3 = *w;
    if fire_criteria(WeaponType::Lasergun, input.fire_just_pressed, &w.player) {
        lasergun_fire_system(w);
    } else if fire_criteria(WeaponType::Shotgun, input.fire_just_pressed, &w.player) {
        shotgun_fire_system(w, shotgun_dirs);
    }
    let ghost g4 = *w;
    enemy_spawn_system(w);
    let ghost g5 = *w;
    enemy_movement_system(w);
    let ghost g6 = *w;
    if enemy_fire_criteria() {
        if w.entities.len() < 0x7fff_ffff {
            enemy_fire_system(w);
        }
    }
    let ghost g7 = *w;
    player_laser_hit_enemy_system(w);
    let ghost g8 = *w;
    if w.player.lives >= 1 {
        enemy_laser_hit_player_system(w);
    }
    let ghost g9 = *w;
    let ghost mut g10 = *w;
    let ghost mut g11 = *w;
    match w.state {
        GameState::InGame => {
            if w.player.lives < u32::MAX && w.player.weapon_lvl < u32::MAX {
                collect_power_up_system(w);
            }
            proof {
                g10 = *w;
            }
            power_up_spawn_system(w);
            proof {
                g11 = *w;
            }
            background_scrolling_system(w);
        },
        _ => {},
    }
    proof {
        assert(tick_chain(
            *old(w),
            input,
            shotgun_dirs@,
            g1,
            g2,
            g3,
            g4,
            g5,
            g6,
            g7,
            g8,
            g9,
            g10,
            g11,
            *w,
        ));
    }
}

} // verus!
