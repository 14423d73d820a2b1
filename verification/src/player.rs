//! The player's persistent state and the player-ship systems.

use vstd::prelude::*;

use crate::components::{Entity, Movable, Position, Role, SpriteSize, Velocity, VEL_LIMIT};
use crate::weapons::WeaponType;
use crate::world::World;

verus! {

/// Full extent of the player sprite: 144 x 75 px at sprite scale 1/2.
pub const PLAYER_W: i64 = 216_000;

/// Height of the player sprite in units.
pub const PLAYER_H: i64 = 112_500;

/// Lives, equipped weapon and its power level.
#[derive(Clone, Copy, Debug, PartialEq, Eq, Structural)]
pub struct PlayerState {
    pub lives: u32,
    pub weapon_type: WeaponType,
    pub weapon_lvl: u32,
}

/// The state a fresh play session starts from.
pub open spec fn initial_player_state() -> PlayerState {
    PlayerState { lives: 3, weapon_type: WeaponType::Lasergun, weapon_lvl: 1 }
}

impl PlayerState {
    /// A fresh player: 3 lives, laser gun at level 1.
    pub fn new() -> (s: PlayerState)
        ensures
            s == initial_player_state(),
    {
        PlayerState { lives: 3, weapon_type: WeaponType::Lasergun, weapon_lvl: 1 }
    }

    /// Return to the fresh-session defaults.
    pub fn reset(&mut self)
        ensures
            *final(self) == initial_player_state(),
    {
        self.lives = 3;
        self.weapon_type = WeaponType::Lasergun;
        self.weapon_lvl = 1;
    }
}

/// The player ship entity, spawned centered at the bottom of the window.
pub open spec fn player_entity(win_h: int) -> Entity {
    Entity {
        pos: Position { x: 0, y: (-win_h / 2 + PLAYER_H / 2) as i64 },
        vel: Velocity { x: 0, y: 0 },
        size: SpriteSize { w: PLAYER_W, h: PLAYER_H },
        movable: Movable { auto_despawn: false },
        role: Role::Player,
    }
}

/// Index of the first player entity, if any.
pub open spec fn player_index(s: Seq<Entity>) -> Option<int> {
    first_role_index(s, 0, |e: Entity| e.role is Player)
}

/// Index of the first entity from `j` on satisfying `p`.
pub open spec fn first_role_index(s: Seq<Entity>, j: int, p: spec_fn(Entity) -> bool) -> Option<
    int,
>
    decreases s.len() - j,
{
    if j < 0 || j >= s.len() {
        None
    } else if p(s[j]) {
        Some(j)
    } else {
        first_role_index(s, j + 1, p)
    }
}

/// Find the first player entity.
pub fn find_player(entities: &Vec<Entity>) -> (r: Option<usize>)
    ensures
        match r {
            Some(i) => 0 <= i < entities@.len() && player_index(entities@) == Some(i as int),
            None => player_index(entities@) is None,
        },
{
    let n = entities.len();
    let mut i: usize = 0;
    while i < n
        invariant
            n == entities@.len(),
            0 <= i <= n,
            first_role_index(entities@, 0, |e: Entity| e.role is Player) == first_role_index(
                entities@,
                i as int,
                |e: Entity| e.role is Player,
            ),
        decreases n - i,
    {
        match entities[i].role {
            Role::Player => {
                return Some(i);
            },
            _ => {},
        }
        i = i + 1;
    }
    None
}

/// Spawn the player ship at the bottom center of the window.
pub fn player_spawn_system(w: &mut World)
    requires
        old(w).wf(),
    ensures
        final(w).wf(),
        final(w).entities@ == old(w).entities@.push(player_entity(old(w).win.h as int)),
        final(w).win == old(w).win && final(w).wave == old(w).wave && final(w).enemy_count == old(w).enemy_count
            && final(w).score == old(w).score && final(w).rotated == old(w).rotated && final(w).tick == old(w).tick
            && final(w).player == old(w).player && final(w).state == old(w).state,
{
    let y = -(w.win.h / 2) + PLAYER_H / 2;
    let e = Entity {
        pos: Position { x: 0, y },
        vel: Velocity { x: 0, y: 0 },
        size: SpriteSize { w: PLAYER_W, h: PLAYER_H },
        movable: Movable { auto_despawn: false },
        role: Role::Player,
    };
    w.entities.push(e);
    proof {
        assert(e == player_entity(old(w).win.h as int));
        crate::world::lemma_count_enemies_push(old(w).entities@, e);
    }
}

/// Set the player's horizontal velocity from the held arrow keys:
/// left wins over right; neither key means standstill.
pub fn player_keyboard_event_system(w: &mut World, left: bool, right: bool)
    requires
        old(w).wf(),
    ensures
        final(w).wf(),
        match player_index(old(w).entities@) {
            Some(i) => {
                let vx: i64 = if left {
                    (-VEL_LIMIT) as i64
                } else if right {
                    VEL_LIMIT
                } else {
                    0
                };
                final(w).entities@ == old(w).entities@.update(
                    i,
                    Entity {
                        vel: Velocity { x: vx, y: old(w).entities@[i].vel.y },
                        ..old(w).entities@[i]
                    },
                )
            },
            None => final(w).entities@ == old(w).entities@,
        },
        final(w).win == old(w).win && final(w).wave == old(w).wave && final(w).enemy_count == old(w).enemy_count
            && final(w).score == old(w).score && final(w).rotated == old(w).rotated && final(w).tick == old(w).tick
            && final(w).player == old(w).player && final(w).state == old(w).state,
{
    match find_player(&w.entities) {
        Some(i) => {
            let vx: i64 = if left {
                -VEL_LIMIT
            } else if right {
                VEL_LIMIT
            } else {
                0
            };
            let e = w.entities[i];
            let updated = Entity { vel: Velocity { x: vx, y: e.vel.y }, ..e };
            w.entities.set(i, updated);
            proof {
                crate::world::lemma_count_enemies_update(old(w).entities@, i as int, updated);
            }
        },
        None => {},
    }
}

} // verus!
