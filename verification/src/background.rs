//! The infinite vertical backdrop scroll: a persistent marker drifts down,
//! and each time it crosses the respawn threshold a full horizontal row of
//! tiles is spawned and the marker advances by one tile height.

use vstd::prelude::*;

use crate::components::{
    cadd, Entity, Movable, Position, Role, SpriteSize, Velocity, POS_LIMIT,
};
use crate::player::first_role_index;
use crate::world::World;

verus! {

/// Full extent of a backdrop tile: 256 x 256 px, unscaled.
pub const BACKGROUND_TILE: i64 = 768_000;

/// Downward scroll speed: 0.07 in milli-units.
pub const SCROLLING_VEL: i64 = 70;

/// A backdrop tile at the given center.
pub open spec fn background_tile(x: i64, y: i64) -> Entity {
    Entity {
        pos: Position { x, y },
        vel: Velocity { x: 0, y: (-SCROLLING_VEL) as i64 },
        size: SpriteSize { w: BACKGROUND_TILE, h: BACKGROUND_TILE },
        movable: Movable { auto_despawn: true },
        role: Role::Background,
    }
}

/// The scroll marker entity, spawned one tile below the window.
pub open spec fn background_top_entity(win_h: int) -> Entity {
    Entity {
        pos: Position { x: 0, y: (-(win_h + BACKGROUND_TILE) / 2) as i64 },
        vel: Velocity { x: 0, y: (-SCROLLING_VEL) as i64 },
        size: SpriteSize { w: BACKGROUND_TILE, h: BACKGROUND_TILE },
        movable: Movable { auto_despawn: false },
        role: Role::BackgroundTop,
    }
}

/// Index of the scroll marker, if present.
pub open spec fn background_top_index(s: Seq<Entity>) -> Option<int> {
    first_role_index(s, 0, |e: Entity| e.role is BackgroundTop)
}

/// The mirrored tile pairs of one row, at offsets `off, off + tile, ...`
/// strictly below `half_w`.
pub open spec fn row_pairs(y: i64, off: int, half_w: int) -> Seq<Entity>
    decreases half_w + BACKGROUND_TILE - off,
{
    if off >= half_w || off <= 0 {
        Seq::empty()
    } else {
        seq![
            background_tile(off as i64, y),
            background_tile((-off) as i64, y),
        ] + row_pairs(y, off + BACKGROUND_TILE, half_w)
    }
}

/// One full horizontal row of tiles at height `y`: the centered tile, then
/// mirrored pairs out to the window's half width.
pub open spec fn tile_row(y: i64, half_w: int) -> Seq<Entity> {
    seq![background_tile(0, y)] + row_pairs(y, BACKGROUND_TILE as int, half_w)
}

proof fn lemma_row_pairs_wf(y: i64, off: int, half_w: int)
    requires
        -POS_LIMIT <= y <= POS_LIMIT,
        half_w <= POS_LIMIT,
    ensures
        forall|i: int|
            0 <= i < row_pairs(y, off, half_w).len() ==> (#[trigger] row_pairs(y, off, half_w)[i]).ok(),
        forall|i: int|
            0 <= i < row_pairs(y, off, half_w).len() ==> !((#[trigger] row_pairs(
                y,
                off,
                half_w,
            )[i]).role is Enemy),
    decreases half_w + BACKGROUND_TILE - off,
{
    if !(off >= half_w || off <= 0) {
        lemma_row_pairs_wf(y, off + BACKGROUND_TILE, half_w);
    }
}

/// Spawn the persistent scroll marker one tile below the window.
pub fn background_spawn_system(w: &mut World)
    requires
        old(w).wf(),
    ensures
        final(w).wf(),
        final(w).entities@ == old(w).entities@.push(background_top_entity(old(w).win.h as int)),
        final(w).win == old(w).win && final(w).wave == old(w).wave && final(w).enemy_count == old(w).enemy_count
            && final(w).score == old(w).score && final(w).rotated == old(w).rotated && final(w).tick == old(w).tick
            && final(w).player == old(w).player && final(w).state == old(w).state,
{
    let y = -((w.win.h + BACKGROUND_TILE) / 2);
    let e = Entity {
        pos: Position { x: 0, y },
        vel: Velocity { x: 0, y: -SCROLLING_VEL },
        size: SpriteSize { w: BACKGROUND_TILE, h: BACKGROUND_TILE },
        movable: Movable { auto_despawn: false },
        role: Role::BackgroundTop,
    };
    w.entities.push(e);
    proof {
        crate::world::lemma_count_enemies_push(
            old(w).entities@,
            background_top_entity(old(w).win.h as int),
        );
    }
}

/// When the scroll marker has drifted below the respawn threshold, spawn
/// one full row of tiles at its height — repeating across the window
/// width, negative offsets included — and advance the marker by one tile
/// height. Without a marker, or above the threshold, nothing changes.
pub fn background_scrolling_system(w: &mut World)
    requires
        old(w).wf(),
    ensures
        final(w).wf(),
        final(w).entities@ == match background_top_index(old(w).entities@) {
            Some(i) => {
                let m = old(w).entities@[i];
                if m.pos.y < (old(w).win.h + BACKGROUND_TILE) / 2 {
                    old(w).entities@.update(
                        i,
                        Entity {
                            pos: Position {
                                x: m.pos.x,
                                y: cadd(m.pos.y as int, BACKGROUND_TILE as int),
                            },
                            ..m
                        },
                    ) + tile_row(m.pos.y, old(w).win.w as int / 2)
                } else {
                    old(w).entities@
                }
            },
            None => old(w).entities@,
        },
        final(w).win == old(w).win && final(w).wave == old(w).wave && final(w).enemy_count == old(w).enemy_count
            && final(w).score == old(w).score && final(w).rotated == old(w).rotated && final(w).tick == old(w).tick
            && final(w).player == old(w).player && final(w).state == old(w).state,
{
    let marker = match find_background_top(&w.entities) {
        Some(i) => i,
        None => {
            return ;
        },
    };
    let m = w.entities[marker];
    let threshold = (w.win.h + BACKGROUND_TILE) / 2;
    if m.pos.y < threshold {
        let ghost s0 = old(w).entities@;
        let half_w = w.win.w / 2;
        let y = m.pos.y;
        let advanced = Entity {
            pos: Position { x: m.pos.x, y: crate::components::add_coord(m.pos.y, BACKGROUND_TILE) },
            ..m
        };
        w.entities.set(marker, advanced);
        proof {
            crate::world::lemma_count_enemies_update(s0, marker as int, advanced);
        }
        let ghost s1 = s0.update(marker as int, advanced);
        let center = Entity {
            pos: Position { x: 0, y },
            vel: Velocity { x: 0, y: -SCROLLING_VEL },
            size: SpriteSize { w: BACKGROUND_TILE, h: BACKGROUND_TILE },
            movable: Movable { auto_despawn: true },
            role: Role::Background,
        };
        w.entities.push(center);
        proof {
            assert(w.entities@ =~= s1 + seq![background_tile(0, y)]);
            assert((s1 + seq![background_tile(0, y)]) + row_pairs(
                y,
                BACKGROUND_TILE as int,
                half_w as int,
            ) =~= s1 + tile_row(y, half_w as int));
        }
        let mut off: i64 = BACKGROUND_TILE;
        while off < half_w
            invariant
                w.win == old(w).win && w.wave == old(w).wave && w.enemy_count == old(
                    w,
                ).enemy_count && w.score == old(w).score && w.rotated == old(w).rotated && w.tick
                    == old(w).tick && w.player == old(w).player && w.state == old(w).state,
                half_w == old(w).win.w / 2,
                0 < half_w <= POS_LIMIT,
                0 < off,
                -POS_LIMIT <= y <= POS_LIMIT,
                w.entities@ + row_pairs(y, off as int, half_w as int) == s1 + tile_row(
                    y,
                    half_w as int,
                ),
            decreases half_w + BACKGROUND_TILE - off,
        {
            let right = Entity {
                pos: Position { x: off, y },
                vel: Velocity { x: 0, y: -SCROLLING_VEL },
                size: SpriteSize { w: BACKGROUND_TILE, h: BACKGROUND_TILE },
                movable: Movable { auto_despawn: true },
                role: Role::Background,
            };
            let left = Entity {
                pos: Position { x: -off, y },
                vel: Velocity { x: 0, y: -SCROLLING_VEL },
                size: SpriteSize { w: BACKGROUND_TILE, h: BACKGROUND_TILE },
                movable: Movable { auto_despawn: true },
                role: Role::Background,
            };
            let ghost before = w.entities@;
            w.entities.push(right);
            w.entities.push(left);
            proof {
                assert(row_pairs(y, off as int, half_w as int) == seq![
                    background_tile(off, y),
                    background_tile((-off) as i64, y),
                ] + row_pairs(y, off + BACKGROUND_TILE, half_w as int));
                assert(w.entities@ + row_pairs(y, off + BACKGROUND_TILE, half_w as int) =~= before
                    + row_pairs(y, off as int, half_w as int));
            }
            off = off + BACKGROUND_TILE;
        }
        proof {
            assert(row_pairs(y, off as int, half_w as int) =~= Seq::<Entity>::empty());
            assert(w.entities@ =~= w.entities@ + row_pairs(y, off as int, half_w as int));
            assert(w.entities@ =~= s1 + tile_row(y, half_w as int));
            lemma_row_pairs_wf(y, BACKGROUND_TILE as int, half_w as int);
            crate::world::lemma_count_enemies_append_non_enemies(s1, tile_row(y, half_w as int));
        }
    }
}

/// Find the first scroll-marker entity.
fn find_background_top(entities: &Vec<Entity>) -> (r: Option<usize>)
    ensures
        match r {
            Some(i) => 0 <= i < entities@.len() && background_top_index(entities@) == Some(
                i as int,
            ),
            None => background_top_index(entities@) is None,
        },
{
    let n = entities.len();
    let mut i: usize = 0;
    while i < n
        invariant
            n == entities@.len(),
            0 <= i <= n,
            first_role_index(entities@, 0, |e: Entity| e.role is BackgroundTop)
                == first_role_index(entities@, i as int, |e: Entity| e.role is BackgroundTop),
        decreases n - i,
    {
        match entities[i].role {
            Role::BackgroundTop => {
                return Some(i);
            },
            _ => {},
        }
        i = i + 1;
    }
    None
}

} // verus!
