//! Fixed-step velocity integration and boundary auto-despawn.

use vstd::prelude::*;

use crate::components::{
    clamp_coord, count_enemies, Entity, Position, DIM_LIMIT, POS_LIMIT, STEP_FACTOR, VEL_LIMIT,
};
use crate::world::{WindowSize, World};

verus! {

/// Units of margin beyond the window half-extent before auto-despawn:
/// 200 px.
pub const DESPAWN_MARGIN: i64 = 600_000;

/// A coordinate after one tick of integration: the exact displacement
/// `v * STEP_FACTOR`, saturated at the coordinate limit.
pub open spec fn moved_coord(p: i64, v: i64) -> i64 {
    clamp_coord(p + v * STEP_FACTOR)
}

/// An entity after one tick of integration.
pub open spec fn moved_entity(e: Entity) -> Entity {
    Entity {
        pos: Position { x: moved_coord(e.pos.x, e.vel.x), y: moved_coord(e.pos.y, e.vel.y) },
        ..e
    }
}

/// Whether a position lies beyond the window half-extent plus the margin
/// on some axis. Exactly at the limit is still inside.
pub open spec fn out_of_bounds(pos: Position, win: WindowSize) -> bool {
    ||| pos.y > win.h / 2 + DESPAWN_MARGIN
    ||| pos.y < -(win.h / 2) - DESPAWN_MARGIN
    ||| pos.x > win.w / 2 + DESPAWN_MARGIN
    ||| pos.x < -(win.w / 2) - DESPAWN_MARGIN
}

/// Whether the movement pass removes this entity this tick.
pub open spec fn culled(e: Entity, win: WindowSize) -> bool {
    e.movable.auto_despawn && out_of_bounds(moved_entity(e).pos, win)
}

/// The entity sequence after one movement pass: every entity advanced by
/// its velocity, and every auto-despawn entity beyond the margin removed.
pub open spec fn move_and_cull(s: Seq<Entity>, win: WindowSize) -> Seq<Entity>
    decreases s.len(),
{
    if s.len() == 0 {
        Seq::empty()
    } else {
        move_and_cull(s.drop_last(), win) + if culled(s.last(), win) {
            Seq::<Entity>::empty()
        } else {
            seq![moved_entity(s.last())]
        }
    }
}

proof fn lemma_move_and_cull_wf(s: Seq<Entity>, win: WindowSize)
    requires
        forall|i: int| 0 <= i < s.len() ==> (#[trigger] s[i]).ok(),
    ensures
        forall|i: int|
            0 <= i < move_and_cull(s, win).len() ==> (#[trigger] move_and_cull(s, win)[i]).ok(),
        count_enemies(move_and_cull(s, win)) == count_enemies(s),
    decreases s.len(),
{
    if s.len() > 0 {
        lemma_move_and_cull_wf(s.drop_last(), win);
        let s1 = s.drop_last();
        assert(s.last() == s[s.len() - 1]);
        if culled(s.last(), win) {
            assert(move_and_cull(s, win) =~= move_and_cull(s1, win));
            assert(!(s.last().role is Enemy));
        } else {
            assert(move_and_cull(s, win) =~= move_and_cull(s1, win).push(
                moved_entity(s.last()),
            ));
            crate::world::lemma_count_enemies_push(
                move_and_cull(s1, win),
                moved_entity(s.last()),
            );
        }
    }
}

/// Advance every movable by its velocity over one fixed step and remove
/// each auto-despawn entity that ends beyond the window plus the margin.
/// Integration is by tick count alone, so the trajectory is independent of
/// wall-clock time.
pub fn movement_system(w: &mut World)
    requires
        old(w).wf(),
    ensures
        final(w).wf(),
        final(w).entities@ == move_and_cull(old(w).entities@, old(w).win),
        final(w).win == old(w).win && final(w).wave == old(w).wave && final(w).enemy_count == old(w).enemy_count
            && final(w).score == old(w).score && final(w).rotated == old(w).rotated && final(w).tick == old(w).tick
            && final(w).player == old(w).player && final(w).state == old(w).state,
{
    let n = w.entities.len();
    let half_w = w.win.w / 2;
    let half_h = w.win.h / 2;
    let mut out: Vec<Entity> = Vec::new();
    let mut i: usize = 0;
    while i < n
        invariant
            n == old(w).entities@.len(),
            w == old(w),
            old(w).wf(),
            half_w == old(w).win.w / 2,
            half_h == old(w).win.h / 2,
            0 <= i <= n,
            out@ == move_and_cull(old(w).entities@.take(i as int), old(w).win),
        decreases n - i,
    {
        let e = w.entities[i];
        proof {
            assert(old(w).entities@.take(i + 1).drop_last() =~= old(w).entities@.take(i as int));
            assert(old(w).entities@.take(i + 1).last() == old(w).entities@[i as int]);
        }
        let moved = Entity {
            pos: Position {
                x: step_coord(e.pos.x, e.vel.x),
                y: step_coord(e.pos.y, e.vel.y),
            },
            ..e
        };
        if moved.movable.auto_despawn {
            let gone = moved.pos.y > half_h + DESPAWN_MARGIN || moved.pos.y < -half_h
                - DESPAWN_MARGIN || moved.pos.x > half_w + DESPAWN_MARGIN || moved.pos.x < -half_w
                - DESPAWN_MARGIN;
            if !gone {
                out.push(moved);
            }
        } else {
            out.push(moved);
        }
        i = i + 1;
    }
    proof {
        assert(old(w).entities@.take(n as int) =~= old(w).entities@);
        lemma_move_and_cull_wf(old(w).entities@, old(w).win);
    }
    w.entities = out;
}

/// One coordinate step: exact displacement within the coordinate range,
/// saturating at its edge.
fn step_coord(p: i64, v: i64) -> (r: i64)
    requires
        -POS_LIMIT <= p <= POS_LIMIT,
        -VEL_LIMIT <= v <= VEL_LIMIT,
    ensures
        r == moved_coord(p, v),
{
    let s = p + v * STEP_FACTOR;
    if s > POS_LIMIT {
        POS_LIMIT
    } else if s < -POS_LIMIT {
        -POS_LIMIT
    } else {
        s
    }
}

/// A coordinate after `k` ticks of integration.
pub open spec fn coord_after_ticks(p: i64, v: i64, k: nat) -> i64
    decreases k,
{
    if k == 0 {
        p
    } else {
        moved_coord(coord_after_ticks(p, v, (k - 1) as nat), v)
    }
}

/// Fixed-step integration is exact and tick-count-deterministic: as long
/// as the trajectory stays within the coordinate range, the displacement
/// after `k` ticks is exactly `v * STEP_FACTOR * k` — the fixed step times
/// the base speed times the tick count, with no wall-clock dependence.
pub proof fn lemma_velocity_integration(p: i64, v: i64, k: nat)
    requires
        -VEL_LIMIT <= v <= VEL_LIMIT,
        abs_int(p as int) + VEL_LIMIT * STEP_FACTOR * k <= POS_LIMIT,
    ensures
        coord_after_ticks(p, v, k) == p + v * STEP_FACTOR * k,
    decreases k,
{
    if k == 0 {
        assert(v * STEP_FACTOR * k == 0) by (nonlinear_arith)
            requires
                k == 0,
        ;
    } else {
        let j = (k - 1) as nat;
        let vs = v * STEP_FACTOR;
        assert(-25000 <= vs <= 25000);
        assert(25000 * j <= 25000 * k);
        lemma_velocity_integration(p, v, j);
        let q = coord_after_ticks(p, v, j);
        assert(q == p + vs * j);
        assert(vs * k == vs * j + vs) by (nonlinear_arith)
            requires
                k == j + 1,
        ;
        assert(-25000 * (k as int) <= vs * k <= 25000 * (k as int)) by (nonlinear_arith)
            requires
                -25000 <= vs <= 25000,
                k >= 0,
        ;
        assert(-POS_LIMIT <= p + vs * k <= POS_LIMIT);
        assert(moved_coord(q, v) == p + vs * k);
    }
}

/// Magnitude of an unbounded integer.
pub open spec fn abs_int(x: int) -> int {
    if x >= 0 {
        x
    } else {
        -x
    }
}

/// Boundary despawn is inclusive consistently: an auto-despawn entity that
/// ends a tick exactly at `half-extent + margin` on an axis (and within
/// range on the other axis) is retained; one unit beyond is removed.
pub proof fn lemma_boundary_despawn(win: WindowSize, p_edge: Position, p_out: Position)
    requires
        win.ok(),
        p_edge.y == win.h / 2 + DESPAWN_MARGIN,
        -(win.w / 2) - DESPAWN_MARGIN <= p_edge.x <= win.w / 2 + DESPAWN_MARGIN,
        p_out.y == win.h / 2 + DESPAWN_MARGIN + 1,
    ensures
        !out_of_bounds(p_edge, win),
        out_of_bounds(p_out, win),
{
}

} // verus!
