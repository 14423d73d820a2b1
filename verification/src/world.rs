//! The world: all live entities plus the scalar game resources, with the
//! invariant every system preserves.

use vstd::prelude::*;

use crate::components::{count_enemies, Entity, DIM_LIMIT};
use crate::player::{initial_player_state, PlayerState};
use crate::state::GameState;

verus! {

/// Window extent in coordinate units.
#[derive(Clone, Copy, Debug, PartialEq, Eq, Structural)]
pub struct WindowSize {
    pub w: i64,
    pub h: i64,
}

impl WindowSize {
    /// A usable window: positive, even (so half-extents are exact) and
    /// within the model's dimension bound.
    pub open spec fn ok(self) -> bool {
        &&& 0 < self.w <= DIM_LIMIT
        &&& 0 < self.h <= DIM_LIMIT
        &&& self.w % 2 == 0
        &&& self.h % 2 == 0
    }
}

/// All live entities and the scalar world resources.
pub struct World {
    pub entities: Vec<Entity>,
    pub win: WindowSize,
    pub wave: u32,
    pub enemy_count: u32,
    pub score: u32,
    pub rotated: bool,
    pub tick: u64,
    pub player: PlayerState,
    pub state: GameState,
}

impl World {
    /// The world invariant: a usable window, a running wave counter, every
    /// entity well formed, and — whenever gameplay state is live — the
    /// enemy-count resource equal to the number of live enemy ships.
    pub open spec fn wf(self) -> bool {
        &&& self.win.ok()
        &&& forall|i: int| 0 <= i < self.entities@.len() ==> (#[trigger] self.entities@[i]).ok()
        &&& (self.state is InGame || self.state is Paused || self.state is Save)
            ==> self.enemy_count as int == count_enemies(self.entities@) as int
    }

    /// A fresh world at the main menu.
    pub fn new(win: WindowSize) -> (w: World)
        requires
            win.ok(),
        ensures
            w.wf(),
            w.entities@ == Seq::<Entity>::empty(),
            w.win == win,
            w.wave == 1,
            w.enemy_count == 0,
            w.score == 0,
            w.rotated == false,
            w.tick == 0,
            w.player == initial_player_state(),
            w.state is MainMenu,
    {
        World {
            entities: Vec::new(),
            win,
            wave: 1,
            enemy_count: 0,
            score: 0,
            rotated: false,
            tick: 0,
            player: PlayerState::new(),
            state: GameState::MainMenu,
        }
    }
}

/// Advance the logical tick counter by one fixed step. The counter replaces
/// wall-clock reads, so every derived phase is reproducible.
pub fn advance_tick(w: &mut World)
    requires
        old(w).wf(),
        old(w).tick < u64::MAX,
    ensures
        final(w).wf(),
        final(w).tick == old(w).tick + 1,
        final(w).entities@ == old(w).entities@ && final(w).win == old(w).win && final(w).wave == old(w).wave
            && final(w).enemy_count == old(w).enemy_count && final(w).score == old(w).score && final(w).rotated == old(
            w,
        ).rotated && final(w).player == old(w).player && final(w).state == old(w).state,
{
    w.tick = w.tick + 1;
}

/// Appending a non-enemy leaves the enemy count unchanged; appending an
/// enemy raises it by one.
pub proof fn lemma_count_enemies_push(s: Seq<Entity>, e: Entity)
    ensures
        count_enemies(s.push(e)) == count_enemies(s) + if e.role is Enemy {
            1nat
        } else {
            0nat
        },
{
    assert(s.push(e).drop_last() =~= s);
}

/// Replacing an entity with one of the same enemy-ness keeps the count.
pub proof fn lemma_count_enemies_update(s: Seq<Entity>, i: int, e: Entity)
    requires
        0 <= i < s.len(),
        (e.role is Enemy) == (s[i].role is Enemy),
    ensures
        count_enemies(s.update(i, e)) == count_enemies(s),
    decreases s.len(),
{
    let t = s.update(i, e);
    if i == s.len() - 1 {
        assert(t.drop_last() =~= s.drop_last());
    } else {
        assert(t.drop_last() =~= s.drop_last().update(i, e));
        lemma_count_enemies_update(s.drop_last(), i, e);
    }
}

/// Appending entities none of which is an enemy keeps the enemy count.
pub proof fn lemma_count_enemies_append_non_enemies(a: Seq<Entity>, b: Seq<Entity>)
    requires
        forall|i: int| 0 <= i < b.len() ==> !((#[trigger] b[i]).role is Enemy),
    ensures
        count_enemies(a + b) == count_enemies(a),
    decreases b.len(),
{
    if b.len() == 0 {
        assert(a + b =~= a);
    } else {
        assert((a + b).drop_last() =~= a + b.drop_last());
        lemma_count_enemies_append_non_enemies(a, b.drop_last());
    }
}

/// Removing one entity lowers the enemy count by its enemy-ness.
pub proof fn lemma_count_enemies_remove(s: Seq<Entity>, i: int)
    requires
        0 <= i < s.len(),
    ensures
        count_enemies(s.remove(i)) + if s[i].role is Enemy {
            1nat
        } else {
            0nat
        } == count_enemies(s),
    decreases s.len(),
{
    if i == s.len() - 1 {
        assert(s.remove(i) =~= s.drop_last());
    } else {
        assert(s.remove(i).drop_last() =~= s.drop_last().remove(i));
        assert(s.remove(i).last() == s.last());
        lemma_count_enemies_remove(s.drop_last(), i);
    }
}

/// Concatenation adds the enemy counts of the parts.
pub proof fn lemma_count_enemies_add(a: Seq<Entity>, b: Seq<Entity>)
    ensures
        count_enemies(a + b) == count_enemies(a) + count_enemies(b),
    decreases b.len(),
{
    if b.len() == 0 {
        assert(a + b =~= a);
    } else {
        assert((a + b).drop_last() =~= a + b.drop_last());
        lemma_count_enemies_add(a, b.drop_last());
    }
}

} // verus!
