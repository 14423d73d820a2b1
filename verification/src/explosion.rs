//! Explosion visuals: sheet-frame animation driven by the tick counter.

use vstd::prelude::*;

use crate::components::{count_enemies, Entity, Role};
use crate::world::World;

verus! {

/// Frames in the explosion sheet; the visual despawns after the last one.
pub const EXPLOSION_LEN: u32 = 16;

/// Ticks per animation frame: the 0.05 s frame timer at 60 ticks/s.
pub const TICKS_PER_FRAME: u32 = 3;

/// One explosion entity after one animation tick: `ticks` counts up to the
/// frame timer; when it completes, the frame advances and the entity is
/// dropped once past the sheet's end.
pub open spec fn animated(e: Entity) -> Seq<Entity> {
    match e.role {
        Role::Explosion { ticks, frame } => {
            if ticks + 1 < TICKS_PER_FRAME {
                seq![Entity { role: Role::Explosion { ticks: (ticks + 1) as u32, frame }, ..e }]
            } else if frame + 1 < EXPLOSION_LEN {
                seq![Entity { role: Role::Explosion { ticks: 0, frame: (frame + 1) as u32 }, ..e }]
            } else {
                Seq::empty()
            }
        },
        _ => seq![e],
    }
}

/// The entity sequence after one explosion-animation pass.
pub open spec fn after_animation(s: Seq<Entity>) -> Seq<Entity>
    decreases s.len(),
{
    if s.len() == 0 {
        Seq::empty()
    } else {
        after_animation(s.drop_last()) + animated(s.last())
    }
}

proof fn lemma_after_animation_wf(s: Seq<Entity>)
    requires
        forall|i: int| 0 <= i < s.len() ==> (#[trigger] s[i]).ok(),
    ensures
        forall|i: int|
            0 <= i < after_animation(s).len() ==> (#[trigger] after_animation(s)[i]).ok(),
        count_enemies(after_animation(s)) == count_enemies(s),
    decreases s.len(),
{
    if s.len() > 0 {
        lemma_after_animation_wf(s.drop_last());
        let s1 = s.drop_last();
        assert(s.last() == s[s.len() - 1]);
        let tail = animated(s.last());
        if tail.len() == 0 {
            assert(after_animation(s) =~= after_animation(s1));
            assert(!(s.last().role is Enemy));
        } else {
            assert(after_animation(s) =~= after_animation(s1).push(tail[0]));
            crate::world::lemma_count_enemies_push(after_animation(s1), tail[0]);
        }
    }
}

/// Advance every explosion's frame timer by one tick; step the frame each
/// time the timer completes, and despawn the visual past the last frame.
pub fn explosion_animation_system(w: &mut World)
    requires
        old(w).wf(),
    ensures
        final(w).wf(),
        final(w).entities@ == after_animation(old(w).entities@),
        final(w).win == old(w).win && final(w).wave == old(w).wave && final(w).enemy_count == old(w).enemy_count
            && final(w).score == old(w).score && final(w).rotated == old(w).rotated && final(w).tick == old(w).tick
            && final(w).player == old(w).player && final(w).state == old(w).state,
{
    let n = w.entities.len();
    let mut out: Vec<Entity> = Vec::new();
    let mut i: usize = 0;
    while i < n
        invariant
            n == old(w).entities@.len(),
            w == old(w),
            old(w).wf(),
            0 <= i <= n,
            out@ == after_animation(old(w).entities@.take(i as int)),
        decreases n - i,
    {
        let e = w.entities[i];
        proof {
            assert(old(w).entities@.take(i + 1).drop_last() =~= old(w).entities@.take(i as int));
            assert(old(w).entities@.take(i + 1).last() == old(w).entities@[i as int]);
        }
        match e.role {
            Role::Explosion { ticks, frame } => {
                if ticks + 1 < TICKS_PER_FRAME {
                    out.push(Entity { role: Role::Explosion { ticks: ticks + 1, frame }, ..e });
                } else if frame + 1 < EXPLOSION_LEN {
                    out.push(Entity { role: Role::Explosion { ticks: 0, frame: frame + 1 }, ..e });
                }
            },
            _ => {
                out.push(e);
            },
        }
        i = i + 1;
    }
    proof {
        assert(old(w).entities@.take(n as int) =~= old(w).entities@);
        lemma_after_animation_wf(old(w).entities@);
    }
    w.entities = out;
}

} // verus!
