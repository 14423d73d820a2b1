//! Power-up kinds, the weighted random draw, and the dispatcher that turns
//! kill-triggered spawn requests into concrete drifting power-ups.

use vstd::prelude::*;

use crate::components::{Entity, Movable, Position, Role, SpriteSize, Velocity};
use crate::rng::rand_in_range;
use crate::world::World;

verus! {

/// Number of distinct power-up kinds the draw chooses among.
pub const POWER_UP_TYPES_CNT: i64 = 4;

/// Full extent of a power-up sprite: 34 x 34 px, unscaled.
pub const POWER_UP_W: i64 = 102_000;

/// Downward drift of a power-up: speed 0.3 in milli-units.
pub const POWER_UP_FALL_VEL: i64 = 300;

/// The effect a power-up grants on pickup.
#[derive(Clone, Copy, Debug, PartialEq, Eq, Structural)]
pub enum PowerUpType {
    /// One extra life.
    Hp,
    /// One weapon level.
    WeaponLvl,
    /// Equip the laser gun.
    ChangeToLaser,
    /// Equip the shotgun.
    ChangeToShotgun,
}

/// The power-up kind each index of the uniform draw maps to.
pub open spec fn power_up_of_index(n: int) -> PowerUpType {
    if n == 0 {
        PowerUpType::Hp
    } else if n == 1 {
        PowerUpType::WeaponLvl
    } else if n == 2 {
        PowerUpType::ChangeToLaser
    } else {
        PowerUpType::ChangeToShotgun
    }
}

/// Map a drawn index to its power-up kind.
pub fn power_up_from_index(n: i64) -> (t: PowerUpType)
    ensures
        t == power_up_of_index(n as int),
{
    if n == 0 {
        PowerUpType::Hp
    } else if n == 1 {
        PowerUpType::WeaponLvl
    } else if n == 2 {
        PowerUpType::ChangeToLaser
    } else {
        PowerUpType::ChangeToShotgun
    }
}

/// Draw a power-up kind uniformly among the four.
pub fn get_random_power_up() -> PowerUpType {
    let n = rand_in_range(0, POWER_UP_TYPES_CNT);
    power_up_from_index(n)
}

/// The concrete power-up entity materialized from a request at `pos`.
pub open spec fn power_up_entity(pos: Position, t: PowerUpType) -> Entity {
    Entity {
        pos,
        vel: Velocity { x: 0, y: (-POWER_UP_FALL_VEL) as i64 },
        size: SpriteSize { w: POWER_UP_W, h: POWER_UP_W },
        movable: Movable { auto_despawn: true },
        role: Role::PowerUp(t),
    }
}

/// Entities that survive the dispatch pass: everything but the requests.
pub open spec fn non_requests(s: Seq<Entity>) -> Seq<Entity>
    decreases s.len(),
{
    if s.len() == 0 {
        Seq::empty()
    } else {
        non_requests(s.drop_last()) + if s.last().role is SpawnPowerUp {
            Seq::<Entity>::empty()
        } else {
            seq![s.last()]
        }
    }
}

/// Power-ups materialized from the requests of `s`, in order.
pub open spec fn materialized(s: Seq<Entity>) -> Seq<Entity>
    decreases s.len(),
{
    if s.len() == 0 {
        Seq::empty()
    } else {
        materialized(s.drop_last()) + match s.last().role {
            Role::SpawnPowerUp(t) => seq![power_up_entity(s.last().pos, t)],
            _ => Seq::<Entity>::empty(),
        }
    }
}

proof fn lemma_non_requests_wf(s: Seq<Entity>)
    requires
        forall|i: int| 0 <= i < s.len() ==> (#[trigger] s[i]).ok(),
    ensures
        forall|i: int| 0 <= i < non_requests(s).len() ==> (#[trigger] non_requests(s)[i]).ok(),
        crate::components::count_enemies(non_requests(s)) == crate::components::count_enemies(s),
    decreases s.len(),
{
    if s.len() > 0 {
        lemma_non_requests_wf(s.drop_last());
        let s1 = s.drop_last();
        assert(s.last() == s[s.len() - 1]);
        if s.last().role is SpawnPowerUp {
            assert(non_requests(s) =~= non_requests(s1));
            assert(!(s.last().role is Enemy));
        } else {
            assert(non_requests(s) =~= non_requests(s1).push(s.last()));
            crate::world::lemma_count_enemies_push(non_requests(s1), s.last());
        }
    }
}

proof fn lemma_materialized_wf(s: Seq<Entity>)
    requires
        forall|i: int| 0 <= i < s.len() ==> (#[trigger] s[i]).ok(),
    ensures
        forall|i: int| 0 <= i < materialized(s).len() ==> (#[trigger] materialized(s)[i]).ok(),
        crate::components::count_enemies(materialized(s)) == 0,
    decreases s.len(),
{
    if s.len() > 0 {
        lemma_materialized_wf(s.drop_last());
        let s1 = s.drop_last();
        assert(s.last() == s[s.len() - 1]);
        match s.last().role {
            Role::SpawnPowerUp(t) => {
                assert(materialized(s) =~= materialized(s1).push(
                    power_up_entity(s.last().pos, t),
                ));
                crate::world::lemma_count_enemies_push(
                    materialized(s1),
                    power_up_entity(s.last().pos, t),
                );
            },
            _ => {
                assert(materialized(s) =~= materialized(s1));
            },
        }
    }
}

proof fn lemma_dispatch_preserves(s: Seq<Entity>)
    requires
        forall|i: int| 0 <= i < s.len() ==> (#[trigger] s[i]).ok(),
    ensures
        crate::components::count_enemies(non_requests(s) + materialized(s))
            == crate::components::count_enemies(s),
        forall|i: int|
            0 <= i < (non_requests(s) + materialized(s)).len() ==> (#[trigger] (non_requests(s)
                + materialized(s))[i]).ok(),
{
    lemma_non_requests_wf(s);
    lemma_materialized_wf(s);
    crate::world::lemma_count_enemies_add(non_requests(s), materialized(s));
}

/// Materialize every pending power-up request into a concrete power-up with
/// a small constant downward drift, and drop the request entities.
pub fn power_up_spawn_system(w: &mut World)
    requires
        old(w).wf(),
    ensures
        final(w).wf(),
        final(w).entities@ == non_requests(old(w).entities@) + materialized(old(w).entities@),
        final(w).win == old(w).win && final(w).wave == old(w).wave && final(w).enemy_count == old(w).enemy_count
            && final(w).score == old(w).score && final(w).rotated == old(w).rotated && final(w).tick == old(w).tick
            && final(w).player == old(w).player && final(w).state == old(w).state,
{
    let n = w.entities.len();
    let mut out: Vec<Entity> = Vec::new();
    let mut news: Vec<Entity> = Vec::new();
    let mut i: usize = 0;
    while i < n
        invariant
            n == old(w).entities@.len(),
            w == old(w),
            0 <= i <= n,
            out@ == non_requests(old(w).entities@.take(i as int)),
            news@ == materialized(old(w).entities@.take(i as int)),
        decreases n - i,
    {
        let e = w.entities[i];
        proof {
            assert(old(w).entities@.take(i + 1).drop_last() =~= old(w).entities@.take(i as int));
            assert(old(w).entities@.take(i + 1).last() == old(w).entities@[i as int]);
        }
        match e.role {
            Role::SpawnPowerUp(t) => {
                news.push(
                    Entity {
                        pos: e.pos,
                        vel: Velocity { x: 0, y: -POWER_UP_FALL_VEL },
                        size: SpriteSize { w: POWER_UP_W, h: POWER_UP_W },
                        movable: Movable { auto_despawn: true },
                        role: Role::PowerUp(t),
                    },
                );
            },
            _ => {
                out.push(e);
            },
        }
        i = i + 1;
    }
    proof {
        assert(old(w).entities@.take(n as int) =~= old(w).entities@);
    }
    let mut j: usize = 0;
    let m = news.len();
    while j < m
        invariant
            m == news@.len(),
            0 <= j <= m,
            w == old(w),
            news@ == materialized(old(w).entities@),
            out@ == non_requests(old(w).entities@) + news@.take(j as int),
        decreases m - j,
    {
        let e = news[j];
        out.push(e);
        proof {
            assert(news@.take(j + 1) =~= news@.take(j as int).push(news@[j as int]));
        }
        j = j + 1;
    }
    proof {
        assert(news@.take(m as int) =~= news@);
        assert(out@ =~= non_requests(old(w).entities@) + materialized(old(w).entities@));
        lemma_dispatch_preserves(old(w).entities@);
    }
    w.entities = out;
}

} // verus!
