//! Axis-aligned overlap testing and per-tick collision resolution.

use vstd::prelude::*;

use crate::components::{count_enemies, Entity, Movable, Position, Role, SpriteSize, Velocity};
use crate::player::{find_player, player_index, PlayerState};
use crate::powerups::{power_up_from_index, PowerUpType};
use crate::rng::rand_in_range;
use crate::state::{despawn_system, session_survivors, GameState};
use crate::weapons::WeaponType;
use crate::world::World;

verus! {

/// Whether two axis-aligned rectangles (center plus full extent) overlap:
/// their projections intersect strictly on both axes. Stated without
/// division: `2 * |center distance| < extent sum` per axis.
pub open spec fn overlaps_spec(a: Entity, b: Entity) -> bool {
    &&& 2 * (a.pos.x - b.pos.x) < a.size.w + b.size.w
    &&& 2 * (b.pos.x - a.pos.x) < a.size.w + b.size.w
    &&& 2 * (a.pos.y - b.pos.y) < a.size.h + b.size.h
    &&& 2 * (b.pos.y - a.pos.y) < a.size.h + b.size.h
}

/// The overlap test on two entities' bounding boxes.
pub fn overlaps(a: &Entity, b: &Entity) -> (r: bool)
    requires
        a.ok(),
        b.ok(),
    ensures
        r == overlaps_spec(*a, *b),
{
    let dx = a.pos.x - b.pos.x;
    let dy = a.pos.y - b.pos.y;
    2 * dx < a.size.w + b.size.w && -(2 * dx) < a.size.w + b.size.w && 2 * dy < a.size.h
        + b.size.h && -(2 * dy) < a.size.h + b.size.h
}

/// The overlap test does not depend on the order of its arguments.
pub proof fn lemma_overlaps_symmetric(a: Entity, b: Entity)
    ensures
        overlaps_spec(a, b) == overlaps_spec(b, a),
{
}

/// The first enemy at index `j` or later that the laser overlaps and that
/// is not yet resolved.
pub open spec fn first_enemy_hit_from(s: Seq<Entity>, laser: Entity, used: Set<int>, j: int) -> Option<int>
    decreases s.len() - j,
{
    if j < 0 || j >= s.len() {
        None
    } else if s[j].role is Enemy && !used.contains(j) && overlaps_spec(laser, s[j]) {
        Some(j)
    } else {
        first_enemy_hit_from(s, laser, used, j + 1)
    }
}

/// The resolved (laser index, enemy index) pairs of one pass, scanning
/// lasers from index `i` on with `used` already-resolved enemies: each
/// player laser claims the first free overlapping enemy, and both leave
/// the pass.
pub open spec fn hit_pairs_from(s: Seq<Entity>, i: int, used: Set<int>) -> Seq<(int, int)>
    decreases s.len() - i,
{
    if i < 0 || i >= s.len() {
        Seq::empty()
    } else if s[i].role is PlayerLaser {
        match first_enemy_hit_from(s, s[i], used, 0) {
            Some(j) => seq![(i, j)] + hit_pairs_from(s, i + 1, used.insert(j)),
            None => hit_pairs_from(s, i + 1, used),
        }
    } else {
        hit_pairs_from(s, i + 1, used)
    }
}

/// The resolved pairs of one full pass.
pub open spec fn hit_pairs(s: Seq<Entity>) -> Seq<(int, int)> {
    hit_pairs_from(s, 0, Set::empty())
}

/// A single resolved pair in isolation: indices in range, a player laser
/// hitting an enemy it overlaps.
pub open spec fn hit_ok(s: Seq<Entity>, p: (int, int)) -> bool {
    &&& 0 <= p.0 < s.len()
    &&& s[p.0].role is PlayerLaser
    &&& 0 <= p.1 < s.len()
    &&& s[p.1].role is Enemy
    &&& overlaps_spec(s[p.0], s[p.1])
}

/// A well-formed pass result: each pair resolved, laser indices strictly
/// increasing, enemy indices pairwise distinct.
pub open spec fn hits_wf(s: Seq<Entity>, m: Seq<(int, int)>) -> bool {
    &&& forall|k: int| 0 <= k < m.len() ==> hit_ok(s, #[trigger] m[k])
    &&& forall|k1: int, k2: int|
        #![trigger m[k1], m[k2]]
        0 <= k1 < k2 < m.len() ==> m[k1].0 < m[k2].0 && m[k1].1 != m[k2].1
}

proof fn lemma_first_hit_props(s: Seq<Entity>, laser: Entity, used: Set<int>, j: int)
    ensures
        match first_enemy_hit_from(s, laser, used, j) {
            Some(e) => j <= e < s.len() && s[e].role is Enemy && !used.contains(e)
                && overlaps_spec(laser, s[e]),
            None => true,
        },
    decreases s.len() - j,
{
    if !(j < 0 || j >= s.len()) {
        if !(s[j].role is Enemy && !used.contains(j) && overlaps_spec(laser, s[j])) {
            lemma_first_hit_props(s, laser, used, j + 1);
        }
    }
}

proof fn lemma_hit_pairs_props(s: Seq<Entity>, i: int, used: Set<int>)
    ensures
        hits_wf(s, hit_pairs_from(s, i, used)),
        forall|k: int|
            0 <= k < hit_pairs_from(s, i, used).len() ==> (#[trigger] hit_pairs_from(
                s,
                i,
                used,
            )[k]).0 >= i && !used.contains(hit_pairs_from(s, i, used)[k].1),
    decreases s.len() - i,
{
    if i < 0 || i >= s.len() {
    } else if s[i].role is PlayerLaser {
        match first_enemy_hit_from(s, s[i], used, 0) {
            Some(j) => {
                lemma_first_hit_props(s, s[i], used, 0);
                let tail = hit_pairs_from(s, i + 1, used.insert(j));
                lemma_hit_pairs_props(s, i + 1, used.insert(j));
                let m = hit_pairs_from(s, i, used);
                assert(m == seq![(i, j)] + tail);
                assert(m[0] == (i, j));
                assert(forall|k: int| 1 <= k < m.len() ==> #[trigger] m[k] == tail[k - 1]);
                assert forall|k: int| 0 <= k < m.len() implies hit_ok(s, #[trigger] m[k]) && m[k].0
                    >= i && !used.contains(m[k].1) by {
                    if k >= 1 {
                        assert(m[k] == tail[k - 1]);
                        assert(!used.insert(j).contains(tail[k - 1].1));
                    }
                }
                assert forall|k1: int, k2: int|
                    #![trigger m[k1], m[k2]]
                    0 <= k1 < k2 < m.len() implies m[k1].0 < m[k2].0 && m[k1].1 != m[k2].1 by {
                    if k1 >= 1 {
                        assert(m[k1] == tail[k1 - 1]);
                        assert(m[k2] == tail[k2 - 1]);
                    } else {
                        assert(m[k2] == tail[k2 - 1]);
                        assert(tail[k2 - 1].0 >= i + 1);
                        assert(!used.insert(j).contains(tail[k2 - 1].1));
                    }
                }
            },
            None => {
                lemma_hit_pairs_props(s, i + 1, used);
                assert(hit_pairs_from(s, i, used) == hit_pairs_from(s, i + 1, used));
            },
        }
    } else {
        lemma_hit_pairs_props(s, i + 1, used);
        assert(hit_pairs_from(s, i, used) == hit_pairs_from(s, i + 1, used));
    }
}

/// Whether some resolved pair claims index `i`.
pub open spec fn pair_member(m: Seq<(int, int)>, i: int) -> bool {
    exists|k: int| 0 <= k < m.len() && ((#[trigger] m[k]).0 == i || m[k].1 == i)
}

/// The entities that survive the pass: everything not claimed by a pair.
pub open spec fn keep_unmarked(s: Seq<Entity>, m: Seq<(int, int)>) -> Seq<Entity>
    decreases s.len(),
{
    if s.len() == 0 {
        Seq::empty()
    } else {
        keep_unmarked(s.drop_last(), m) + if pair_member(m, s.len() - 1) {
            Seq::<Entity>::empty()
        } else {
            seq![s.last()]
        }
    }
}

/// Number of enemies claimed by some pair.
pub open spec fn marked_enemy_count(s: Seq<Entity>, m: Seq<(int, int)>) -> nat
    decreases s.len(),
{
    if s.len() == 0 {
        0
    } else {
        marked_enemy_count(s.drop_last(), m) + if pair_member(m, s.len() - 1) && s.last().role
            is Enemy {
            1nat
        } else {
            0nat
        }
    }
}

proof fn lemma_keep_partition(s: Seq<Entity>, m: Seq<(int, int)>)
    requires
        forall|i: int| 0 <= i < s.len() ==> (#[trigger] s[i]).ok(),
    ensures
        count_enemies(s) == count_enemies(keep_unmarked(s, m)) + marked_enemy_count(s, m),
        forall|i: int|
            0 <= i < keep_unmarked(s, m).len() ==> (#[trigger] keep_unmarked(s, m)[i]).ok(),
    decreases s.len(),
{
    if s.len() > 0 {
        lemma_keep_partition(s.drop_last(), m);
        assert(s.last() == s[s.len() - 1]);
        if pair_member(m, s.len() - 1) {
            assert(keep_unmarked(s, m) =~= keep_unmarked(s.drop_last(), m));
        } else {
            assert(keep_unmarked(s, m) =~= keep_unmarked(s.drop_last(), m).push(s.last()));
            crate::world::lemma_count_enemies_push(keep_unmarked(s.drop_last(), m), s.last());
        }
    }
}

proof fn lemma_marked_count_empty(s: Seq<Entity>, m: Seq<(int, int)>)
    requires
        m.len() == 0,
    ensures
        marked_enemy_count(s, m) == 0,
    decreases s.len(),
{
    if s.len() > 0 {
        lemma_marked_count_empty(s.drop_last(), m);
    }
}

proof fn lemma_pair_member_push(m1: Seq<(int, int)>, p: (int, int), i: int)
    ensures
        pair_member(m1.push(p), i) == (pair_member(m1, i) || p.0 == i || p.1 == i),
{
    let m = m1.push(p);
    if pair_member(m1, i) {
        let k = choose|k: int| 0 <= k < m1.len() && ((#[trigger] m1[k]).0 == i || m1[k].1 == i);
        assert(m[k] == m1[k]);
        assert(pair_member(m, i));
    }
    if p.0 == i || p.1 == i {
        assert(m[m1.len() as int] == p);
        assert(pair_member(m, i));
    }
    if pair_member(m, i) {
        let k = choose|k: int| 0 <= k < m.len() && ((#[trigger] m[k]).0 == i || m[k].1 == i);
        if k < m1.len() {
            assert(m1[k] == m[k]);
            assert(pair_member(m1, i));
        } else {
            assert(m[k] == p);
        }
    }
}

proof fn lemma_marked_count_step(s: Seq<Entity>, m1: Seq<(int, int)>, p: (int, int))
    requires
        !pair_member(m1, p.0),
        !pair_member(m1, p.1),
        p.0 != p.1,
    ensures
        marked_enemy_count(s, m1.push(p)) == marked_enemy_count(s, m1) + (if 0 <= p.1 < s.len()
            && s[p.1].role is Enemy {
            1nat
        } else {
            0nat
        }) + (if 0 <= p.0 < s.len() && s[p.0].role is Enemy {
            1nat
        } else {
            0nat
        }),
    decreases s.len(),
{
    if s.len() > 0 {
        lemma_marked_count_step(s.drop_last(), m1, p);
        let idx = s.len() - 1;
        lemma_pair_member_push(m1, p, idx);
        assert(s.last() == s[idx]);
    }
}

proof fn lemma_marked_count(s: Seq<Entity>, m: Seq<(int, int)>)
    requires
        hits_wf(s, m),
    ensures
        marked_enemy_count(s, m) == m.len(),
    decreases m.len(),
{
    if m.len() == 0 {
        lemma_marked_count_empty(s, m);
    } else {
        let m1 = m.drop_last();
        let p = m.last();
        assert(p == m[m.len() - 1]);
        assert(hit_ok(s, p));
        assert forall|k: int| 0 <= k < m1.len() implies hit_ok(s, #[trigger] m1[k]) by {
            assert(m1[k] == m[k]);
        }
        assert forall|k1: int, k2: int|
            #![trigger m1[k1], m1[k2]]
            0 <= k1 < k2 < m1.len() implies m1[k1].0 < m1[k2].0 && m1[k1].1 != m1[k2].1 by {
            assert(m1[k1] == m[k1] && m1[k2] == m[k2]);
        }
        assert(!pair_member(m1, p.0)) by {
            if pair_member(m1, p.0) {
                let k = choose|k: int|
                    0 <= k < m1.len() && ((#[trigger] m1[k]).0 == p.0 || m1[k].1 == p.0);
                assert(m1[k] == m[k]);
                assert(m[k].0 < m[m.len() - 1].0);
                assert(hit_ok(s, m[k]));
            }
        }
        assert(!pair_member(m1, p.1)) by {
            if pair_member(m1, p.1) {
                let k = choose|k: int|
                    0 <= k < m1.len() && ((#[trigger] m1[k]).0 == p.1 || m1[k].1 == p.1);
                assert(m1[k] == m[k]);
                assert(m[k].1 != m[m.len() - 1].1);
                assert(hit_ok(s, m[k]));
            }
        }
        lemma_marked_count(s, m1);
        lemma_marked_count_step(s, m1, p);
        assert(m =~= m1.push(p));
    }
}

/// The explosion visual left where an enemy was destroyed.
pub open spec fn explosion_entity(pos: Position) -> Entity {
    Entity {
        pos,
        vel: Velocity { x: 0, y: 0 },
        size: SpriteSize { w: 0, h: 0 },
        movable: Movable { auto_despawn: false },
        role: Role::Explosion { ticks: 0, frame: 0 },
    }
}

/// The transient power-up request left where an enemy was destroyed.
pub open spec fn request_entity(pos: Position, t: PowerUpType) -> Entity {
    Entity {
        pos,
        vel: Velocity { x: 0, y: 0 },
        size: SpriteSize { w: 0, h: 0 },
        movable: Movable { auto_despawn: false },
        role: Role::SpawnPowerUp(t),
    }
}

/// The position a resolved pair's enemy died at.
pub open spec fn hit_pos(s: Seq<Entity>, p: (int, int)) -> Position {
    s[p.1].pos
}

/// The entities a pass appends, kill by kill and in pass order: for kill
/// `k`, a power-up request when its one-in-five draw `luck[k]` came up,
/// with kind `kinds[k]`, then the explosion visual, both at the dead
/// enemy's position.
pub open spec fn kill_spawns(
    s: Seq<Entity>,
    m: Seq<(int, int)>,
    luck: Seq<bool>,
    kinds: Seq<PowerUpType>,
) -> Seq<Entity>
    decreases m.len(),
{
    if m.len() == 0 {
        Seq::empty()
    } else {
        let k = m.len() - 1;
        kill_spawns(s, m.drop_last(), luck, kinds) + (if luck[k] {
            seq![request_entity(hit_pos(s, m[k]), kinds[k])]
        } else {
            Seq::<Entity>::empty()
        }) + seq![explosion_entity(hit_pos(s, m[k]))]
    }
}

proof fn lemma_kill_spawns_stable(
    s: Seq<Entity>,
    m: Seq<(int, int)>,
    luck: Seq<bool>,
    kinds: Seq<PowerUpType>,
    x: bool,
    y: PowerUpType,
)
    requires
        m.len() <= luck.len(),
        m.len() <= kinds.len(),
    ensures
        kill_spawns(s, m, luck.push(x), kinds.push(y)) == kill_spawns(s, m, luck, kinds),
    decreases m.len(),
{
    if m.len() > 0 {
        lemma_kill_spawns_stable(s, m.drop_last(), luck, kinds, x, y);
        assert(luck.push(x)[m.len() - 1] == luck[m.len() - 1]);
        assert(kinds.push(y)[m.len() - 1] == kinds[m.len() - 1]);
    }
}

proof fn lemma_kill_spawns_wf(
    s: Seq<Entity>,
    m: Seq<(int, int)>,
    luck: Seq<bool>,
    kinds: Seq<PowerUpType>,
)
    requires
        forall|i: int| 0 <= i < s.len() ==> (#[trigger] s[i]).ok(),
        forall|k: int| 0 <= k < m.len() ==> hit_ok(s, #[trigger] m[k]),
    ensures
        forall|i: int|
            0 <= i < kill_spawns(s, m, luck, kinds).len() ==> (#[trigger] kill_spawns(
                s,
                m,
                luck,
                kinds,
            )[i]).ok(),
        forall|i: int|
            0 <= i < kill_spawns(s, m, luck, kinds).len() ==> !((#[trigger] kill_spawns(
                s,
                m,
                luck,
                kinds,
            )[i]).role is Enemy),
    decreases m.len(),
{
    if m.len() > 0 {
        assert forall|k: int| 0 <= k < m.drop_last().len() implies hit_ok(
            s,
            #[trigger] m.drop_last()[k],
        ) by {
            assert(m.drop_last()[k] == m[k]);
        }
        lemma_kill_spawns_wf(s, m.drop_last(), luck, kinds);
        assert(hit_ok(s, m[m.len() - 1]));
    }
}

/// The pass result as unbounded index pairs.
pub open spec fn pairs_of(h: Seq<(usize, usize)>) -> Seq<(int, int)> {
    h.map_values(|p: (usize, usize)| (p.0 as int, p.1 as int))
}

/// Find the first free enemy the given laser overlaps.
fn find_enemy_for(
    entities: &Vec<Entity>,
    used: &Vec<bool>,
    li: usize,
    Ghost(useds): Ghost<Set<int>>,
) -> (r: Option<usize>)
    requires
        used@.len() == entities@.len(),
        li < entities@.len(),
        forall|j: int| 0 <= j < entities@.len() ==> used@[j] == useds.contains(j),
        forall|j: int| 0 <= j < entities@.len() ==> (#[trigger] entities@[j]).ok(),
    ensures
        match r {
            Some(e) => e < entities@.len() && first_enemy_hit_from(
                entities@,
                entities@[li as int],
                useds,
                0,
            ) == Some(e as int),
            None => first_enemy_hit_from(entities@, entities@[li as int], useds, 0) is None,
        },
{
    let n = entities.len();
    let mut j: usize = 0;
    while j < n
        invariant
            n == entities@.len(),
            li < n,
            used@.len() == n,
            forall|x: int| 0 <= x < n ==> used@[x] == useds.contains(x),
            forall|x: int| 0 <= x < n ==> (#[trigger] entities@[x]).ok(),
            0 <= j <= n,
            first_enemy_hit_from(entities@, entities@[li as int], useds, 0)
                == first_enemy_hit_from(entities@, entities@[li as int], useds, j as int),
        decreases n - j,
    {
        let is_enemy = match entities[j].role {
            Role::Enemy => true,
            _ => false,
        };
        if is_enemy && !used[j] {
            let laser = entities[li];
            if overlaps(&laser, &entities[j]) {
                return Some(j);
            }
        }
        j = j + 1;
    }
    None
}

/// One full matching pass over the current entities.
fn find_hits(entities: &Vec<Entity>) -> (hits: Vec<(usize, usize)>)
    requires
        forall|j: int| 0 <= j < entities@.len() ==> (#[trigger] entities@[j]).ok(),
    ensures
        pairs_of(hits@) == hit_pairs(entities@),
        forall|k: int|
            0 <= k < hits@.len() ==> (#[trigger] hits@[k]).0 < entities@.len() && hits@[k].1
                < entities@.len(),
{
    let n = entities.len();
    let mut used: Vec<bool> = vec![false; n];
    let mut hits: Vec<(usize, usize)> = Vec::new();
    let ghost s = entities@;
    let ghost mut useds: Set<int> = Set::empty();
    let mut i: usize = 0;
    proof {
        assert(pairs_of(hits@) =~= Seq::<(int, int)>::empty());
    }
    while i < n
        invariant
            n == entities@.len(),
            s == entities@,
            0 <= i <= n,
            used@.len() == n,
            forall|j: int| 0 <= j < n ==> used@[j] == useds.contains(j),
            forall|j: int| 0 <= j < n ==> (#[trigger] entities@[j]).ok(),
            pairs_of(hits@) + hit_pairs_from(s, i as int, useds) == hit_pairs(s),
            forall|k: int|
                0 <= k < hits@.len() ==> (#[trigger] hits@[k]).0 < n && hits@[k].1 < n,
        decreases n - i,
    {
        let is_laser = match entities[i].role {
            Role::PlayerLaser => true,
            _ => false,
        };
        if is_laser {
            match find_enemy_for(entities, &used, i, Ghost(useds)) {
                Some(e) => {
                    let ghost hits0 = hits@;
                    let ghost useds0 = useds;
                    hits.push((i, e));
                    used.set(e, true);
                    proof {
                        useds = useds.insert(e as int);
                        assert(hit_pairs_from(s, i as int, useds0) == seq![(i as int, e as int)]
                            + hit_pairs_from(s, i + 1, useds0.insert(e as int)));
                        assert(pairs_of(hits@) =~= pairs_of(hits0).push((i as int, e as int)));
                        assert(pairs_of(hits@) + hit_pairs_from(s, i + 1, useds) =~= pairs_of(
                            hits0,
                        ) + hit_pairs_from(s, i as int, useds0));
                    }
                },
                None => {
                    proof {
                        assert(hit_pairs_from(s, i as int, useds) == hit_pairs_from(
                            s,
                            i + 1,
                            useds,
                        ));
                    }
                },
            }
        } else {
            proof {
                assert(hit_pairs_from(s, i as int, useds) == hit_pairs_from(s, i + 1, useds));
            }
        }
        i = i + 1;
    }
    proof {
        assert(hit_pairs_from(s, n as int, useds) =~= Seq::<(int, int)>::empty());
        assert(pairs_of(hits@) =~= pairs_of(hits@) + hit_pairs_from(s, n as int, useds));
    }
    hits
}

/// The score after one resolution pass: 100 points per destroyed enemy.
pub open spec fn score_after_hits(w: World) -> int {
    w.score + 100 * hit_pairs(w.entities@).len()
}

/// The live-enemy count after one resolution pass.
pub open spec fn count_after_hits(w: World) -> int {
    w.enemy_count - hit_pairs(w.entities@).len()
}

/// The wave counter after one resolution pass: it advances exactly when
/// the pass destroys the last live enemy.
pub open spec fn wave_after_hits(w: World) -> int {
    let k = hit_pairs(w.entities@).len();
    if k > 0 && k == w.enemy_count {
        w.wave + 1
    } else {
        w.wave as int
    }
}

/// Resolve player lasers against enemies: each laser destroys the first
/// still-live enemy it overlaps, and both leave the field; no entity is
/// resolved twice in one pass. Each kill scores 100 points, lowers the
/// enemy count, leaves an explosion, and with probability one in five
/// leaves a power-up request of a uniformly drawn kind. Destroying the
/// last enemy advances the wave.
pub fn player_laser_hit_enemy_system(w: &mut World)
    requires
        old(w).wf(),
        old(w).state is InGame,
        old(w).score as int + 100 * (old(w).enemy_count as int) <= u32::MAX as int,
        old(w).wave < u32::MAX,
    ensures
        final(w).wf(),
        final(w).score as int == score_after_hits(*old(w)),
        final(w).enemy_count as int == count_after_hits(*old(w)),
        final(w).wave as int == wave_after_hits(*old(w)),
        exists|luck: Seq<bool>, kinds: Seq<PowerUpType>|
            luck.len() == hit_pairs(old(w).entities@).len() && kinds.len() == hit_pairs(
                old(w).entities@,
            ).len() && final(w).entities@ == keep_unmarked(
                old(w).entities@,
                hit_pairs(old(w).entities@),
            ) + kill_spawns(old(w).entities@, hit_pairs(old(w).entities@), luck, kinds),
        final(w).win == old(w).win && final(w).rotated == old(w).rotated && final(w).tick == old(
            w,
        ).tick && final(w).player == old(w).player && final(w).state == old(w).state,
{
    let ghost s = w.entities@;
    let ghost m = hit_pairs(s);
    proof {
        lemma_hit_pairs_props(s, 0, Set::empty());
        lemma_marked_count(s, m);
        lemma_keep_partition(s, m);
        assert(m.len() <= count_enemies(s));
    }
    let hits = find_hits(&w.entities);
    let n = w.entities.len();
    let hl = hits.len();
    proof {
        assert(hits@.len() == m.len());
        assert forall|k: int| 0 <= k < hl implies #[trigger] m[k] == (
            hits@[k].0 as int,
            hits@[k].1 as int,
        ) by {
            assert(m[k] == pairs_of(hits@)[k]);
        }
    }
    let mut marked: Vec<bool> = vec![false; n];
    let mut k: usize = 0;
    while k < hl
        invariant
            hl == hits@.len(),
            hl == m.len(),
            marked@.len() == n,
            forall|x: int| 0 <= x < hl ==> #[trigger] m[x] == (hits@[x].0 as int, hits@[x].1 as int),
            forall|x: int| 0 <= x < hl ==> (#[trigger] hits@[x]).0 < n && hits@[x].1 < n,
            0 <= k <= hl,
            forall|idx: int| 0 <= idx < n ==> marked@[idx] == pair_member(m.take(k as int), idx),
        decreases hl - k,
    {
        let pair = hits[k];
        let ghost before = marked@;
        marked.set(pair.0, true);
        marked.set(pair.1, true);
        proof {
            assert(m.take(k + 1) =~= m.take(k as int).push(m[k as int]));
            assert forall|idx: int| 0 <= idx < n implies marked@[idx] == pair_member(
                m.take(k + 1),
                idx,
            ) by {
                lemma_pair_member_push(m.take(k as int), m[k as int], idx);
            }
        }
        k = k + 1;
    }
    proof {
        assert(m.take(hl as int) =~= m);
    }
    let mut out: Vec<Entity> = Vec::new();
    let mut idx: usize = 0;
    while idx < n
        invariant
            n == w.entities@.len(),
            w == old(w),
            s == w.entities@,
            marked@.len() == n,
            forall|x: int| 0 <= x < n ==> marked@[x] == pair_member(m, x),
            0 <= idx <= n,
            out@ == keep_unmarked(s.take(idx as int), m),
        decreases n - idx,
    {
        proof {
            assert(s.take(idx + 1).drop_last() =~= s.take(idx as int));
            assert(s.take(idx + 1).last() == s[idx as int]);
            assert(s.take(idx + 1).len() - 1 == idx as int);
        }
        if !marked[idx] {
            let e = w.entities[idx];
            out.push(e);
        }
        idx = idx + 1;
    }
    proof {
        assert(s.take(n as int) =~= s);
    }
    let ghost mut luck: Seq<bool> = Seq::empty();
    let ghost mut kinds: Seq<PowerUpType> = Seq::empty();
    proof {
        assert(kill_spawns(s, m.take(0), luck, kinds) =~= Seq::<Entity>::empty());
        assert(out@ =~= keep_unmarked(s, m) + kill_spawns(s, m.take(0), luck, kinds));
    }
    let mut k2: usize = 0;
    while k2 < hl
        invariant
            old(w).wf(),
            old(w).state is InGame,
            old(w).score as int + 100 * (old(w).enemy_count as int) <= u32::MAX as int,
            old(w).wave < u32::MAX,
            s == old(w).entities@,
            m == hit_pairs(s),
            hits_wf(s, m),
            m.len() <= old(w).enemy_count as int,
            hl == hits@.len(),
            hl == m.len(),
            forall|x: int| 0 <= x < hl ==> #[trigger] m[x] == (hits@[x].0 as int, hits@[x].1 as int),
            forall|x: int| 0 <= x < hl ==> (#[trigger] hits@[x]).0 < n && hits@[x].1 < n,
            n == w.entities@.len(),
            w.entities@ == s,
            w.win == old(w).win && w.rotated == old(w).rotated && w.tick == old(w).tick
                && w.player == old(w).player && w.state == old(w).state,
            0 <= k2 <= hl,
            w.score as int == old(w).score as int + 100 * (k2 as int),
            w.enemy_count as int == old(w).enemy_count as int - k2 as int,
            w.wave as int == if k2 as int >= old(w).enemy_count as int && k2 > 0 {
                old(w).wave as int + 1
            } else {
                old(w).wave as int
            },
            luck.len() == k2 as int,
            kinds.len() == k2 as int,
            out@ == keep_unmarked(s, m) + kill_spawns(s, m.take(k2 as int), luck, kinds),
        decreases hl - k2,
    {
        let pair = hits[k2];
        w.score = w.score + 100;
        w.enemy_count = w.enemy_count - 1;
        if w.enemy_count == 0 {
            w.wave = w.wave + 1;
        }
        let pos = w.entities[pair.1].pos;
        proof {
            assert(hit_ok(s, m[k2 as int]));
            assert(pos == hit_pos(s, m[k2 as int]));
        }
        let ghost luck0 = luck;
        let ghost kinds0 = kinds;
        let roll = rand_in_range(0, 5);
        if roll == 0 {
            let t = power_up_from_index(rand_in_range(0, 4));
            let req = Entity {
                pos,
                vel: Velocity { x: 0, y: 0 },
                size: SpriteSize { w: 0, h: 0 },
                movable: Movable { auto_despawn: false },
                role: Role::SpawnPowerUp(t),
            };
            out.push(req);
            proof {
                luck = luck.push(true);
                kinds = kinds.push(t);
            }
        } else {
            proof {
                luck = luck.push(false);
                kinds = kinds.push(PowerUpType::Hp);
            }
        }
        let boom = Entity {
            pos,
            vel: Velocity { x: 0, y: 0 },
            size: SpriteSize { w: 0, h: 0 },
            movable: Movable { auto_despawn: false },
            role: Role::Explosion { ticks: 0, frame: 0 },
        };
        out.push(boom);
        proof {
            lemma_kill_spawns_stable(s, m.take(k2 as int), luck0, kinds0, luck[k2 as int], kinds[
                k2 as int
            ]);
            assert(m.take(k2 + 1).drop_last() =~= m.take(k2 as int));
            assert(m.take(k2 + 1)[k2 as int] == m[k2 as int]);
            assert(out@ =~= keep_unmarked(s, m) + kill_spawns(s, m.take(k2 + 1), luck, kinds));
        }
        k2 = k2 + 1;
    }
    proof {
        assert(m.take(hl as int) =~= m);
        lemma_kill_spawns_wf(s, m, luck, kinds);
        crate::world::lemma_count_enemies_append_non_enemies(
            keep_unmarked(s, m),
            kill_spawns(s, m, luck, kinds),
        );
    }
    w.entities = out;
}

/// Destroying all N enemies of wave N in one pass advances the wave
/// counter to N + 1 and empties the field; the next spawn burst at an
/// empty field then creates exactly `Wave` — that is N + 1 — enemies.
pub proof fn lemma_wave_progression(w: World)
    requires
        w.wf(),
        w.state is InGame,
        hit_pairs(w.entities@).len() == w.enemy_count as int,
        w.enemy_count > 0,
        w.enemy_count == w.wave,
        w.wave < u32::MAX,
    ensures
        wave_after_hits(w) == w.wave + 1,
        count_after_hits(w) == 0,
        crate::enemy::spawn_burst_count(
            World { wave: (w.wave + 1) as u32, enemy_count: 0u32, ..w },
        ) == w.wave + 1,
{
}

/// The first enemy projectile at index `j` or later that overlaps the
/// player at index `p`.
pub open spec fn first_enemy_laser_hit(s: Seq<Entity>, p: int, j: int) -> Option<int>
    decreases s.len() - j,
{
    if j < 0 || j >= s.len() {
        None
    } else if s[j].role is EnemyLaser && overlaps_spec(s[j], s[p]) {
        Some(j)
    } else {
        first_enemy_laser_hit(s, p, j + 1)
    }
}

/// The enemy projectile this tick's player-hit scan resolves, if any.
pub open spec fn player_hit_found(w: World) -> Option<int> {
    match player_index(w.entities@) {
        Some(p) => first_enemy_laser_hit(w.entities@, p, 0),
        None => None,
    }
}

/// What one resolved player hit does to the world: the projectile leaves
/// the field and one life is lost; losing the last life routes the game
/// to the main menu, which clears the session's entities.
pub open spec fn player_hit_outcome(pre: World, post: World) -> bool {
    let culled = pre.entities@.remove(player_hit_found(pre).unwrap());
    &&& post.player.lives == pre.player.lives - 1
    &&& post.player.weapon_type == pre.player.weapon_type
    &&& post.player.weapon_lvl == pre.player.weapon_lvl
    &&& post.state == if pre.player.lives == 1 {
        GameState::MainMenu
    } else {
        pre.state
    }
    &&& post.entities@ == if pre.player.lives == 1 {
        session_survivors(culled)
    } else {
        culled
    }
    &&& post.score == pre.score
    &&& post.wave == pre.wave
    &&& post.enemy_count == pre.enemy_count
    &&& post.win == pre.win
    &&& post.tick == pre.tick
    &&& post.rotated == pre.rotated
}

/// Resolve enemy projectiles against the player: the first overlapping
/// projectile is removed and costs one life — at most one life is lost
/// per tick, however many projectiles overlap. Reaching zero lives is the
/// unique trigger of the return to the main menu.
pub fn enemy_laser_hit_player_system(w: &mut World)
    requires
        old(w).wf(),
        old(w).state is InGame,
        old(w).player.lives >= 1,
    ensures
        final(w).wf(),
        match player_hit_found(*old(w)) {
            Some(_) => player_hit_outcome(*old(w), *final(w)),
            None => *final(w) == *old(w),
        },
{
    let p = match find_player(&w.entities) {
        Some(p) => p,
        None => {
            return ;
        },
    };
    let ghost s = w.entities@;
    let n = w.entities.len();
    let mut j: usize = 0;
    while j < n
        invariant
            n == w.entities@.len(),
            w == old(w),
            old(w).wf(),
            old(w).state is InGame,
            old(w).player.lives >= 1,
            s == w.entities@,
            p < n,
            player_index(s) == Some(p as int),
            0 <= j <= n,
            first_enemy_laser_hit(s, p as int, 0) == first_enemy_laser_hit(s, p as int, j as int),
        decreases n - j,
    {
        let is_bolt = match w.entities[j].role {
            Role::EnemyLaser => true,
            _ => false,
        };
        if is_bolt {
            let bolt = w.entities[j];
            let ship = w.entities[p];
            if overlaps(&bolt, &ship) {
                w.entities.remove(j);
                proof {
                    crate::world::lemma_count_enemies_remove(s, j as int);
                    assert forall|x: int| 0 <= x < w.entities@.len() implies (#[trigger] w.entities@[x]).ok() by {
                        assert(w.entities@[x] == if x < j as int {
                            s[x]
                        } else {
                            s[x + 1]
                        });
                    }
                }
                w.player.lives = w.player.lives - 1;
                if w.player.lives == 0 {
                    w.state = GameState::MainMenu;
                    despawn_system(w);
                }
                return ;
            }
        }
        j = j + 1;
    }
}

/// Three sequential player hits from the starting three lives end the
/// session: lives fall 3, 2, 1, 0 in turn, play continues between the
/// first two hits, and the third hit routes the game to the main menu.
/// Lives is an unsigned count and a hit is only resolved against a live
/// session, so it is never observed negative.
pub proof fn lemma_lives_bound(w0: World, w1: World, w2: World, w3: World)
    requires
        w0.player.lives == 3,
        w0.state is InGame,
        player_hit_outcome(w0, w1),
        player_hit_outcome(w1, w2),
        player_hit_outcome(w2, w3),
    ensures
        w1.player.lives == 2,
        w2.player.lives == 1,
        w3.player.lives == 0,
        w1.state is InGame,
        w2.state is InGame,
        w3.state is MainMenu,
{
}

/// The first power-up at index `j` or later that overlaps the player at
/// index `p`.
pub open spec fn first_power_up_hit(s: Seq<Entity>, p: int, j: int) -> Option<int>
    decreases s.len() - j,
{
    if j < 0 || j >= s.len() {
        None
    } else if s[j].role is PowerUp && overlaps_spec(s[j], s[p]) {
        Some(j)
    } else {
        first_power_up_hit(s, p, j + 1)
    }
}

/// The power-up this tick's pickup scan resolves, if any.
pub open spec fn power_up_found(w: World) -> Option<int> {
    match player_index(w.entities@) {
        Some(p) => first_power_up_hit(w.entities@, p, 0),
        None => None,
    }
}

/// The kind a power-up entity carries.
pub open spec fn power_up_kind(e: Entity) -> PowerUpType {
    match e.role {
        Role::PowerUp(t) => t,
        Role::SpawnPowerUp(t) => t,
        _ => PowerUpType::Hp,
    }
}

/// What picking up a power-up grants.
pub open spec fn apply_power_up(ps: PlayerState, t: PowerUpType) -> PlayerState {
    match t {
        PowerUpType::Hp => PlayerState { lives: (ps.lives + 1) as u32, ..ps },
        PowerUpType::WeaponLvl => PlayerState { weapon_lvl: (ps.weapon_lvl + 1) as u32, ..ps },
        PowerUpType::ChangeToLaser => PlayerState { weapon_type: WeaponType::Lasergun, ..ps },
        PowerUpType::ChangeToShotgun => PlayerState { weapon_type: WeaponType::Shotgun, ..ps },
    }
}

/// Resolve power-ups against the player: the first overlapping power-up
/// is collected — it leaves the field and its effect is applied; at most
/// one pickup per tick.
pub fn collect_power_up_system(w: &mut World)
    requires
        old(w).wf(),
        old(w).state is InGame,
        old(w).player.lives < u32::MAX,
        old(w).player.weapon_lvl < u32::MAX,
    ensures
        final(w).wf(),
        match power_up_found(*old(w)) {
            Some(pi) => {
                &&& final(w).entities@ == old(w).entities@.remove(pi)
                &&& final(w).player == apply_power_up(
                    old(w).player,
                    power_up_kind(old(w).entities@[pi]),
                )
            },
            None => *final(w) == *old(w),
        },
        final(w).win == old(w).win && final(w).wave == old(w).wave && final(w).enemy_count == old(
            w,
        ).enemy_count && final(w).score == old(w).score && final(w).rotated == old(w).rotated
            && final(w).tick == old(w).tick && final(w).state == old(w).state,
{
    let p = match find_player(&w.entities) {
        Some(p) => p,
        None => {
            return ;
        },
    };
    let ghost s = w.entities@;
    let n = w.entities.len();
    let mut j: usize = 0;
    while j < n
        invariant
            n == w.entities@.len(),
            w == old(w),
            old(w).wf(),
            old(w).player.lives < u32::MAX,
            old(w).player.weapon_lvl < u32::MAX,
            s == w.entities@,
            p < n,
            player_index(s) == Some(p as int),
            0 <= j <= n,
            first_power_up_hit(s, p as int, 0) == first_power_up_hit(s, p as int, j as int),
        decreases n - j,
    {
        let found = match w.entities[j].role {
            Role::PowerUp(t) => Some(t),
            _ => None,
        };
        match found {
            Some(t) => {
                let item = w.entities[j];
                let ship = w.entities[p];
                if overlaps(&item, &ship) {
                    w.entities.remove(j);
                    proof {
                        crate::world::lemma_count_enemies_remove(s, j as int);
                        assert forall|x: int| 0 <= x < w.entities@.len() implies (
                        #[trigger] w.entities@[x]).ok() by {
                            assert(w.entities@[x] == if x < j as int {
                                s[x]
                            } else {
                                s[x + 1]
                            });
                        }
                    }
                    match t {
                        PowerUpType::Hp => {
                            w.player.lives = w.player.lives + 1;
                        },
                        PowerUpType::WeaponLvl => {
                            w.player.weapon_lvl = w.player.weapon_lvl + 1;
                        },
                        PowerUpType::ChangeToLaser => {
                            w.player.weapon_type = WeaponType::Lasergun;
                        },
                        PowerUpType::ChangeToShotgun => {
                            w.player.weapon_type = WeaponType::Shotgun;
                        },
                    }
                    return ;
                }
            },
            None => {},
        }
        j = j + 1;
    }
}

} // verus!
