use space_shooter::components::{Entity, Movable, Position, Role, SpriteSize, Velocity};
use space_shooter::movement::{movement_system, DESPAWN_MARGIN};
use space_shooter::background::{background_scrolling_system, background_spawn_system};
use space_shooter::explosion::explosion_animation_system;
use space_shooter::player::{player_keyboard_event_system, player_spawn_system, PlayerState};
use space_shooter::state::GameState;
use space_shooter::weapons::WeaponType;
use space_shooter::world::{WindowSize, World};

fn ent(x: i64, y: i64, vx: i64, vy: i64, auto: bool, role: Role) -> Entity {
    Entity {
        pos: Position { x, y },
        vel: Velocity { x: vx, y: vy },
        size: SpriteSize { w: 30_000, h: 30_000 },
        movable: Movable { auto_despawn: auto },
        role,
    }
}

fn world_with(entities: Vec<Entity>) -> World {
    World {
        entities,
        win: WindowSize { w: 3_840_000, h: 2_160_000 },
        wave: 1,
        enemy_count: 0,
        score: 0,
        rotated: false,
        tick: 0,
        player: PlayerState::new(),
        state: GameState::InGame,
    }
}

#[test]
fn one_tick_moves_by_velocity_times_step() {
    let mut w = world_with(vec![ent(0, 0, 1000, -300, false, Role::Player)]);
    movement_system(&mut w);
    assert_eq!(w.entities[0].pos.x, 25_000);
    assert_eq!(w.entities[0].pos.y, -7_500);
}

#[test]
fn displacement_is_linear_in_tick_count() {
    let mut w = world_with(vec![ent(1_000, 2_000, 70, -130, false, Role::Player)]);
    for _ in 0..8 {
        movement_system(&mut w);
    }
    assert_eq!(w.entities[0].pos.x, 1_000 + 70 * 25 * 8);
    assert_eq!(w.entities[0].pos.y, 2_000 - 130 * 25 * 8);
}

#[test]
fn entity_exactly_at_margin_is_retained() {
    // ends the tick exactly at h/2 + margin: kept
    let limit = 2_160_000 / 2 + DESPAWN_MARGIN;
    let mut w = world_with(vec![ent(0, limit - 25_000, 0, 1000, true, Role::PlayerLaser)]);
    movement_system(&mut w);
    assert_eq!(w.entities.len(), 1);
    assert_eq!(w.entities[0].pos.y, limit);
}

#[test]
fn entity_one_unit_beyond_margin_is_removed() {
    let limit = 2_160_000 / 2 + DESPAWN_MARGIN;
    let mut w = world_with(vec![ent(0, limit - 25_000 + 1, 0, 1000, true, Role::PlayerLaser)]);
    movement_system(&mut w);
    assert_eq!(w.entities.len(), 0);
}

#[test]
fn persistent_entity_is_never_despawned_by_bounds() {
    let mut w = world_with(vec![ent(0, 100_000_000, 0, 1000, false, Role::Player)]);
    movement_system(&mut w);
    assert_eq!(w.entities.len(), 1);
}

#[test]
fn background_marker_spawns_below_window() {
    let mut w = world_with(vec![]);
    background_spawn_system(&mut w);
    assert_eq!(w.entities.len(), 1);
    assert!(matches!(w.entities[0].role, Role::BackgroundTop));
    assert_eq!(w.entities[0].pos.y, -(2_160_000 + 768_000) / 2);
    assert_eq!(w.entities[0].vel.y, -70);
}

#[test]
fn background_row_spawns_and_marker_advances() {
    // marker below the threshold: a full row appears, marker moves up a tile
    let mut w = world_with(vec![ent(0, 0, 0, -70, false, Role::BackgroundTop)]);
    background_scrolling_system(&mut w);
    // window half width 1_920_000: offsets 768_000 and 1_536_000 fit -> 1 + 2*2 tiles
    assert_eq!(w.entities.len(), 1 + 5);
    assert_eq!(w.entities[0].pos.y, 768_000);
    let tiles: Vec<&Entity> =
        w.entities.iter().filter(|e| matches!(e.role, Role::Background)).collect();
    assert_eq!(tiles.len(), 5);
    let xs: Vec<i64> = tiles.iter().map(|e| e.pos.x).collect();
    assert_eq!(xs, vec![0, 768_000, -768_000, 1_536_000, -1_536_000]);
    for t in tiles {
        assert_eq!(t.pos.y, 0);
        assert!(t.movable.auto_despawn);
    }
}

#[test]
fn background_row_not_spawned_above_threshold() {
    let mut w = world_with(vec![ent(0, 2_000_000, 0, -70, false, Role::BackgroundTop)]);
    background_scrolling_system(&mut w);
    assert_eq!(w.entities.len(), 1);
    assert_eq!(w.entities[0].pos.y, 2_000_000);
}

#[test]
fn explosion_frame_advances_every_third_tick() {
    let mut w = world_with(vec![ent(0, 0, 0, 0, false, Role::Explosion { ticks: 0, frame: 0 })]);
    explosion_animation_system(&mut w);
    explosion_animation_system(&mut w);
    assert!(matches!(w.entities[0].role, Role::Explosion { ticks: 2, frame: 0 }));
    explosion_animation_system(&mut w);
    assert!(matches!(w.entities[0].role, Role::Explosion { ticks: 0, frame: 1 }));
}

#[test]
fn explosion_despawns_after_last_frame() {
    let mut w = world_with(vec![ent(0, 0, 0, 0, false, Role::Explosion { ticks: 2, frame: 15 })]);
    explosion_animation_system(&mut w);
    assert_eq!(w.entities.len(), 0);
}

#[test]
fn keyboard_sets_player_horizontal_velocity() {
    let mut w = world_with(vec![]);
    player_spawn_system(&mut w);
    assert_eq!(w.entities.len(), 1);
    assert!(matches!(w.entities[0].role, Role::Player));
    assert_eq!(w.entities[0].pos.y, -2_160_000 / 2 + 112_500 / 2);
    player_keyboard_event_system(&mut w, false, true);
    assert_eq!(w.entities[0].vel.x, 1000);
    player_keyboard_event_system(&mut w, true, true);
    assert_eq!(w.entities[0].vel.x, -1000);
    player_keyboard_event_system(&mut w, false, false);
    assert_eq!(w.entities[0].vel.x, 0);
}

#[test]
fn weapon_default_is_lasergun() {
    let w = world_with(vec![]);
    assert_eq!(w.player.weapon_type, WeaponType::Lasergun);
    assert_eq!(w.player.weapon_lvl, 1);
    assert_eq!(w.player.lives, 3);
}
