use space_shooter::components::{Entity, Movable, Position, Role, SpriteSize, Velocity};
use space_shooter::player::PlayerState;
use space_shooter::powerups::{get_random_power_up, power_up_spawn_system, PowerUpType};
use space_shooter::rng::rand_in_range;
use space_shooter::state::GameState;
use space_shooter::weapons::{
    fire_criteria, lasergun_fire_system, shotgun_angles, shotgun_fire_system, WeaponType,
    X_OFFSET_STEP, Y_OFFSET, Y_OFFSET_STEP,
};
use space_shooter::world::{WindowSize, World};

fn player_at(x: i64, y: i64) -> Entity {
    Entity {
        pos: Position { x, y },
        vel: Velocity { x: 0, y: 0 },
        size: SpriteSize { w: 216_000, h: 112_500 },
        movable: Movable { auto_despawn: false },
        role: Role::Player,
    }
}

fn world_with(entities: Vec<Entity>, lvl: u32, weapon: WeaponType) -> World {
    World {
        entities,
        win: WindowSize { w: 3_840_000, h: 2_160_000 },
        wave: 1,
        enemy_count: 0,
        score: 0,
        rotated: false,
        tick: 0,
        player: PlayerState { lives: 3, weapon_type: weapon, weapon_lvl: lvl },
        state: GameState::InGame,
    }
}

#[test]
fn fire_criteria_needs_edge_and_matching_weapon() {
    let ps = PlayerState { lives: 3, weapon_type: WeaponType::Lasergun, weapon_lvl: 1 };
    assert!(fire_criteria(WeaponType::Lasergun, true, &ps));
    assert!(!fire_criteria(WeaponType::Lasergun, false, &ps));
    assert!(!fire_criteria(WeaponType::Shotgun, true, &ps));
}

#[test]
fn lasergun_level_one_fires_single_centered_bolt() {
    let mut w = world_with(vec![player_at(5_000, -900_000)], 1, WeaponType::Lasergun);
    lasergun_fire_system(&mut w);
    assert_eq!(w.entities.len(), 2);
    let bolt = &w.entities[1];
    assert!(matches!(bolt.role, Role::PlayerLaser));
    assert_eq!(bolt.pos.x, 5_000);
    assert_eq!(bolt.pos.y, -900_000 + Y_OFFSET);
    assert_eq!((bolt.vel.x, bolt.vel.y), (0, 1000));
}

#[test]
fn lasergun_beam_count_equals_level() {
    for lvl in 1u32..=6 {
        let mut w = world_with(vec![player_at(0, -900_000)], lvl, WeaponType::Lasergun);
        lasergun_fire_system(&mut w);
        let bolts = w.entities.iter().filter(|e| matches!(e.role, Role::PlayerLaser)).count();
        assert_eq!(bolts as u32, lvl);
    }
}

#[test]
fn lasergun_level_four_fires_two_symmetric_pairs() {
    let mut w = world_with(vec![player_at(0, 0)], 4, WeaponType::Lasergun);
    lasergun_fire_system(&mut w);
    let bolts: Vec<(i64, i64)> = w.entities[1..].iter().map(|e| (e.pos.x, e.pos.y)).collect();
    assert_eq!(
        bolts,
        vec![
            (X_OFFSET_STEP, Y_OFFSET - Y_OFFSET_STEP),
            (-X_OFFSET_STEP, Y_OFFSET - Y_OFFSET_STEP),
            (2 * X_OFFSET_STEP, Y_OFFSET - 2 * Y_OFFSET_STEP),
            (-2 * X_OFFSET_STEP, Y_OFFSET - 2 * Y_OFFSET_STEP),
        ]
    );
}

#[test]
fn no_player_means_no_fire() {
    let mut w = world_with(vec![], 3, WeaponType::Lasergun);
    lasergun_fire_system(&mut w);
    assert_eq!(w.entities.len(), 0);
}

#[test]
fn shotgun_angle_count_equals_level() {
    for lvl in 1u32..=7 {
        let a = shotgun_angles(lvl);
        assert_eq!(a.len() as u32, lvl);
    }
}

#[test]
fn shotgun_angles_are_evenly_spaced_and_symmetric() {
    // level 2: fractions -1/6 and 1/6 of the dispersion
    assert_eq!(shotgun_angles(2), vec![(-1, 6), (1, 6)]);
    // level 3: -2/8, 0, 2/8 — the middle pellet flies straight up
    assert_eq!(shotgun_angles(3), vec![(-2, 8), (0, 8), (2, 8)]);
    // signed numerators cancel for any level
    for lvl in 1u32..=9 {
        let a = shotgun_angles(lvl);
        assert_eq!(a.iter().map(|p| p.0).sum::<i64>(), 0);
        for k in 1..a.len() {
            assert_eq!(a[k].0 - a[k - 1].0, 2);
            assert_eq!(a[k].1, a[k - 1].1);
        }
    }
}

#[test]
fn shotgun_fires_one_pellet_per_direction() {
    let mut w = world_with(vec![player_at(0, -900_000)], 2, WeaponType::Shotgun);
    let dirs = vec![Velocity { x: -500, y: 866 }, Velocity { x: 500, y: 866 }];
    shotgun_fire_system(&mut w, &dirs);
    assert_eq!(w.entities.len(), 3);
    for (k, e) in w.entities[1..].iter().enumerate() {
        assert!(matches!(e.role, Role::PlayerLaser));
        assert_eq!(e.pos.x, 0);
        assert_eq!(e.pos.y, -900_000 + 45_000);
        assert_eq!(e.vel, dirs[k]);
        assert!(e.movable.auto_despawn);
    }
}

#[test]
fn power_up_request_materializes_with_drift() {
    let req = Entity {
        pos: Position { x: 7, y: 8 },
        vel: Velocity { x: 0, y: 0 },
        size: SpriteSize { w: 0, h: 0 },
        movable: Movable { auto_despawn: false },
        role: Role::SpawnPowerUp(PowerUpType::WeaponLvl),
    };
    let mut w = world_with(vec![player_at(0, 0), req], 1, WeaponType::Lasergun);
    power_up_spawn_system(&mut w);
    assert_eq!(w.entities.len(), 2);
    assert!(matches!(w.entities[0].role, Role::Player));
    let item = &w.entities[1];
    assert!(matches!(item.role, Role::PowerUp(PowerUpType::WeaponLvl)));
    assert_eq!((item.pos.x, item.pos.y), (7, 8));
    assert_eq!((item.vel.x, item.vel.y), (0, -300));
    assert!(item.movable.auto_despawn);
}

#[test]
fn random_draw_stays_in_its_range() {
    for _ in 0..64 {
        let n = rand_in_range(-3, 4);
        assert!((-3..4).contains(&n));
    }
    assert_eq!(rand_in_range(41, 42), 41);
    // a degenerate one-value range pins the draw completely
    let _ = get_random_power_up();
}
