use space_shooter::collision::{
    collect_power_up_system, enemy_laser_hit_player_system, overlaps,
    player_laser_hit_enemy_system,
};
use space_shooter::components::{Entity, Movable, Position, Role, SpriteSize, Velocity};
use space_shooter::enemy::{
    enemy_fire_system, enemy_movement_system, enemy_spawn_system, PATROL_VEL, SPAWN_MARGIN,
    SPAWN_MARGIN_BOTTOM,
};
use space_shooter::player::PlayerState;
use space_shooter::schedule::{run_tick, TickInput};
use space_shooter::powerups::PowerUpType;
use space_shooter::state::GameState;
use space_shooter::weapons::WeaponType;
use space_shooter::world::{WindowSize, World};

const W: i64 = 3_840_000;
const H: i64 = 2_160_000;

fn ent(x: i64, y: i64, role: Role) -> Entity {
    Entity {
        pos: Position { x, y },
        vel: Velocity { x: 0, y: 0 },
        size: SpriteSize { w: 100_000, h: 100_000 },
        movable: Movable {
            auto_despawn: matches!(
                role,
                Role::PlayerLaser | Role::EnemyLaser | Role::PowerUp(_) | Role::Background
            ),
        },
        role,
    }
}

fn world_with(entities: Vec<Entity>, wave: u32, enemy_count: u32) -> World {
    World {
        entities,
        win: WindowSize { w: W, h: H },
        wave,
        enemy_count,
        score: 0,
        rotated: false,
        tick: 0,
        player: PlayerState::new(),
        state: GameState::InGame,
    }
}

#[test]
fn one_tick_runs_the_whole_pipeline() {
    let mut w = world_with(vec![ent(0, -900_000, Role::Player)], 1, 0);
    let dirs = vec![Velocity { x: 0, y: 1000 }];
    let input = TickInput { left: false, right: true, fire_just_pressed: true };
    run_tick(&mut w, input, &dirs);
    assert_eq!(w.tick, 1);
    // the empty field was refilled with exactly one wave of enemies
    assert_eq!(w.enemy_count, 1);
    assert_eq!(
        w.entities.iter().filter(|e| matches!(e.role, Role::Enemy)).count(),
        1
    );
    // the fire edge launched the level-one laser volley
    assert_eq!(
        w.entities.iter().filter(|e| matches!(e.role, Role::PlayerLaser)).count(),
        1
    );
    // the keys set the player's velocity, and movement displaced it
    let ship = w.entities.iter().find(|e| matches!(e.role, Role::Player)).unwrap();
    assert_eq!(ship.vel.x, 1000);
    assert_eq!(ship.pos.x, 25_000);
}

#[test]
fn overlap_test_is_symmetric() {
    let a = ent(0, 0, Role::Enemy);
    let b = ent(70_000, -30_000, Role::PlayerLaser);
    let c = ent(500_000, 0, Role::PlayerLaser);
    assert_eq!(overlaps(&a, &b), overlaps(&b, &a));
    assert!(overlaps(&a, &b));
    assert_eq!(overlaps(&a, &c), overlaps(&c, &a));
    assert!(!overlaps(&a, &c));
}

#[test]
fn touching_edges_do_not_overlap() {
    // centers 100_000 apart, extents sum to 200_000: projections touch only
    let a = ent(0, 0, Role::Enemy);
    let b = ent(100_000, 0, Role::PlayerLaser);
    assert!(!overlaps(&a, &b));
    let c = ent(99_999, 0, Role::PlayerLaser);
    assert!(overlaps(&a, &c));
}

#[test]
fn laser_kill_scores_and_advances_wave() {
    // EnemyCount = 1, Wave = 3, one player laser on the sole enemy
    let mut w = world_with(
        vec![ent(0, 0, Role::Enemy), ent(10_000, 0, Role::PlayerLaser)],
        3,
        1,
    );
    player_laser_hit_enemy_system(&mut w);
    assert_eq!(w.enemy_count, 0);
    assert_eq!(w.wave, 4);
    assert_eq!(w.score, 100);
    assert!(!w.entities.iter().any(|e| matches!(e.role, Role::Enemy)));
    assert!(!w.entities.iter().any(|e| matches!(e.role, Role::PlayerLaser)));
    // an explosion stands where the enemy died
    let booms: Vec<&Entity> =
        w.entities.iter().filter(|e| matches!(e.role, Role::Explosion { .. })).collect();
    assert_eq!(booms.len(), 1);
    assert_eq!(booms[0].pos.x, 0);
    assert_eq!(booms[0].pos.y, 0);
    // any power-up request sits at the dead enemy's position
    for e in w.entities.iter() {
        if matches!(e.role, Role::SpawnPowerUp(_)) {
            assert_eq!((e.pos.x, e.pos.y), (0, 0));
        }
    }
}

#[test]
fn power_up_requests_appear_sometimes_but_not_always() {
    // the one-in-five drop draw must come up both ways over many kills
    let mut with_request = 0usize;
    let mut without_request = 0usize;
    for _ in 0..200 {
        let mut w = world_with(
            vec![ent(0, 0, Role::Enemy), ent(10_000, 0, Role::PlayerLaser)],
            1,
            1,
        );
        player_laser_hit_enemy_system(&mut w);
        if w.entities.iter().any(|e| matches!(e.role, Role::SpawnPowerUp(_))) {
            with_request += 1;
        } else {
            without_request += 1;
        }
    }
    assert!(with_request > 0);
    assert!(without_request > 0);
}

#[test]
fn each_laser_resolves_at_most_one_enemy() {
    // one laser overlapping two enemies: only the first enemy dies
    let mut w = world_with(
        vec![
            ent(0, 0, Role::Enemy),
            ent(20_000, 0, Role::Enemy),
            ent(10_000, 0, Role::PlayerLaser),
        ],
        1,
        2,
    );
    player_laser_hit_enemy_system(&mut w);
    assert_eq!(w.enemy_count, 1);
    assert_eq!(w.score, 100);
    let enemies: Vec<&Entity> =
        w.entities.iter().filter(|e| matches!(e.role, Role::Enemy)).collect();
    assert_eq!(enemies.len(), 1);
    assert_eq!(enemies[0].pos.x, 20_000);
}

#[test]
fn two_lasers_two_enemies_all_resolve() {
    let mut w = world_with(
        vec![
            ent(0, 0, Role::Enemy),
            ent(600_000, 0, Role::Enemy),
            ent(0, 20_000, Role::PlayerLaser),
            ent(600_000, 20_000, Role::PlayerLaser),
        ],
        2,
        2,
    );
    player_laser_hit_enemy_system(&mut w);
    assert_eq!(w.enemy_count, 0);
    assert_eq!(w.score, 200);
    assert_eq!(w.wave, 3);
}

#[test]
fn enemy_laser_costs_one_life() {
    let mut w = world_with(
        vec![ent(0, -900_000, Role::Player), ent(10_000, -900_000, Role::EnemyLaser)],
        1,
        0,
    );
    enemy_laser_hit_player_system(&mut w);
    assert_eq!(w.player.lives, 2);
    assert_eq!(w.state, GameState::InGame);
    assert!(!w.entities.iter().any(|e| matches!(e.role, Role::EnemyLaser)));
    assert!(w.entities.iter().any(|e| matches!(e.role, Role::Player)));
}

#[test]
fn at_most_one_life_lost_per_tick() {
    let mut w = world_with(
        vec![
            ent(0, -900_000, Role::Player),
            ent(10_000, -900_000, Role::EnemyLaser),
            ent(-10_000, -900_000, Role::EnemyLaser),
        ],
        1,
        0,
    );
    enemy_laser_hit_player_system(&mut w);
    assert_eq!(w.player.lives, 2);
    assert_eq!(
        w.entities.iter().filter(|e| matches!(e.role, Role::EnemyLaser)).count(),
        1
    );
}

#[test]
fn last_life_routes_to_main_menu() {
    // lives = 1, an enemy projectile overlaps the player
    let mut w = world_with(
        vec![ent(0, -900_000, Role::Player), ent(10_000, -900_000, Role::EnemyLaser)],
        1,
        0,
    );
    w.player.lives = 1;
    enemy_laser_hit_player_system(&mut w);
    assert_eq!(w.player.lives, 0);
    assert_eq!(w.state, GameState::MainMenu);
    assert!(!w.entities.iter().any(|e| matches!(e.role, Role::EnemyLaser)));
    assert!(!w.entities.iter().any(|e| matches!(e.role, Role::Player)));
}

#[test]
fn three_hits_end_the_session() {
    let mut w = world_with(vec![ent(0, -900_000, Role::Player)], 1, 0);
    for expected in [2u32, 1u32] {
        w.entities.push(ent(10_000, -900_000, Role::EnemyLaser));
        enemy_laser_hit_player_system(&mut w);
        assert_eq!(w.player.lives, expected);
        assert_eq!(w.state, GameState::InGame);
    }
    w.entities.push(ent(10_000, -900_000, Role::EnemyLaser));
    enemy_laser_hit_player_system(&mut w);
    assert_eq!(w.player.lives, 0);
    assert_eq!(w.state, GameState::MainMenu);
}

#[test]
fn spawn_burst_creates_exactly_wave_enemies() {
    let mut w = world_with(vec![], 3, 0);
    enemy_spawn_system(&mut w);
    assert_eq!(w.enemy_count, 3);
    assert_eq!(w.entities.len(), 3);
    let w_span = W / 2 - SPAWN_MARGIN;
    let h_span = H / 2 - SPAWN_MARGIN;
    for e in w.entities.iter() {
        assert!(matches!(e.role, Role::Enemy));
        assert!(-w_span <= e.pos.x && e.pos.x < w_span);
        assert!(-h_span + SPAWN_MARGIN_BOTTOM <= e.pos.y && e.pos.y < h_span);
        assert!(-PATROL_VEL <= e.vel.x && e.vel.x < PATROL_VEL);
        assert!(-PATROL_VEL <= e.vel.y && e.vel.y < PATROL_VEL);
        assert!(!e.movable.auto_despawn);
    }
}

#[test]
fn no_spawn_while_enemies_live() {
    let mut w = world_with(vec![ent(0, 0, Role::Enemy)], 5, 1);
    enemy_spawn_system(&mut w);
    assert_eq!(w.entities.len(), 1);
    assert_eq!(w.enemy_count, 1);
}

#[test]
fn clearing_wave_n_spawns_n_plus_one() {
    // destroying all N enemies of wave N yields Wave = N + 1 and the next
    // spawn burst creates exactly that many enemies
    let mut w = world_with(
        vec![
            ent(0, 0, Role::Enemy),
            ent(600_000, 0, Role::Enemy),
            ent(0, 20_000, Role::PlayerLaser),
            ent(600_000, 20_000, Role::PlayerLaser),
        ],
        2,
        2,
    );
    player_laser_hit_enemy_system(&mut w);
    assert_eq!(w.wave, 3);
    assert_eq!(w.enemy_count, 0);
    let before = w.entities.len();
    enemy_spawn_system(&mut w);
    assert_eq!(w.entities.len() - before, 3);
    assert_eq!(w.enemy_count, 3);
}

#[test]
fn enemy_fire_spawns_bolt_below_some_enemy() {
    let mut w = world_with(vec![ent(123, 456, Role::Enemy)], 1, 1);
    enemy_fire_system(&mut w);
    assert_eq!(w.entities.len(), 2);
    let bolt = &w.entities[1];
    assert!(matches!(bolt.role, Role::EnemyLaser));
    assert_eq!(bolt.pos.x, 123);
    assert_eq!(bolt.pos.y, 456 - 45_000);
    assert_eq!(bolt.vel.y, -1000);
    assert!(bolt.movable.auto_despawn);
}

#[test]
fn enemy_fire_without_enemies_is_silent() {
    let mut w = world_with(vec![ent(0, 0, Role::Player)], 1, 0);
    enemy_fire_system(&mut w);
    assert_eq!(w.entities.len(), 1);
}

#[test]
fn patrol_flip_reverses_x_on_even_phase() {
    let mut w = world_with(vec![ent(0, 0, Role::Enemy)], 1, 1);
    w.entities[0].vel = Velocity { x: 200, y: -100 };
    w.tick = 60;  // phase 2: even, not a multiple of 4
    enemy_movement_system(&mut w);
    assert_eq!(w.entities[0].vel.x, -200);
    assert_eq!(w.entities[0].vel.y, -100);
    assert!(w.rotated);
}

#[test]
fn patrol_flip_reverses_y_on_fourth_phase() {
    let mut w = world_with(vec![ent(0, 0, Role::Enemy)], 1, 1);
    w.entities[0].vel = Velocity { x: 200, y: -100 };
    w.tick = 120;  // phase 4: even and a multiple of 4
    enemy_movement_system(&mut w);
    assert_eq!(w.entities[0].vel.x, 200);
    assert_eq!(w.entities[0].vel.y, 100);
    assert!(w.rotated);
}

#[test]
fn patrol_flip_latches_within_a_phase_window() {
    let mut w = world_with(vec![ent(0, 0, Role::Enemy)], 1, 1);
    w.entities[0].vel = Velocity { x: 200, y: -100 };
    w.tick = 60;
    enemy_movement_system(&mut w);
    enemy_movement_system(&mut w);
    // flipped once, not twice
    assert_eq!(w.entities[0].vel.x, -200);
    // odd phase clears the latch
    w.tick = 90;
    enemy_movement_system(&mut w);
    assert!(!w.rotated);
    assert_eq!(w.entities[0].vel.x, -200);
}

#[test]
fn heal_power_up_grants_a_life() {
    let mut w = world_with(
        vec![ent(0, -900_000, Role::Player), ent(10_000, -900_000, Role::PowerUp(PowerUpType::Hp))],
        1,
        0,
    );
    collect_power_up_system(&mut w);
    assert_eq!(w.player.lives, 4);
    assert!(!w.entities.iter().any(|e| matches!(e.role, Role::PowerUp(_))));
}

#[test]
fn weapon_level_power_up_raises_level() {
    let mut w = world_with(
        vec![
            ent(0, -900_000, Role::Player),
            ent(10_000, -900_000, Role::PowerUp(PowerUpType::WeaponLvl)),
        ],
        1,
        0,
    );
    collect_power_up_system(&mut w);
    assert_eq!(w.player.weapon_lvl, 2);
}

#[test]
fn weapon_switch_power_ups_change_weapon() {
    let mut w = world_with(
        vec![
            ent(0, -900_000, Role::Player),
            ent(10_000, -900_000, Role::PowerUp(PowerUpType::ChangeToShotgun)),
        ],
        1,
        0,
    );
    collect_power_up_system(&mut w);
    assert_eq!(w.player.weapon_type, WeaponType::Shotgun);
    w.entities.push(ent(10_000, -900_000, Role::PowerUp(PowerUpType::ChangeToLaser)));
    collect_power_up_system(&mut w);
    assert_eq!(w.player.weapon_type, WeaponType::Lasergun);
}

#[test]
fn at_most_one_pickup_per_tick() {
    let mut w = world_with(
        vec![
            ent(0, -900_000, Role::Player),
            ent(10_000, -900_000, Role::PowerUp(PowerUpType::Hp)),
            ent(-10_000, -900_000, Role::PowerUp(PowerUpType::Hp)),
        ],
        1,
        0,
    );
    collect_power_up_system(&mut w);
    assert_eq!(w.player.lives, 4);
    assert_eq!(
        w.entities.iter().filter(|e| matches!(e.role, Role::PowerUp(_))).count(),
        1
    );
}
