use space_shooter::components::{Entity, Movable, Position, Role, SpriteSize, Velocity};
use space_shooter::player::PlayerState;
use space_shooter::save::{
    load_system, parse_save, parse_u32, save_record, u32_to_dec, LoadError, SaveData,
};
use space_shooter::state::GameState;
use space_shooter::weapons::WeaponType;
use space_shooter::world::{WindowSize, World};

fn world_at(state: GameState, wave: u32, score: u32, lives: u32) -> World {
    World {
        entities: vec![],
        win: WindowSize { w: 3_840_000, h: 2_160_000 },
        wave,
        enemy_count: 0,
        score,
        rotated: false,
        tick: 0,
        player: PlayerState { lives, weapon_type: WeaponType::Lasergun, weapon_lvl: 1 },
        state,
    }
}

#[test]
fn decimal_rendering_is_exact() {
    assert_eq!(u32_to_dec(0), b"0".to_vec());
    assert_eq!(u32_to_dec(7), b"7".to_vec());
    assert_eq!(u32_to_dec(1200), b"1200".to_vec());
    assert_eq!(u32_to_dec(u32::MAX), b"4294967295".to_vec());
}

#[test]
fn parse_u32_accepts_digits_and_rejects_the_rest() {
    assert_eq!(parse_u32(&b"0".to_vec()), Some(0));
    assert_eq!(parse_u32(&b"00250".to_vec()), Some(250));
    assert_eq!(parse_u32(&b"4294967295".to_vec()), Some(u32::MAX));
    assert_eq!(parse_u32(&b"4294967296".to_vec()), None);
    assert_eq!(parse_u32(&b"".to_vec()), None);
    assert_eq!(parse_u32(&b"12a".to_vec()), None);
    assert_eq!(parse_u32(&b"-5".to_vec()), None);
    assert_eq!(parse_u32(&b" 5".to_vec()), None);
}

#[test]
fn save_record_is_three_terminated_lines() {
    let w = world_at(GameState::Save, 4, 1200, 2);
    assert_eq!(save_record(&w), b"4\n1200\n2\n".to_vec());
}

#[test]
fn save_then_load_restores_the_session() {
    // saving {wave: 4, score: 1200, lives: 2} and reading the record back
    let w = world_at(GameState::Save, 4, 1200, 2);
    let record = save_record(&w);
    assert_eq!(
        parse_save(&record),
        Ok(SaveData { wave: 4, score: 1200, lives: 2 })
    );
    let mut fresh = world_at(GameState::Load, 1, 0, 3);
    load_system(&mut fresh, Some(&record));
    assert_eq!(fresh.state, GameState::InGame);
    assert_eq!(fresh.wave, 4);
    assert_eq!(fresh.score, 1200);
    assert_eq!(fresh.player.lives, 2);
}

#[test]
fn parse_rejects_short_records() {
    assert_eq!(parse_save(&b"".to_vec()), Err(LoadError::TooFewLines));
    assert_eq!(parse_save(&b"5\n".to_vec()), Err(LoadError::TooFewLines));
    assert_eq!(parse_save(&b"5\n250\n".to_vec()), Err(LoadError::TooFewLines));
}

#[test]
fn parse_rejects_non_numeric_fields() {
    assert_eq!(parse_save(&b"5\nx\n2\n".to_vec()), Err(LoadError::NonNumeric));
    assert_eq!(parse_save(&b"\n250\n2\n".to_vec()), Err(LoadError::NonNumeric));
    assert_eq!(
        parse_save(&b"5\n250\n99999999999\n".to_vec()),
        Err(LoadError::NonNumeric)
    );
}

#[test]
fn load_good_record_enters_game() {
    // file content "5\n250\n2\n"
    let mut w = world_at(GameState::Load, 1, 0, 3);
    load_system(&mut w, Some(&b"5\n250\n2\n".to_vec()));
    assert_eq!(w.state, GameState::InGame);
    assert_eq!(w.wave, 5);
    assert_eq!(w.score, 250);
    assert_eq!(w.player.lives, 2);
    assert_eq!(w.enemy_count, 0);
    // entering play spawns the player ship
    assert!(w.entities.iter().any(|e| matches!(e.role, Role::Player)));
}

#[test]
fn load_without_file_returns_to_main_menu() {
    // no file present: a normal, recoverable condition
    let mut w = world_at(GameState::Load, 1, 0, 3);
    load_system(&mut w, None);
    assert_eq!(w.state, GameState::MainMenu);
    assert_eq!(w.wave, 1);
    assert_eq!(w.score, 0);
    assert_eq!(w.player.lives, 3);
}

#[test]
fn load_malformed_record_returns_to_main_menu() {
    let mut w = world_at(GameState::Load, 7, 30, 2);
    load_system(&mut w, Some(&b"5\n250\n".to_vec()));
    assert_eq!(w.state, GameState::MainMenu);
    assert_eq!(w.wave, 7);
    assert_eq!(w.score, 30);
    assert_eq!(w.player.lives, 2);
}

#[test]
fn round_trip_holds_for_extreme_values() {
    let w = world_at(GameState::Save, u32::MAX, 0, u32::MAX);
    let record = save_record(&w);
    assert_eq!(
        parse_save(&record),
        Ok(SaveData { wave: u32::MAX, score: 0, lives: u32::MAX })
    );
}

#[test]
fn stray_entities_survive_a_failed_load() {
    let tile = Entity {
        pos: Position { x: 0, y: 0 },
        vel: Velocity { x: 0, y: -70 },
        size: SpriteSize { w: 768_000, h: 768_000 },
        movable: Movable { auto_despawn: true },
        role: Role::Background,
    };
    let mut w = world_at(GameState::Load, 1, 0, 3);
    w.entities.push(tile);
    load_system(&mut w, None);
    assert_eq!(w.entities.len(), 1);
    assert!(matches!(w.entities[0].role, Role::Background));
}
