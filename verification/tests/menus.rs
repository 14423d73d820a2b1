use space_shooter::components::{Entity, Movable, Position, Role, SpriteSize, Velocity};
use space_shooter::player::PlayerState;
use space_shooter::save::finish_save;
use space_shooter::state::{
    continue_keyboard_event_system, handle_ui_event, new_game_init_system,
    pause_keyboard_event_system, transition, GameEvent, GameState,
};
use space_shooter::ui::{
    ContinueButton, ExitButton, LoadButton, MainMenu, MainMenuButton, NewGameButton, PauseMenu,
    SaveButton, ScoreText,
};
use space_shooter::weapons::WeaponType;
use space_shooter::world::{advance_tick, WindowSize, World};

fn ent(role: Role, auto: bool) -> Entity {
    Entity {
        pos: Position { x: 0, y: 0 },
        vel: Velocity { x: 0, y: 0 },
        size: SpriteSize { w: 10_000, h: 10_000 },
        movable: Movable { auto_despawn: auto },
        role,
    }
}

fn fresh() -> World {
    World::new(WindowSize { w: 3_840_000, h: 2_160_000 })
}

#[test]
fn new_world_starts_at_main_menu() {
    let w = fresh();
    assert_eq!(w.state, GameState::MainMenu);
    assert_eq!(w.wave, 1);
    assert_eq!(w.enemy_count, 0);
    assert_eq!(w.score, 0);
    assert_eq!(w.player.lives, 3);
    assert!(w.entities.is_empty());
}

#[test]
fn transition_table_matches_the_menus() {
    assert_eq!(
        transition(GameState::MainMenu, GameEvent::NewGame),
        GameState::InitNewGame
    );
    assert_eq!(transition(GameState::MainMenu, GameEvent::LoadGame), GameState::Load);
    assert_eq!(transition(GameState::InGame, GameEvent::Pause), GameState::Paused);
    assert_eq!(transition(GameState::Paused, GameEvent::Continue), GameState::InGame);
    assert_eq!(transition(GameState::Paused, GameEvent::SaveGame), GameState::Save);
    assert_eq!(
        transition(GameState::Paused, GameEvent::ToMainMenu),
        GameState::MainMenu
    );
}

#[test]
fn new_game_resets_the_session() {
    let mut w = fresh();
    w.wave = 9;
    w.score = 4200;
    w.player = PlayerState { lives: 1, weapon_type: WeaponType::Shotgun, weapon_lvl: 5 };
    handle_ui_event(&mut w, GameEvent::NewGame);
    assert_eq!(w.state, GameState::InitNewGame);
    new_game_init_system(&mut w);
    assert_eq!(w.state, GameState::InGame);
    assert_eq!(w.wave, 1);
    assert_eq!(w.enemy_count, 0);
    assert_eq!(w.score, 0);
    assert_eq!(w.player, PlayerState::new());
    assert!(w.entities.iter().any(|e| matches!(e.role, Role::Player)));
}

#[test]
fn pause_and_continue_round_trip() {
    let mut w = fresh();
    handle_ui_event(&mut w, GameEvent::NewGame);
    new_game_init_system(&mut w);
    pause_keyboard_event_system(&mut w, false, false);
    assert_eq!(w.state, GameState::InGame);
    pause_keyboard_event_system(&mut w, true, false);
    assert_eq!(w.state, GameState::Paused);
    continue_keyboard_event_system(&mut w, false);
    assert_eq!(w.state, GameState::Paused);
    continue_keyboard_event_system(&mut w, true);
    assert_eq!(w.state, GameState::InGame);
}

#[test]
fn finishing_a_save_returns_to_pause_menu() {
    let mut w = fresh();
    handle_ui_event(&mut w, GameEvent::NewGame);
    new_game_init_system(&mut w);
    pause_keyboard_event_system(&mut w, false, true);
    handle_ui_event(&mut w, GameEvent::SaveGame);
    assert_eq!(w.state, GameState::Save);
    finish_save(&mut w);
    assert_eq!(w.state, GameState::Paused);
}

#[test]
fn returning_to_main_menu_clears_the_field() {
    let mut w = fresh();
    handle_ui_event(&mut w, GameEvent::NewGame);
    new_game_init_system(&mut w);
    w.entities.push(ent(Role::Enemy, false));
    w.entities.push(ent(Role::EnemyLaser, true));
    w.entities.push(ent(Role::PlayerLaser, true));
    w.entities.push(ent(Role::Background, true));
    w.enemy_count = 1;
    pause_keyboard_event_system(&mut w, true, false);
    handle_ui_event(&mut w, GameEvent::ToMainMenu);
    assert_eq!(w.state, GameState::MainMenu);
    assert!(!w.entities.iter().any(|e| matches!(
        e.role,
        Role::Player | Role::Enemy | Role::PlayerLaser | Role::EnemyLaser
    )));
    assert!(w.entities.iter().any(|e| matches!(e.role, Role::Background)));
}

#[test]
fn tick_counter_advances_by_one() {
    let mut w = fresh();
    advance_tick(&mut w);
    advance_tick(&mut w);
    assert_eq!(w.tick, 2);
}

#[test]
fn buttons_know_their_labels_and_events() {
    assert_eq!(NewGameButton.label(), "new game");
    assert_eq!(LoadButton.label(), "load game");
    assert_eq!(ExitButton.label(), "exit");
    assert_eq!(ContinueButton.label(), "continue");
    assert_eq!(SaveButton.label(), "save game");
    assert_eq!(MainMenuButton.label(), "main menu");
    assert_eq!(NewGameButton.on_click(), GameEvent::NewGame);
    assert_eq!(LoadButton.on_click(), GameEvent::LoadGame);
    assert_eq!(ExitButton.on_click(), GameEvent::Exit);
    assert_eq!(ContinueButton.on_click(), GameEvent::Continue);
    assert_eq!(SaveButton.on_click(), GameEvent::SaveGame);
    assert_eq!(MainMenuButton.on_click(), GameEvent::ToMainMenu);
}

#[test]
fn menus_show_in_their_states() {
    assert!(MainMenu.visible_in(GameState::MainMenu));
    assert!(!MainMenu.visible_in(GameState::InGame));
    assert!(PauseMenu.visible_in(GameState::Paused));
    assert!(!PauseMenu.visible_in(GameState::MainMenu));
}

#[test]
fn score_text_renders_the_score() {
    assert_eq!(ScoreText.text(0), b"0".to_vec());
    assert_eq!(ScoreText.text(1200), b"1200".to_vec());
}
