//! The menu widgets as the logic sees them: each button knows its label
//! and the event its click raises; each menu knows the control state it is
//! shown in; the score readout renders the score.

use vstd::prelude::*;

use crate::save::dec_rep;
use crate::state::{GameEvent, GameState};

verus! {

/// The score readout of the in-game overlay.
#[derive(Clone, Copy, Debug, PartialEq, Eq, Structural)]
pub struct ScoreText;

impl ScoreText {
    /// The digits shown for a score.
    pub fn text(&self, score: u32) -> (r: Vec<u8>)
        ensures
            r@ == dec_rep(score as nat),
    {
        crate::save::u32_to_dec(score)
    }
}

/// The main-menu container, shown exactly at the main menu.
#[derive(Clone, Copy, Debug, PartialEq, Eq, Structural)]
pub struct MainMenu;

impl MainMenu {
    /// Whether this menu is visible in the given state.
    pub fn visible_in(&self, s: GameState) -> (r: bool)
        ensures
            r == (s is MainMenu),
    {
        match s {
            GameState::MainMenu => true,
            _ => false,
        }
    }
}

/// The pause-menu container, shown exactly while paused.
#[derive(Clone, Copy, Debug, PartialEq, Eq, Structural)]
pub struct PauseMenu;

impl PauseMenu {
    /// Whether this menu is visible in the given state.
    pub fn visible_in(&self, s: GameState) -> (r: bool)
        ensures
            r == (s is Paused),
    {
        match s {
            GameState::Paused => true,
            _ => false,
        }
    }
}

/// The "new game" button of the main menu.
#[derive(Clone, Copy, Debug, PartialEq, Eq, Structural)]
pub struct NewGameButton;

impl NewGameButton {
    /// The button caption.
    pub fn label(&self) -> (r: &'static str)
        ensures
            r@ == "new game"@,
    {
        "new game"
    }

    /// The event a click raises.
    pub fn on_click(&self) -> (e: GameEvent)
        ensures
            e == GameEvent::NewGame,
    {
        GameEvent::NewGame
    }
}

/// The "load game" button of the main menu.
#[derive(Clone, Copy, Debug, PartialEq, Eq, Structural)]
pub struct LoadButton;

impl LoadButton {
    /// The button caption.
    pub fn label(&self) -> (r: &'static str)
        ensures
            r@ == "load game"@,
    {
        "load game"
    }

    /// The event a click raises.
    pub fn on_click(&self) -> (e: GameEvent)
        ensures
            e == GameEvent::LoadGame,
    {
        GameEvent::LoadGame
    }
}

/// The "exit" button of the main menu; its event ends the process and is
/// handled by the shell, not by a state transition.
#[derive(Clone, Copy, Debug, PartialEq, Eq, Structural)]
pub struct ExitButton;

impl ExitButton {
    /// The button caption.
    pub fn label(&self) -> (r: &'static str)
        ensures
            r@ == "exit"@,
    {
        "exit"
    }

    /// The event a click raises.
    pub fn on_click(&self) -> (e: GameEvent)
        ensures
            e == GameEvent::Exit,
    {
        GameEvent::Exit
    }
}

/// The "continue" button of the pause menu.
#[derive(Clone, Copy, Debug, PartialEq, Eq, Structural)]
pub struct ContinueButton;

impl ContinueButton {
    /// The button caption.
    pub fn label(&self) -> (r: &'static str)
        ensures
            r@ == "continue"@,
    {
        "continue"
    }

    /// The event a click raises.
    pub fn on_click(&self) -> (e: GameEvent)
        ensures
            e == GameEvent::Continue,
    {
        GameEvent::Continue
    }
}

/// The "save game" button of the pause menu.
#[derive(Clone, Copy, Debug, PartialEq, Eq, Structural)]
pub struct SaveButton;

impl SaveButton {
    /// The button caption.
    pub fn label(&self) -> (r: &'static str)
        ensures
            r@ == "save game"@,
    {
        "save game"
    }

    /// The event a click raises.
    pub fn on_click(&self) -> (e: GameEvent)
        ensures
            e == GameEvent::SaveGame,
    {
        GameEvent::SaveGame
    }
}

/// The "main menu" button of the pause menu.
#[derive(Clone, Copy, Debug, PartialEq, Eq, Structural)]
pub struct MainMenuButton;

impl MainMenuButton {
    /// The button caption.
    pub fn label(&self) -> (r: &'static str)
        ensures
            r@ == "main menu"@,
    {
        "main menu"
    }

    /// The event a click raises.
    pub fn on_click(&self) -> (e: GameEvent)
        ensures
            e == GameEvent::ToMainMenu,
    {
        GameEvent::ToMainMenu
    }
}

} // verus!
