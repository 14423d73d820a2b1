//! The six-state control flow of the game and its entry side effects.

use vstd::prelude::*;

use crate::components::{count_enemies, Entity, Role};
use crate::player::{player_entity, player_spawn_system};
use crate::world::World;

verus! {

/// The control state of the application.
#[derive(Clone, Copy, Debug, PartialEq, Eq, Structural)]
pub enum GameState {
    /// The start screen; the initial state.
    MainMenu,
    /// Transient state that resets the session and enters play.
    InitNewGame,
    /// Live gameplay.
    InGame,
    /// Gameplay suspended, pause menu shown.
    Paused,
    /// Transient state in which the session is persisted.
    Save,
    /// Transient state in which a persisted session is restored.
    Load,
}

/// A discrete trigger for a state change: a menu click or a key edge.
#[derive(Clone, Copy, Debug, PartialEq, Eq, Structural)]
pub enum GameEvent {
    /// "new game" clicked in the main menu.
    NewGame,
    /// "load game" clicked in the main menu.
    LoadGame,
    /// "exit" clicked in the main menu; handled by the shell, not a
    /// transition.
    Exit,
    /// Pause key edge during play.
    Pause,
    /// "continue" clicked, or the continue key, in the pause menu.
    Continue,
    /// "save game" clicked in the pause menu.
    SaveGame,
    /// "main menu" clicked in the pause menu.
    ToMainMenu,
}

/// The target of each valid (state, event) pair; `None` marks an invalid
/// pair, a programming-error condition that callers must not reach.
pub open spec fn transition_of(s: GameState, e: GameEvent) -> Option<GameState> {
    match (s, e) {
        (GameState::MainMenu, GameEvent::NewGame) => Some(GameState::InitNewGame),
        (GameState::MainMenu, GameEvent::LoadGame) => Some(GameState::Load),
        (GameState::InGame, GameEvent::Pause) => Some(GameState::Paused),
        (GameState::Paused, GameEvent::Continue) => Some(GameState::InGame),
        (GameState::Paused, GameEvent::SaveGame) => Some(GameState::Save),
        (GameState::Paused, GameEvent::ToMainMenu) => Some(GameState::MainMenu),
        _ => None,
    }
}

/// The single transition function of the machine.
pub fn transition(s: GameState, e: GameEvent) -> (r: GameState)
    requires
        transition_of(s, e) is Some,
    ensures
        Some(r) == transition_of(s, e),
{
    match (s, e) {
        (GameState::MainMenu, GameEvent::NewGame) => GameState::InitNewGame,
        (GameState::MainMenu, GameEvent::LoadGame) => GameState::Load,
        (GameState::InGame, GameEvent::Pause) => GameState::Paused,
        (GameState::Paused, GameEvent::Continue) => GameState::InGame,
        (GameState::Paused, GameEvent::SaveGame) => GameState::Save,
        (GameState::Paused, GameEvent::ToMainMenu) => GameState::MainMenu,
        _ => {
            proof {
                assert(false);
            }
            GameState::MainMenu
        },
    }
}

/// Entities that survive a return to the main menu: the player ship, all
/// enemy ships and all projectiles are despawned.
pub open spec fn session_survivors(s: Seq<Entity>) -> Seq<Entity>
    decreases s.len(),
{
    if s.len() == 0 {
        Seq::empty()
    } else {
        session_survivors(s.drop_last()) + if despawned_on_menu(s.last()) {
            Seq::<Entity>::empty()
        } else {
            seq![s.last()]
        }
    }
}

/// Whether entering the main menu removes this entity.
pub open spec fn despawned_on_menu(e: Entity) -> bool {
    e.role is Player || e.role is Enemy || e.role is PlayerLaser || e.role is EnemyLaser
}

proof fn lemma_survivors_wf(s: Seq<Entity>)
    requires
        forall|i: int| 0 <= i < s.len() ==> (#[trigger] s[i]).ok(),
    ensures
        forall|i: int|
            0 <= i < session_survivors(s).len() ==> (#[trigger] session_survivors(s)[i]).ok(),
        count_enemies(session_survivors(s)) == 0,
    decreases s.len(),
{
    if s.len() > 0 {
        lemma_survivors_wf(s.drop_last());
        let s1 = s.drop_last();
        assert(s.last() == s[s.len() - 1]);
        if despawned_on_menu(s.last()) {
            assert(session_survivors(s) =~= session_survivors(s1));
        } else {
            assert(session_survivors(s) =~= session_survivors(s1).push(s.last()));
            crate::world::lemma_count_enemies_push(session_survivors(s1), s.last());
            assert(!(s.last().role is Enemy));
        }
    }
}

/// Remove the session's entities on entering the main menu: the player,
/// every enemy and every projectile.
pub fn despawn_system(w: &mut World)
    requires
        old(w).wf(),
        old(w).state is MainMenu,
    ensures
        final(w).wf(),
        final(w).entities@ == session_survivors(old(w).entities@),
        count_enemies(final(w).entities@) == 0,
        final(w).win == old(w).win && final(w).wave == old(w).wave && final(w).enemy_count == old(w).enemy_count
            && final(w).score == old(w).score && final(w).rotated == old(w).rotated && final(w).tick == old(w).tick
            && final(w).player == old(w).player && final(w).state == old(w).state,
{
    let n = w.entities.len();
    let mut out: Vec<Entity> = Vec::new();
    let mut i: usize = 0;
    while i < n
        invariant
            n == old(w).entities@.len(),
            w == old(w),
            0 <= i <= n,
            out@ == session_survivors(old(w).entities@.take(i as int)),
        decreases n - i,
    {
        let e = w.entities[i];
        proof {
            assert(old(w).entities@.take(i + 1).drop_last() =~= old(w).entities@.take(i as int));
            assert(old(w).entities@.take(i + 1).last() == old(w).entities@[i as int]);
        }
        let keep = match e.role {
            Role::Player => false,
            Role::Enemy => false,
            Role::PlayerLaser => false,
            Role::EnemyLaser => false,
            _ => true,
        };
        if keep {
            out.push(e);
        }
        i = i + 1;
    }
    proof {
        assert(old(w).entities@.take(n as int) =~= old(w).entities@);
        lemma_survivors_wf(old(w).entities@);
    }
    w.entities = out;
}

/// Apply a menu or key event: move to the target state and run its entry
/// side effect — entering the main menu despawns the session's entities.
/// The event must be valid in the current state.
pub fn handle_ui_event(w: &mut World, e: GameEvent)
    requires
        old(w).wf(),
        transition_of(old(w).state, e) is Some,
    ensures
        final(w).wf(),
        Some(final(w).state) == transition_of(old(w).state, e),
        final(w).entities@ == if transition_of(old(w).state, e) == Some(GameState::MainMenu) {
            session_survivors(old(w).entities@)
        } else {
            old(w).entities@
        },
        final(w).win == old(w).win && final(w).wave == old(w).wave && final(w).enemy_count == old(w).enemy_count
            && final(w).score == old(w).score && final(w).rotated == old(w).rotated && final(w).tick == old(w).tick
            && final(w).player == old(w).player,
{
    let target = transition(w.state, e);
    w.state = target;
    match target {
        GameState::MainMenu => {
            despawn_system(w);
        },
        _ => {},
    }
}

/// Pause-key edge during play: Escape or P suspends the game.
pub fn pause_keyboard_event_system(w: &mut World, escape: bool, p_key: bool)
    requires
        old(w).wf(),
        old(w).state is InGame,
    ensures
        final(w).wf(),
        final(w).state == if escape || p_key {
            GameState::Paused
        } else {
            GameState::InGame
        },
        final(w).entities@ == old(w).entities@ && final(w).win == old(w).win && final(w).wave == old(w).wave
            && final(w).enemy_count == old(w).enemy_count && final(w).score == old(w).score && final(w).rotated == old(
            w,
        ).rotated && final(w).tick == old(w).tick && final(w).player == old(w).player,
{
    if escape || p_key {
        handle_ui_event(w, GameEvent::Pause);
    }
}

/// Continue-key edge while paused: Space resumes the game.
pub fn continue_keyboard_event_system(w: &mut World, space: bool)
    requires
        old(w).wf(),
        old(w).state is Paused,
    ensures
        final(w).wf(),
        final(w).state == if space {
            GameState::InGame
        } else {
            GameState::Paused
        },
        final(w).entities@ == old(w).entities@ && final(w).win == old(w).win && final(w).wave == old(w).wave
            && final(w).enemy_count == old(w).enemy_count && final(w).score == old(w).score && final(w).rotated == old(
            w,
        ).rotated && final(w).tick == old(w).tick && final(w).player == old(w).player,
{
    if space {
        handle_ui_event(w, GameEvent::Continue);
    }
}

/// Reset the session for a new game and enter play: wave 1, no enemies, no
/// score, a fresh player state, and the player ship spawned.
pub fn new_game_init_system(w: &mut World)
    requires
        old(w).wf(),
        old(w).state is InitNewGame,
        count_enemies(old(w).entities@) == 0,
    ensures
        final(w).wf(),
        final(w).state is InGame,
        final(w).wave == 1,
        final(w).enemy_count == 0,
        final(w).score == 0,
        final(w).player == crate::player::initial_player_state(),
        final(w).entities@ == old(w).entities@.push(player_entity(old(w).win.h as int)),
        final(w).win == old(w).win && final(w).rotated == old(w).rotated && final(w).tick == old(w).tick,
{
    w.wave = 1;
    w.enemy_count = 0;
    w.score = 0;
    w.player.reset();
    player_spawn_system(w);
    proof {
        crate::world::lemma_count_enemies_push(
            old(w).entities@,
            player_entity(old(w).win.h as int),
        );
    }
    w.state = GameState::InGame;
}

} // verus!
