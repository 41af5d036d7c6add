//! The two-level state machine: the application phase and, inside a game,
//! whether play is running or paused.
use vstd::prelude::*;

verus! {

/// The application phase.
#[derive(Clone, Copy, Debug, PartialEq, Eq, Structural)]
pub enum AppState {
    Menu,
    Game,
    GameOver,
}

/// Whether play runs; meaningful only in the `Game` phase.
#[derive(Clone, Copy, Debug, PartialEq, Eq, Structural)]
pub enum GameState {
    Paused,
    Running,
}

/// The composite state of both levels.
#[derive(Clone, Copy, Debug, PartialEq, Eq, Structural)]
pub struct Phase {
    pub app: AppState,
    pub game: GameState,
}

/// What can drive a phase change.
#[derive(Clone, Copy, Debug, PartialEq, Eq, Structural)]
pub enum PhaseEvent {
    /// The player asked to start a game.
    Start,
    /// The avatar was hit.
    GameOverRaised,
    /// The player asked to leave the game-over screen.
    Continue,
    /// The pause key went down.
    TogglePause,
}

impl Default for Phase {
    fn default() -> (p: Phase)
        ensures
            p.app == AppState::Menu,
            p.game == GameState::Running,
    {
        Phase { app: AppState::Menu, game: GameState::Running }
    }
}

pub open spec fn flipped(g: GameState) -> GameState {
    match g {
        GameState::Running => GameState::Paused,
        GameState::Paused => GameState::Running,
    }
}

/// The legal transitions: the phase that `event` leads to from `p`, or
/// `None` where the table has no entry.
pub open spec fn next_phase(p: Phase, event: PhaseEvent) -> Option<Phase> {
    match (p.app, event) {
        (AppState::Menu, PhaseEvent::Start) => Some(Phase { app: AppState::Game, game: p.game }),
        (AppState::Game, PhaseEvent::GameOverRaised) => Some(
            Phase { app: AppState::GameOver, game: p.game },
        ),
        (AppState::GameOver, PhaseEvent::Continue) => Some(
            Phase { app: AppState::Menu, game: p.game },
        ),
        (AppState::Game, PhaseEvent::TogglePause) => Some(
            Phase { app: AppState::Game, game: flipped(p.game) },
        ),
        _ => None,
    }
}

impl Phase {
    /// Whether gameplay systems run: in a game that is not paused.
    pub open spec fn is_active(self) -> bool {
        self.app == AppState::Game && self.game == GameState::Running
    }

    /// Applies `event` if the table allows it; otherwise leaves the phase
    /// as it was and returns `false`.
    pub fn apply(&mut self, event: PhaseEvent) -> (accepted: bool)
        ensures
            accepted == next_phase(*old(self), event).is_some(),
            accepted ==> *final(self) == next_phase(*old(self), event).unwrap(),
            !accepted ==> *final(self) == *old(self),
    {
        match (self.app, event) {
            (AppState::Menu, PhaseEvent::Start) => {
                self.app = AppState::Game;
                true
            },
            (AppState::Game, PhaseEvent::GameOverRaised) => {
                self.app = AppState::GameOver;
                true
            },
            (AppState::GameOver, PhaseEvent::Continue) => {
                self.app = AppState::Menu;
                true
            },
            (AppState::Game, PhaseEvent::TogglePause) => {
                self.game = match self.game {
                    GameState::Running => GameState::Paused,
                    GameState::Paused => GameState::Running,
                };
                true
            },
            _ => false,
        }
    }

    pub fn is_running_game(&self) -> (r: bool)
        ensures
            r == self.is_active(),
    {
        self.app == AppState::Game && self.game == GameState::Running
    }
}

/// The key went down this frame: held now and not held the frame before.
pub open spec fn pressed_edge(held: bool, was_held: bool) -> bool {
    held && !was_held
}

/// The phase and the remembered key state after a frame in which the pause
/// key is `held`.
pub open spec fn toggled(p: Phase, was_held: bool, held: bool) -> (Phase, bool) {
    if pressed_edge(held, was_held) && p.app == AppState::Game {
        (next_phase(p, PhaseEvent::TogglePause).unwrap(), held)
    } else {
        (p, held)
    }
}

/// Toggles between running and paused once per press of the pause key, in
/// a game only, and remembers whether the key is held.
pub fn toggle_game(phase: &mut Phase, pause_was_held: &mut bool, pause_held: bool)
    ensures
        (*final(phase), *final(pause_was_held)) == toggled(
            *old(phase),
            *old(pause_was_held),
            pause_held,
        ),
{
    if pause_held && !*pause_was_held && phase.app == AppState::Game {
        phase.apply(PhaseEvent::TogglePause);
    }
    *pause_was_held = pause_held;
}

/// Holding the pause key over consecutive frames toggles at most once: the
/// second held frame leaves the phase as the first one left it.
pub proof fn lemma_held_key_toggles_once(p: Phase, was_held: bool)
    ensures
        ({
            let first = toggled(p, was_held, true);
            let second = toggled(first.0, first.1, true);
            second.0 == first.0 && second.1
        }),
{
}

} // verus!
