use vstd::prelude::*;

verus! {

/// The top-level game state.
#[derive(Clone, Copy, Debug, PartialEq, Eq, Hash, Structural)]
pub enum GameState {
    Running,
    Paused,
    GameOver,
}

impl Default for GameState {
    fn default() -> (r: GameState)
        ensures
            r == GameState::Running,
    {
        GameState::Running
    }
}

/// The current state and the state requested for the next frame boundary.
#[derive(Clone, Copy, Debug, PartialEq, Eq, Structural)]
pub struct GameStates {
    pub current: GameState,
    pub next: Option<GameState>,
}

/// The state in force after the frame boundary: the pending request, if any.
pub open spec fn applied(s: GameStates) -> GameStates {
    GameStates {
        current: match s.next {
            Some(n) => n,
            None => s.current,
        },
        next: None,
    }
}

/// The request left by the pause key: on its press, Running asks for Paused
/// and Paused for Running; otherwise the request stands.
pub open spec fn after_input(s: GameStates, pause_pressed: bool) -> GameStates {
    if pause_pressed && s.current == GameState::Running {
        GameStates { next: Some(GameState::Paused), ..s }
    } else if pause_pressed && s.current == GameState::Paused {
        GameStates { next: Some(GameState::Running), ..s }
    } else {
        s
    }
}

/// The state systems of one frame after the boundary: the pause key, then
/// the return from GameOver, which asks for Running.
pub open spec fn state_systems(s: GameStates, pause_pressed: bool) -> GameStates {
    let t = after_input(s, pause_pressed);
    if t.current == GameState::GameOver {
        GameStates { next: Some(GameState::Running), ..t }
    } else {
        t
    }
}

impl GameStates {
    /// Running, with nothing pending.
    pub fn new() -> (r: GameStates)
        ensures
            r == (GameStates { current: GameState::Running, next: None }),
    {
        GameStates { current: GameState::Running, next: None }
    }

    /// The state in force this frame.
    pub fn get(&self) -> (r: GameState)
        ensures
            r == self.current,
    {
        self.current
    }

    /// Asks for `state` at the next frame boundary; a later request in the
    /// same frame replaces this one.
    pub fn set(&mut self, state: GameState)
        ensures
            *final(self) == (GameStates { next: Some(state), ..*old(self) }),
    {
        self.next = Some(state);
    }

    /// The frame boundary: the pending request, if any, takes effect.
    pub fn apply_transition(&mut self)
        ensures
            *final(self) == applied(*old(self)),
    {
        match self.next {
            Some(n) => {
                self.current = n;
            },
            None => {},
        }
        self.next = None;
    }

    /// Toggles between Running and Paused on a press of the pause key.
    pub fn game_state_input_events(&mut self, pause_just_pressed: bool)
        ensures
            *final(self) == after_input(*old(self), pause_just_pressed),
    {
        if pause_just_pressed {
            match self.current {
                GameState::Running => self.set(GameState::Paused),
                GameState::Paused => self.set(GameState::Running),
                GameState::GameOver => {},
            }
        }
    }

    /// Asks for Running.
    pub fn transition_to_running(&mut self)
        ensures
            *final(self) == (GameStates { next: Some(GameState::Running), ..*old(self) }),
    {
        self.set(GameState::Running);
    }

    /// The state systems of one frame: the pause key, then, while in
    /// GameOver, the request to return to Running.
    pub fn run_state_systems(&mut self, pause_just_pressed: bool)
        ensures
            *final(self) == state_systems(*old(self), pause_just_pressed),
    {
        self.game_state_input_events(pause_just_pressed);
        if self.current == GameState::GameOver {
            self.transition_to_running();
        }
    }
}

} // verus!
