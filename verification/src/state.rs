//! Whether the game is loading or being played.
use vstd::prelude::*;

verus! {

#[derive(Clone, Copy, Debug, PartialEq, Eq, Hash, Structural)]
pub enum GameState {
    Loading,
    Playing,
}

impl Default for GameState {
    fn default() -> (r: Self)
        ensures
            r == GameState::Loading,
    {
        GameState::Loading
    }
}

/// A request to change the state of the game.
#[derive(Clone, Copy, Debug, PartialEq, Eq)]
pub struct GameStateEvent {
    pub state: GameState,
}

impl GameStateEvent {
    pub fn new(state: GameState) -> (r: Self)
        ensures
            r == (GameStateEvent { state }),
    {
        GameStateEvent { state }
    }
}

/// The state that the game is in at its start.
pub fn init_game_state() -> (r: GameState)
    ensures
        r == GameState::Loading,
{
    GameState::Loading
}

/// The state after the requests `events`: that of the last, or `state`
/// where there is none.
pub open spec fn state_after(state: GameState, events: Seq<GameStateEvent>) -> GameState {
    if events.len() == 0 {
        state
    } else {
        events.last().state
    }
}

/// Follows the requests to change the state of the game.
pub fn update_game_state(state: GameState, events: &Vec<GameStateEvent>) -> (r: GameState)
    ensures
        r == state_after(state, events@),
{
    let n: usize = events.len();
    if n == 0 {
        state
    } else {
        events[n - 1].state
    }
}

} // verus!
