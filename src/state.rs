//! Things that carry a state of their own.

use vstd::prelude::*;
use crate::game::{Game, GameState};
use crate::registry::{Client, ClientState};

verus! {

/// A value with a state that can be set.
pub trait State {
    type StateEnum;

    /// The current state.
    spec fn current_state(&self) -> Self::StateEnum;

    fn change_state(&mut self, new_state: Self::StateEnum)
        ensures
            final(self).current_state() == new_state;
}

impl State for Client {
    type StateEnum = ClientState;

    open spec fn current_state(&self) -> ClientState {
        self.state
    }

    fn change_state(&mut self, new_state: ClientState) {
        self.state = new_state;
    }
}

impl State for Game {
    type StateEnum = GameState;

    open spec fn current_state(&self) -> GameState {
        self.state_spec()
    }

    fn change_state(&mut self, new_state: GameState) {
        self.set_state(new_state);
    }
}

} // verus!
