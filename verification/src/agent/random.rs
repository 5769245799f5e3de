//! The agent that presses keys at random.

use crate::agent::{Agent, Policy};
use crate::misc::sampling::{choose_on_thread, thread_local_rng};
use crate::tetris::keys::KeyCode;
use crate::tetris::state::{Game, TetrisState};
use rand::rngs::ThreadRng;
use vstd::prelude::*;

verus! {

/// An agent that names one of the four arrow keys in each tick, each with
/// the same chance, whatever the game looks like.
pub struct RandomAgent {
    rng: ThreadRng,
}

impl RandomAgent {
    /// An agent that draws from the generator of the current thread.
    pub fn new() -> (agent: RandomAgent) {
        RandomAgent { rng: thread_local_rng() }
    }
}

impl Agent for RandomAgent {
    /// The agent may name any of the four arrow keys, for any game.
    open spec fn policy(&self) -> Policy {
        |game: Game, key: Option<KeyCode>| key is Some && key != Some(KeyCode::Space)
    }

    /// One of `Left`, `Right`, `Up` and `Down`, picked by the generator.
    fn get_action(&mut self, _state: &TetrisState) -> (key: Option<KeyCode>) {
        let possible_keys = [KeyCode::Left, KeyCode::Right, KeyCode::Up, KeyCode::Down];
        choose_on_thread(possible_keys.as_slice(), &mut self.rng)
    }
}

} // verus!
