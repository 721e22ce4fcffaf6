//! What is kept between two runs of the game.

use vstd::prelude::*;
use crate::game_state::GameState;
use crate::player::Player;
use crate::quest::Quest;

verus! {

/// A saved game, with the time of saving in seconds since the Unix epoch.
#[derive(Debug, Clone, PartialEq)]
pub struct Save {
    pub game_state: GameState,
    pub player: Player,
    pub quests: Vec<Quest>,
    pub timestamp: u64,
}

/// The seconds from `timestamp` to `current_time`: none where the clock went
/// backwards.
pub open spec fn seconds_since(timestamp: u64, current_time: u64) -> u64 {
    if current_time > timestamp {
        (current_time - timestamp) as u64
    } else {
        0
    }
}

impl Save {
    /// The seconds that have passed since the game was saved.
    pub fn time_elapsed(&self, current_time: u64) -> (seconds: u64)
        ensures
            seconds == seconds_since(self.timestamp, current_time),
    {
        if current_time > self.timestamp {
            current_time - self.timestamp
        } else {
            0
        }
    }
}

} // verus!
