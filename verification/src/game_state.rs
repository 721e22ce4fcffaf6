//! Which screen the game shows.

use vstd::prelude::*;

verus! {

/// The two lists of the quest screen.
#[derive(Debug, Clone, Copy, PartialEq, Eq, Structural)]
pub enum QuestState {
    Available,
    Completed,
}

/// The screens of the game.
#[derive(Debug, Clone, Copy, PartialEq, Eq, Structural)]
pub enum GameState {
    Activity,
    Crafting,
    Inventory,
    Quest(QuestState),
}

/// The heading of a screen. Both quest lists share one.
pub open spec fn screen_label(state: GameState) -> Seq<char> {
    match state {
        GameState::Activity => "Activity"@,
        GameState::Crafting => "Crafting"@,
        GameState::Inventory => "Inventory"@,
        GameState::Quest(_) => "Quest"@,
    }
}

impl GameState {
    /// The screen that a game opens on.
    pub fn new() -> (state: GameState)
        ensures
            state == GameState::Activity,
    {
        GameState::Activity
    }

    /// The heading of the screen.
    pub fn to_string(&self) -> (label: String)
        ensures
            label@ == screen_label(*self),
    {
        match self {
            GameState::Activity => "Activity".to_string(),
            GameState::Crafting => "Crafting".to_string(),
            GameState::Inventory => "Inventory".to_string(),
            GameState::Quest(_) => "Quest".to_string(),
        }
    }
}

} // verus!
