//! What a player can ask of the game.

use vstd::prelude::*;

verus! {

/// The buttons of the game, as the player's intents.
#[derive(Debug, Clone, Copy, PartialEq, Eq, Structural)]
pub enum ButtonClicked {
    Activity,
    Crafting,
    Inventory,
    Stats,
    Jobs,
    Mining,
    Woodcutting,
    Farming,
    Quest,
    AvailableQuests,
    CompletedQuests,
    /// Try to complete the quest with this id.
    QuestCompleteClicked(u128),
}

} // verus!
