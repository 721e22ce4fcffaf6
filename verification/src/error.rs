//! The ways in which an operation of the engine can fail.

use vstd::prelude::*;
use crate::job::JobName;

verus! {

/// Why an operation did not go through.
#[derive(Debug, Clone, Copy, PartialEq, Eq, Structural)]
pub enum GameError {
    /// The inventory holds no stack of this item.
    ItemNotFound { id: u128 },
    /// The inventory holds a stack of this item, but a smaller one than was asked for.
    InsufficientItems { id: u128, held: u128 },
    /// The inventory holds less gold than was asked for.
    InsufficientGold,
    /// A reward names a job that the player does not have.
    JobNotFound { job: JobName },
    /// The job's level lies outside its level-up curve, or a grant would carry it there.
    CurveExhausted { job: JobName },
    /// The quest database has no entry for this quest.
    QuestNotFound { id: u128 },
    /// A stack of this item would grow past what its counter can hold.
    QuantityOverflow { id: u128 },
    /// The gold would grow past what its counter can hold.
    GoldOverflow,
}

/// What a call reports of a run that ended with `error`.
pub open spec fn report(error: Option<GameError>) -> Result<(), GameError> {
    match error {
        Some(error) => Err(error),
        None => Ok(()),
    }
}

} // verus!
