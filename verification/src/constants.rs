//! Fixed numbers of the game.

use vstd::prelude::*;

verus! {

/// Experience needed to leave each level: entry `n` is the threshold of level
/// `n + 1`. Every threshold is twice the one before it.
pub const LEVEL_UP_EXPERIENCE: [u128; 32] = [
    100, 200, 400, 800,
    1600, 3200, 6400, 12800,
    25600, 51200, 102400, 204800,
    409600, 819200, 1638400, 3276800,
    6553600, 13107200, 26214400, 52428800,
    104857600, 209715200, 419430400, 838860800,
    1677721600, 3355443200, 6710886400, 13421772800,
    26843545600, 53687091200, 107374182400, 214748364800,
];

/// The level-up curve as a vector, for a job to own.
pub fn level_up_experience() -> (curve: Vec<u128>)
    ensures
        curve@ == LEVEL_UP_EXPERIENCE@,
{
    let mut curve: Vec<u128> = Vec::new();
    let mut next: usize = 0;
    while next < 32
        invariant
            next <= 32,
            curve@ == LEVEL_UP_EXPERIENCE@.subrange(0, next as int),
        decreases 32 - next,
    {
        curve.push(LEVEL_UP_EXPERIENCE[next]);
        next = next + 1;
    }
    curve
}

/// Time is counted in ticks; this many make one second.
pub const TICKS_PER_SECOND: u64 = 1_000_000;

/// How long one cycle of a standard activity takes, in ticks.
pub const ACTIVITY_DURATION: u64 = 10 * TICKS_PER_SECOND;

/// Experience that one cycle of a standard activity pays to its job.
pub const ACTIVITY_EXPERIENCE: u128 = 100;

/// The item that woodcutting yields.
pub const WOOD: u128 = 1;

/// The item that mining yields.
pub const STONE: u128 = 2;

/// The item that farming yields.
pub const WHEAT: u128 = 3;

} // verus!
