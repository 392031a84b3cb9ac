//! The step of a blinking loop that is meant to fail on its fifth round.
use vstd::prelude::*;

verus! {

/// The round on which the loop gives up.
pub const FAILING_ROUND: i32 = 5;

/// What a round of the loop does.
#[derive(Clone, Copy, Debug, PartialEq, Eq, Structural)]
pub enum BlinkAction {
    /// Log the round's number, then wait a second.
    Log(i32),
    /// Stop with a panic.
    Panic,
}

/// Counts a round and tells what it does: the fifth round panics, every
/// other one logs its number.
pub fn blink_step(round: &mut i32) -> (a: BlinkAction)
    requires
        *old(round) < i32::MAX,
    ensures
        *final(round) == *old(round) + 1,
        *final(round) == FAILING_ROUND ==> a == BlinkAction::Panic,
        *final(round) != FAILING_ROUND ==> a == BlinkAction::Log(*final(round)),
{
    *round = *round + 1;
    if *round == FAILING_ROUND {
        BlinkAction::Panic
    } else {
        BlinkAction::Log(*round)
    }
}

} // verus!
