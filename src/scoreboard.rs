//! The two score displays and the counter each one shows.

use vstd::prelude::*;

use crate::game::Score;

verus! {

/// The display of the player's points.
#[derive(Clone, Copy, Debug, PartialEq, Eq, Structural)]
pub struct PlayerScore;

/// The display of the opponent's points.
#[derive(Clone, Copy, Debug, PartialEq, Eq, Structural)]
pub struct OpponentScore;

impl PlayerScore {
    /// The number this display shows.
    pub fn shown(&self, score: &Score) -> (r: usize)
        ensures
            r == score.player,
    {
        score.player
    }
}

impl OpponentScore {
    /// The number this display shows.
    pub fn shown(&self, score: &Score) -> (r: usize)
        ensures
            r == score.opponent,
    {
        score.opponent
    }
}

} // verus!
