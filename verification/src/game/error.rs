//! What can go wrong with a move.

use vstd::prelude::*;

verus! {

/// Why a move was refused.
#[derive(Debug, Clone, Copy, PartialEq, Eq, Structural)]
pub enum GameError {
    /// The robot does not stand on a cell of the board.
    RobotHasNoPosition,
    /// The robot is not one of the robots of the game.
    NotPlayingRobot,
}

} // verus!
