//! The pictures that a game is drawn with.

use vstd::prelude::*;
use crate::game::robot::RobotId;

verus! {

/// The name of a picture.
#[derive(Debug, Clone, Copy, PartialEq, Eq, Structural, Hash)]
pub enum SpriteId {
    /// The floor of a cell.
    CellBackground,
    /// A cell on which no robot may stand.
    ForbiddenCell,
    /// The post in a corner of a cell.
    CornerWall,
    /// The wall along the upper side of a cell.
    SideWall,
    /// The whole board, as drawn last.
    CurrentBoard,
    /// A robot.
    Robot(RobotId),
}

} // verus!
