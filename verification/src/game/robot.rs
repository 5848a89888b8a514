//! Robots.

use vstd::prelude::*;
use crate::positioning::LogicalPos;

verus! {

/// The name of a robot: its colour.
#[derive(Debug, Clone, Copy, PartialEq, Eq, Structural, Hash)]
pub enum RobotId {
    Red,
    Green,
    Blue,
    Yellow,
}

/// A robot, and the cell it stands on once it has been set down.
#[derive(Debug, Clone, Copy, PartialEq, Eq, Structural)]
pub struct Robot {
    pub id: RobotId,
    pub pos: Option<LogicalPos>,
}

impl Robot {
    /// A robot that has not been set down yet.
    pub fn new(id: RobotId) -> (robot: Robot)
        ensures
            robot == (Robot { id, pos: None }),
    {
        Robot { id, pos: None }
    }
}

} // verus!
