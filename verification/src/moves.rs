//! What a robot standing on a cell may do.

use vstd::prelude::*;
use crate::positioning::Way;

verus! {

/// The directions in which a cell can be left. `forbidden` marks a cell on
/// which no robot may stand.
#[derive(Debug, Clone, Copy, PartialEq, Eq, Structural)]
pub struct MovePossibility {
    pub up: bool,
    pub down: bool,
    pub left: bool,
    pub right: bool,
    pub forbidden: bool,
}

impl MovePossibility {
    /// The flag recorded for direction `way`, whatever `forbidden` says.
    pub open spec fn toward(self, way: Way) -> bool {
        match way {
            Way::Up => self.up,
            Way::Down => self.down,
            Way::Left => self.left,
            Way::Right => self.right,
        }
    }

    /// True when none of the four directions is open.
    pub open spec fn closed_in(self) -> bool {
        !self.up && !self.down && !self.left && !self.right
    }

    /// Whether the cell can be left in direction `way`. A forbidden cell can
    /// be left in no direction.
    pub fn can_go(&self, way: &Way) -> (allowed: bool)
        ensures
            allowed == (!self.forbidden && self.toward(*way)),
    {
        if self.forbidden {
            return false;
        }
        match way {
            Way::Up => self.up,
            Way::Down => self.down,
            Way::Left => self.left,
            Way::Right => self.right,
        }
    }

    /// A cell that is open on every side.
    pub fn all() -> (moves: MovePossibility)
        ensures
            moves == (MovePossibility {
                up: true,
                down: true,
                left: true,
                right: true,
                forbidden: false,
            }),
    {
        MovePossibility { up: true, down: true, left: true, right: true, forbidden: false }
    }

    /// A forbidden cell, closed on every side.
    pub fn none() -> (moves: MovePossibility)
        ensures
            moves == (MovePossibility {
                up: false,
                down: false,
                left: false,
                right: false,
                forbidden: true,
            }),
    {
        MovePossibility { up: false, down: false, left: false, right: false, forbidden: true }
    }
}

} // verus!
