//! Walls: a wall stands on one side of a cell.

use vstd::prelude::*;
use crate::positioning::{LogicalPos, RotateAngle, Way};

verus! {

/// The edge of a cell on which a wall stands. `Up` is the edge shared with
/// the cell above.
#[derive(Debug, Clone, Copy, PartialEq, Eq, Structural)]
pub enum Side {
    Up,
    Down,
    Left,
    Right,
}

/// A wall on one side of a cell.
#[derive(Debug, Clone, Copy, PartialEq, Eq, Structural)]
pub struct Wall {
    pub pos: LogicalPos,
    pub side: Side,
}

impl Side {
    /// The direction of travel that a wall on this side closes.
    pub open spec fn facing(self) -> Way {
        match self {
            Side::Up => Way::Up,
            Side::Down => Way::Down,
            Side::Left => Way::Left,
            Side::Right => Way::Right,
        }
    }

    /// The side that closes travel in direction `way`.
    pub open spec fn closing(way: Way) -> Side {
        match way {
            Way::Up => Side::Up,
            Way::Down => Side::Down,
            Way::Left => Side::Left,
            Way::Right => Side::Right,
        }
    }

    /// The side reached by turning `self` by `angle`.
    pub open spec fn rotated(self, angle: RotateAngle) -> Side {
        Side::closing(self.facing().rotated(angle))
    }

    /// The direction of travel that a wall on this side closes.
    pub fn as_way(&self) -> (way: Way)
        ensures
            way == self.facing(),
    {
        match self {
            Side::Up => Way::Up,
            Side::Down => Way::Down,
            Side::Left => Way::Left,
            Side::Right => Way::Right,
        }
    }

    /// The side that closes travel in direction `way`.
    pub fn from_way(way: Way) -> (side: Side)
        ensures
            side == Side::closing(way),
    {
        match way {
            Way::Up => Side::Up,
            Way::Down => Side::Down,
            Way::Left => Side::Left,
            Way::Right => Side::Right,
        }
    }

    /// Turns the side by `angle`, by the rotation table of `Way`.
    pub fn rotate(&self, angle: RotateAngle) -> (turned: Side)
        ensures
            turned == self.rotated(angle),
    {
        Side::from_way(self.as_way().rotate(angle))
    }
}

/// Sides turn exactly as directions do: the rotations act on them as a
/// group, and `facing` carries one action onto the other.
pub proof fn law_rotation_acts_on_sides(side: Side, a: RotateAngle, b: RotateAngle)
    ensures
        side.rotated(RotateAngle::NoTurn) == side,
        side.rotated(a).rotated(b) == side.rotated(a.then_turn(b)),
        side.rotated(a).rotated(a.inverse()) == side,
        side.rotated(a).facing() == side.facing().rotated(a),
{
}

} // verus!
