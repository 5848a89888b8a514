//! The four corners of a board, and how a tile is turned into each.

use vstd::prelude::*;
use crate::positioning::{LogicalPos, RotateAngle, SideLength};
use crate::wall::Wall;

verus! {

/// A corner of the board. Tiles are drawn for the top-left corner and are
/// turned about the centre of the board to fill the others.
#[derive(Debug, Clone, Copy, PartialEq, Eq, Structural)]
pub enum Border {
    TopLeft,
    TopRight,
    BottomLeft,
    BottomRight,
}

impl Border {
    /// The rotation that carries the top-left corner onto this one.
    pub open spec fn turn(self) -> RotateAngle {
        match self {
            Border::TopLeft => RotateAngle::NoTurn,
            Border::TopRight => RotateAngle::TurnRight,
            Border::BottomLeft => RotateAngle::HalfTurn,
            Border::BottomRight => RotateAngle::TurnLeft,
        }
    }

    /// The corner onto which `turn` carries the top-left corner.
    pub open spec fn reached_by(turn: RotateAngle) -> Border {
        match turn {
            RotateAngle::NoTurn => Border::TopLeft,
            RotateAngle::TurnRight => Border::TopRight,
            RotateAngle::HalfTurn => Border::BottomLeft,
            RotateAngle::TurnLeft => Border::BottomRight,
        }
    }

    /// Where a wall drawn for the top-left corner stands once the tile is
    /// turned into this corner of a board of side `extent`.
    pub open spec fn situated(self, wall: Wall, extent: int) -> Wall {
        Wall {
            pos: wall.pos@.turned(self.turn(), extent).pos(),
            side: wall.side.rotated(self.turn()),
        }
    }

    /// The four corners, in the order in which a board is filled.
    pub fn all() -> (borders: [Border; 4])
        ensures
            borders@ == seq![
                Border::TopLeft,
                Border::TopRight,
                Border::BottomLeft,
                Border::BottomRight,
            ],
    {
        let borders = [Border::TopLeft, Border::TopRight, Border::BottomLeft, Border::BottomRight];
        assert(borders@ =~= seq![
            Border::TopLeft,
            Border::TopRight,
            Border::BottomLeft,
            Border::BottomRight,
        ]);
        borders
    }

    /// The name of the corner.
    pub fn name(&self) -> (name: String)
        ensures
            name@ == match self {
                Border::TopLeft => "top-left"@,
                Border::TopRight => "top-right"@,
                Border::BottomLeft => "bottom-left"@,
                Border::BottomRight => "bottom-right"@,
            },
    {
        match self {
            Border::TopLeft => "top-left".to_owned(),
            Border::TopRight => "top-right".to_owned(),
            Border::BottomLeft => "bottom-left".to_owned(),
            Border::BottomRight => "bottom-right".to_owned(),
        }
    }

    /// Carries a wall of a tile into this corner of a board of side
    /// `board_side`: the cell turns about the centre of the board, and the
    /// side of the wall turns with it. The top-left corner leaves every wall
    /// where it is; into the other corners only a wall on a cell of the
    /// board can be turned.
    pub fn angle(&self, wall: &Wall, board_side: &SideLength) -> (placed: Wall)
        requires
            self is TopLeft || (wall.pos.x < board_side.0 && wall.pos.y < board_side.0),
        ensures
            placed == self.situated(*wall, board_side.0 as int),
            placed.pos@ == wall.pos@.turned(self.turn(), board_side.0 as int),
            self is TopLeft ==> placed == *wall,
            wall.pos.x < board_side.0 && wall.pos.y < board_side.0 ==> placed.pos.x < board_side.0
                && placed.pos.y < board_side.0,
    {
        match self {
            Border::TopLeft => *wall,
            Border::TopRight => {
                let pos = LogicalPos { x: board_side.0 - wall.pos.y - 1, y: wall.pos.x };
                let side = wall.side.rotate(RotateAngle::TurnRight);
                Wall { pos, side }
            },
            Border::BottomLeft => {
                let pos = LogicalPos {
                    x: board_side.0 - wall.pos.x - 1,
                    y: board_side.0 - wall.pos.y - 1,
                };
                let side = wall.side.rotate(RotateAngle::HalfTurn);
                Wall { pos, side }
            },
            Border::BottomRight => {
                let pos = LogicalPos { x: wall.pos.y, y: board_side.0 - wall.pos.x - 1 };
                let side = wall.side.rotate(RotateAngle::TurnLeft);
                Wall { pos, side }
            },
        }
    }
}

/// The top-left corner leaves every wall where it is, on the board or off
/// it, whatever the side of the board: it is the corner that tiles are drawn
/// for, and it is its own inverse.
pub proof fn law_top_left_leaves_walls(wall: Wall, extent: int)
    ensures
        Border::TopLeft.situated(wall, extent) == wall,
        Border::TopLeft.situated(Border::TopLeft.situated(wall, extent), extent) == wall,
{
}

/// Corners compose as their rotations do: carrying a wall of the board into
/// one corner and then into another is carrying it into the corner of the
/// composed rotation. So carrying a wall into the top-right corner twice is
/// carrying it into the bottom-left corner once, and the corner of the
/// inverse rotation brings every wall back.
pub proof fn law_borders_compose(wall: Wall, first: Border, second: Border, extent: int)
    requires
        0 <= wall.pos.x < extent <= usize::MAX,
        0 <= wall.pos.y < extent,
    ensures
        second.situated(first.situated(wall, extent), extent) == Border::reached_by(
            first.turn().then_turn(second.turn()),
        ).situated(wall, extent),
        Border::TopRight.situated(Border::TopRight.situated(wall, extent), extent)
            == Border::BottomLeft.situated(wall, extent),
        Border::reached_by(first.turn().inverse()).situated(first.situated(wall, extent), extent)
            == wall,
{
}

} // verus!
