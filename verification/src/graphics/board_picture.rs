//! How a cell of the board is drawn: which pictures are laid on it, in
//! which order, and how each is turned and mirrored.

use vstd::prelude::*;
use crate::graphics::sprite::SpriteId;
use crate::moves::MovePossibility;
use crate::positioning::{Cell, FlipAxis, LogicalPos, RotateAngle};

verus! {

/// One picture laid on a cell, turned by `rotation` and mirrored by `flip`.
#[derive(Debug, Clone, Copy, PartialEq, Eq, Structural)]
pub struct Stamp {
    pub sprite: SpriteId,
    pub rotation: RotateAngle,
    pub flip: FlipAxis,
}

/// The picture `sprite` turned by `rotation`, not mirrored.
pub open spec fn turned(sprite: SpriteId, rotation: RotateAngle) -> Stamp {
    Stamp { sprite, rotation, flip: FlipAxis::NoFlip }
}

/// The moves that decide which walls are drawn: those of the cell, with
/// every side on the edge of the board counted as open unless walls are
/// drawn on the edge.
pub open spec fn drawn_moves(
    moves: MovePossibility,
    cell: Cell,
    side: int,
    draw_walls_on_edge: bool,
) -> MovePossibility {
    if draw_walls_on_edge {
        moves
    } else {
        MovePossibility {
            up: moves.up || cell.y == 0,
            down: moves.down || cell.y + 1 == side,
            left: moves.left || cell.x == 0,
            right: moves.right || cell.x + 1 == side,
            forbidden: moves.forbidden,
        }
    }
}

/// `stamps` with `stamp` after them if `wanted`, and alone if not.
pub open spec fn and_if(stamps: Seq<Stamp>, wanted: bool, stamp: Stamp) -> Seq<Stamp> {
    if wanted {
        stamps.push(stamp)
    } else {
        stamps
    }
}

/// The pictures laid on the cell `cell` of a board of side `side`, bottom
/// first. A forbidden cell is one picture. Any other cell has its floor,
/// mirrored on every second cell as on a chessboard; then a wall on each
/// closed side, left, right, up, down; then a post in each corner that
/// touches a closed side.
pub open spec fn stamps_of(
    moves: MovePossibility,
    cell: Cell,
    side: int,
    draw_walls_on_edge: bool,
) -> Seq<Stamp> {
    if moves.forbidden {
        seq![turned(SpriteId::ForbiddenCell, RotateAngle::NoTurn)]
    } else {
        let shown = drawn_moves(moves, cell, side, draw_walls_on_edge);
        let floor = seq![
            Stamp {
                sprite: SpriteId::CellBackground,
                rotation: RotateAngle::NoTurn,
                flip: if (cell.x + cell.y) % 2 == 0 {
                    FlipAxis::NoFlip
                } else {
                    FlipAxis::FlipHorizontal
                },
            },
        ];
        let left = and_if(floor, !shown.left, turned(SpriteId::SideWall, RotateAngle::TurnRight));
        let right = and_if(left, !shown.right, turned(SpriteId::SideWall, RotateAngle::TurnLeft));
        let up = and_if(right, !shown.up, turned(SpriteId::SideWall, RotateAngle::NoTurn));
        let down = and_if(up, !shown.down, turned(SpriteId::SideWall, RotateAngle::HalfTurn));
        let top_left = and_if(
            down,
            !shown.up || !shown.left,
            turned(SpriteId::CornerWall, RotateAngle::NoTurn),
        );
        let top_right = and_if(
            top_left,
            !shown.up || !shown.right,
            turned(SpriteId::CornerWall, RotateAngle::TurnLeft),
        );
        let down_left = and_if(
            top_right,
            !shown.down || !shown.left,
            turned(SpriteId::CornerWall, RotateAngle::TurnRight),
        );
        and_if(
            down_left,
            !shown.down || !shown.right,
            turned(SpriteId::CornerWall, RotateAngle::HalfTurn),
        )
    }
}

/// The pictures to lay on the cell `pos` of a board of side `side`, from
/// which `moves` can be made, bottom first.
pub fn cell_stamps(
    moves: MovePossibility,
    pos: LogicalPos,
    side: usize,
    draw_walls_on_edge: bool,
) -> (stamps: Vec<Stamp>)
    ensures
        stamps@ == stamps_of(moves, pos@, side as int, draw_walls_on_edge),
{
    let mut stamps: Vec<Stamp> = Vec::new();
    if moves.forbidden {
        stamps.push(
            Stamp {
                sprite: SpriteId::ForbiddenCell,
                rotation: RotateAngle::NoTurn,
                flip: FlipAxis::NoFlip,
            },
        );
        assert(stamps@ =~= stamps_of(moves, pos@, side as int, draw_walls_on_edge));
        return stamps;
    }
    let mut moves = moves;
    // Unless walls are drawn on the edge, a side on the edge is drawn as if
    // it were open.
    if !draw_walls_on_edge {
        moves.up = moves.up || pos.y == 0;
        moves.down = moves.down || (side > 0 && pos.y == side - 1);
        moves.left = moves.left || pos.x == 0;
        moves.right = moves.right || (side > 0 && pos.x == side - 1);
    }
    let flip = if (pos.x % 2 == 0) == (pos.y % 2 == 0) {
        FlipAxis::NoFlip
    } else {
        FlipAxis::FlipHorizontal
    };
    stamps.push(Stamp { sprite: SpriteId::CellBackground, rotation: RotateAngle::NoTurn, flip });
    if !moves.left {
        stamps.push(wall_stamp(SpriteId::SideWall, RotateAngle::TurnRight));
    }
    if !moves.right {
        stamps.push(wall_stamp(SpriteId::SideWall, RotateAngle::TurnLeft));
    }
    if !moves.up {
        stamps.push(wall_stamp(SpriteId::SideWall, RotateAngle::NoTurn));
    }
    if !moves.down {
        stamps.push(wall_stamp(SpriteId::SideWall, RotateAngle::HalfTurn));
    }
    let top_left = !moves.up || !moves.left;
    let top_right = !moves.up || !moves.right;
    let down_left = !moves.down || !moves.left;
    let down_right = !moves.down || !moves.right;
    if top_left {
        stamps.push(wall_stamp(SpriteId::CornerWall, RotateAngle::NoTurn));
    }
    if top_right {
        stamps.push(wall_stamp(SpriteId::CornerWall, RotateAngle::TurnLeft));
    }
    if down_left {
        stamps.push(wall_stamp(SpriteId::CornerWall, RotateAngle::TurnRight));
    }
    if down_right {
        stamps.push(wall_stamp(SpriteId::CornerWall, RotateAngle::HalfTurn));
    }
    assert(stamps@ =~= stamps_of(moves, pos@, side as int, draw_walls_on_edge));
    stamps
}

/// The picture `sprite` turned by `rotation`, not mirrored.
fn wall_stamp(sprite: SpriteId, rotation: RotateAngle) -> (stamp: Stamp)
    ensures
        stamp == turned(sprite, rotation),
{
    Stamp { sprite, rotation, flip: FlipAxis::NoFlip }
}

} // verus!
