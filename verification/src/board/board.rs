//! What every board can be asked, and what can be done to one while it is
//! built.

use vstd::prelude::*;
use crate::board::error::BoardError;
use crate::board::plan::BoardView;
use crate::moves::MovePossibility;
use crate::positioning::{Cell, Hit, LogicalPos, SideLength, Way};
use crate::wall::{Side, Wall};

verus! {

/// The error for a position that is not on a board of side `side`.
pub open spec fn out_of_board(pos: LogicalPos, side: nat) -> BoardError {
    BoardError::OutOfBoardPosition { pos, side_length: SideLength(side as usize) }
}

/// The hit of a slide of `steps` steps from `start` in direction `way`.
pub open spec fn hit_after(hit: Hit, start: Cell, way: Way, steps: int) -> bool {
    hit.distance == steps && hit.pos@ == start.step(way, steps)
}

/// A square board that can be asked where a robot may go.
pub trait Board: Sized {
    /// The plan of the board.
    spec fn view(&self) -> BoardView;

    /// What must hold of the store behind the plan. Every board that this
    /// crate hands out is well formed, and every operation keeps it so.
    spec fn wf(&self) -> bool;

    /// A well-formed board is small enough for every distance on it to be
    /// held in an `isize`.
    proof fn lemma_side_fits(&self)
        requires
            self.wf(),
        ensures
            self@.side <= isize::MAX,
    ;

    /// Number of cells on one side of the board.
    fn side_length(&self) -> (side: SideLength)
        requires
            self.wf(),
        ensures
            side.0 == self@.side,
            side.0 <= isize::MAX,
    ;

    /// Whether `pos` is a cell of the board.
    fn pos_exists(&self, pos: &LogicalPos) -> (found: bool)
        requires
            self.wf(),
        ensures
            found == self@.contains(pos@),
    {
        let side = self.side_length().0;
        pos.x < side && pos.y < side
    }

    /// Whether a robot may be set down on `pos` at the start of a game: on
    /// any cell of the board that is not forbidden.
    fn is_start_pos(&self, pos: &LogicalPos) -> (start: Result<bool, BoardError>)
        requires
            self.wf(),
        ensures
            self@.contains(pos@) ==> start == Ok::<bool, BoardError>(!self@.moves(pos@).forbidden),
            !self@.contains(pos@) ==> start == Err::<bool, BoardError>(
                out_of_board(*pos, self@.side),
            ),
    {
        match self.moves_from(pos) {
            Ok(moves) => Ok(!moves.forbidden),
            Err(error) => Err(error),
        }
    }

    /// The directions in which the cell `start` can be left.
    fn moves_from(&self, start: &LogicalPos) -> (moves: Result<MovePossibility, BoardError>)
        requires
            self.wf(),
        ensures
            self@.contains(start@) ==> moves == Ok::<MovePossibility, BoardError>(
                self@.moves(start@),
            ),
            !self@.contains(start@) ==> moves == Err::<MovePossibility, BoardError>(
                out_of_board(*start, self@.side),
            ),
    ;

    /// Where a robot that slides from `start` in direction `way` is stopped
    /// by a wall or by the edge of the board, other robots set aside. The
    /// stop is a cell of the board in line with `start`, and never farther
    /// than the edge.
    fn hit_from(&self, start: &LogicalPos, way: Way) -> (hit: Result<Hit, BoardError>)
        requires
            self.wf(),
        ensures
            self@.contains(start@) ==> (hit matches Ok(end) && hit_after(
                end,
                start@,
                way,
                self@.run(Set::empty(), start@, way) as int,
            )),
            self@.contains(start@) ==> (hit matches Ok(end) && self@.contains(end.pos@)
                && start@.in_line(end.pos@, way) && 0 <= end.distance <= self@.room(start@, way)),
            !self@.contains(start@) ==> hit == Err::<Hit, BoardError>(
                out_of_board(*start, self@.side),
            ),
    ;

    /// Where a robot that slides from `start` in direction `way` would leave
    /// the board, walls set aside.
    fn side_hit(&self, start: &LogicalPos, way: Way) -> (hit: Result<Hit, BoardError>)
        requires
            self.wf(),
        ensures
            self@.contains(start@) ==> (hit matches Ok(end) && hit_after(
                end,
                start@,
                way,
                self@.room(start@, way),
            )),
            !self@.contains(start@) ==> hit == Err::<Hit, BoardError>(
                out_of_board(*start, self@.side),
            ),
    {
        match self.if_exists(start) {
            Err(error) => Err(error),
            Ok(()) => {
                let side = self.side_length().0;
                let pos = match way {
                    Way::Up => LogicalPos { x: start.x, y: 0 },
                    Way::Down => LogicalPos { x: start.x, y: side - 1 },
                    Way::Left => LogicalPos { x: 0, y: start.y },
                    Way::Right => LogicalPos { x: side - 1, y: start.y },
                };
                let distance = start.distance_to(&pos, way);
                Ok(Hit { pos, distance })
            },
        }
    }

    /// The error that says that `pos` is not on this board.
    fn oob_error(&self, pos: LogicalPos) -> (error: BoardError)
        requires
            self.wf(),
        ensures
            error == out_of_board(pos, self@.side),
    {
        let side_length = self.side_length();
        BoardError::OutOfBoardPosition { pos, side_length }
    }

    /// Passes for a cell of the board, and fails for any other position.
    fn if_exists(&self, pos: &LogicalPos) -> (found: Result<(), BoardError>)
        requires
            self.wf(),
        ensures
            self@.contains(pos@) ==> found == Ok::<(), BoardError>(()),
            !self@.contains(pos@) ==> found == Err::<(), BoardError>(
                out_of_board(*pos, self@.side),
            ),
    {
        if self.pos_exists(pos) {
            Ok(())
        } else {
            Err(self.oob_error(*pos))
        }
    }
}

impl BoardView {
    /// The board with walls on all four sides of `cell`, as far as they are
    /// not on the edge of the board.
    pub open spec fn with_forbidden(self, cell: LogicalPos) -> BoardView {
        self.with_wall(Wall { pos: cell, side: Side::Up }).with_wall(
            Wall { pos: cell, side: Side::Down },
        ).with_wall(Wall { pos: cell, side: Side::Left }).with_wall(
            Wall { pos: cell, side: Side::Right },
        )
    }
}

impl BoardView {
    /// The board with every cell of `cells` forbidden.
    pub open spec fn with_all_forbidden(self, cells: Seq<LogicalPos>) -> BoardView
        decreases cells.len(),
    {
        if cells.len() == 0 {
            self
        } else {
            self.with_all_forbidden(cells.drop_last()).with_forbidden(cells.last())
        }
    }

    /// The board that has the walls of both boards.
    pub open spec fn union(self, other: BoardView) -> BoardView {
        BoardView {
            side: self.side,
            east: self.east.union(other.east),
            south: self.south.union(other.south),
        }
    }
}

/// A board that can be built: emptied, and given walls.
pub trait EditableBoard: Board {
    /// Makes the board an empty one of side `side_length`, which must be 2
    /// at least. A side that no `isize` can hold is not asked for.
    fn reset(&mut self, side_length: &SideLength) -> (done: Result<(), BoardError>)
        requires
            side_length.0 <= isize::MAX,
        ensures
            side_length.0 >= 2 ==> {
                &&& done == Ok::<(), BoardError>(())
                &&& final(self).wf()
                &&& final(self)@ == BoardView::empty(side_length.0 as nat)
            },
            side_length.0 < 2 ==> {
                &&& done == Err::<(), BoardError>(BoardError::InvalidDimensionToBuildBoard)
                &&& *final(self) == *old(self)
            },
    ;

    /// Puts up `wall`. The wall then closes the step across it from both of
    /// its sides.
    fn put_wall(&mut self, wall: &Wall) -> (done: Result<(), BoardError>)
        requires
            old(self).wf(),
        ensures
            final(self).wf(),
            old(self)@.contains(wall.pos@) ==> {
                &&& done == Ok::<(), BoardError>(())
                &&& final(self)@ == old(self)@.with_wall(*wall)
            },
            !old(self)@.contains(wall.pos@) ==> {
                &&& done == Err::<(), BoardError>(out_of_board(wall.pos, old(self)@.side))
                &&& final(self)@ == old(self)@
            },
    ;

    /// Closes `pos` on all four sides, by a wall on each neighbour that the
    /// cell has.
    fn forbid_cell(&mut self, pos: &LogicalPos) -> (done: Result<(), BoardError>)
        requires
            old(self).wf(),
        ensures
            final(self).wf(),
            old(self)@.contains(pos@) ==> {
                &&& done == Ok::<(), BoardError>(())
                &&& final(self)@ == old(self)@.with_forbidden(*pos)
            },
            !old(self)@.contains(pos@) ==> {
                &&& done == Err::<(), BoardError>(out_of_board(*pos, old(self)@.side))
                &&& final(self)@ == old(self)@
            },
    {
        match self.if_exists(pos) {
            Err(error) => {
                return Err(error);
            },
            Ok(()) => {},
        }
        let side = self.side_length().0;
        let ghost before = self@;
        if pos.y > 0 {
            let top_pos = LogicalPos { x: pos.x, y: pos.y - 1 };
            self.put_wall(&Wall { pos: top_pos, side: Side::Down })?;
        }
        assert(self@ =~~= before.with_wall(Wall { pos: *pos, side: Side::Up }));
        let ghost before = self@;
        if pos.y + 1 < side {
            let bottom_pos = LogicalPos { x: pos.x, y: pos.y + 1 };
            self.put_wall(&Wall { pos: bottom_pos, side: Side::Up })?;
        }
        assert(self@ =~~= before.with_wall(Wall { pos: *pos, side: Side::Down }));
        let ghost before = self@;
        if pos.x > 0 {
            let left_pos = LogicalPos { x: pos.x - 1, y: pos.y };
            self.put_wall(&Wall { pos: left_pos, side: Side::Right })?;
        }
        assert(self@ =~~= before.with_wall(Wall { pos: *pos, side: Side::Left }));
        let ghost before = self@;
        if pos.x + 1 < side {
            let right_pos = LogicalPos { x: pos.x + 1, y: pos.y };
            self.put_wall(&Wall { pos: right_pos, side: Side::Left })?;
        }
        assert(self@ =~~= before.with_wall(Wall { pos: *pos, side: Side::Right }));
        Ok(())
    }
}

/// A forbidden cell cannot be left in any direction, nor entered from any
/// neighbour, and no robot may start on it.
pub proof fn law_forbidden_cell_is_closed(board: BoardView, cell: LogicalPos, way: Way)
    ensures
        board.with_forbidden(cell).moves(cell@).forbidden,
        !board.with_forbidden(cell).can_step(cell@, way),
        !board.with_forbidden(cell).can_step(cell@.step(way.opposite(), 1), way),
        board.with_forbidden(cell).side == board.side,
{
}

} // verus!
