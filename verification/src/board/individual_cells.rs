//! A board that keeps, for each cell that a wall touches, what can be done
//! from it. Every wall is written on both cells that it parts.

use std::collections::HashMap;
use vstd::prelude::*;
use vstd::std_specs::hash::group_hash_axioms;
use crate::board::board::{hit_after, Board, EditableBoard};
use crate::board::error::BoardError;
use crate::board::plan::{
    law_run_counts_free_steps, law_steps_open_both_ways, lemma_first_stop, BoardView,
};
use crate::moves::MovePossibility;
use crate::positioning::{Cell, Hit, LogicalPos, RotateAngle, SideLength, Way};
use crate::wall::{Side, Wall};

verus! {

/// The number under which the cell `(x, y)` is stored: `y` in the upper 64
/// bits and `x` in the lower.
pub open spec fn cell_key(cell: Cell) -> int {
    cell.y * 0x1_0000_0000_0000_0000 + cell.x
}

/// Whether both coordinates of `cell` fit in 64 bits, as those of every
/// position do.
pub open spec fn storable(cell: Cell) -> bool {
    0 <= cell.x < 0x1_0000_0000_0000_0000 && 0 <= cell.y < 0x1_0000_0000_0000_0000
}

/// The number under which `pos` is stored.
fn key_of(pos: &LogicalPos) -> (key: u128)
    ensures
        key == cell_key(pos@),
        storable(pos@),
{
    (pos.y as u128) * 0x1_0000_0000_0000_0000u128 + (pos.x as u128)
}

/// A board stored as a sparse map from cells to what can be done from them.
/// A cell that the map does not hold is open on every side.
#[derive(Debug)]
pub struct BoardByIndividualCells {
    side_length: SideLength,
    cells: HashMap<u128, MovePossibility>,
}

impl BoardByIndividualCells {
    /// A board without cells, to be `reset` to its size.
    pub fn new() -> (board: BoardByIndividualCells)
        ensures
            board.wf(),
            board@ == BoardView::empty(0),
    {
        let board = BoardByIndividualCells { side_length: SideLength(0), cells: HashMap::new() };
        assert(board@ =~~= BoardView::empty(0));
        board
    }

    /// What the map says of `cell`, edges of the board set aside.
    pub closed spec fn stored(&self, cell: Cell) -> MovePossibility {
        if self.cells@.contains_key(cell_key(cell) as u128) {
            self.cells@[cell_key(cell) as u128]
        } else {
            MovePossibility { up: true, down: true, left: true, right: true, forbidden: false }
        }
    }

    /// What the map says of `pos`.
    fn stored_at(&self, pos: &LogicalPos) -> (moves: MovePossibility)
        ensures
            moves == self.stored(pos@),
    {
        broadcast use group_hash_axioms;

        let key = key_of(pos);
        match self.cells.get(&key) {
            Some(moves) => *moves,
            None => MovePossibility::all(),
        }
    }

    /// Closes the side `way` of the cell `pos` in the map.
    fn close(&mut self, pos: &LogicalPos, way: Way)
        ensures
            forall|cell: Cell|
                storable(cell) && cell != pos@ ==> #[trigger] final(self).stored(cell) == old(
                    self,
                ).stored(cell),
            final(self).stored(pos@) == match way {
                Way::Up => MovePossibility { up: false, ..old(self).stored(pos@) },
                Way::Down => MovePossibility { down: false, ..old(self).stored(pos@) },
                Way::Left => MovePossibility { left: false, ..old(self).stored(pos@) },
                Way::Right => MovePossibility { right: false, ..old(self).stored(pos@) },
            },
            final(self).side_length == old(self).side_length,
    {
        broadcast use group_hash_axioms;

        let mut moves = self.stored_at(pos);
        match way {
            Way::Up => {
                moves.up = false;
            },
            Way::Down => {
                moves.down = false;
            },
            Way::Left => {
                moves.left = false;
            },
            Way::Right => {
                moves.right = false;
            },
        }
        let key = key_of(pos);
        self.cells.insert(key, moves);
    }
}

impl Board for BoardByIndividualCells {
    closed spec fn view(&self) -> BoardView {
        BoardView {
            side: self.side_length.0 as nat,
            east: Set::new(|cell: Cell| storable(cell) && !self.stored(cell).right),
            south: Set::new(|cell: Cell| storable(cell) && !self.stored(cell).down),
        }
    }

    closed spec fn wf(&self) -> bool {
        &&& self.side_length.0 <= isize::MAX
        &&& forall|cell: Cell, next: Cell|
            storable(cell) && storable(next) && next == cell.step(Way::Right, 1) ==> (
            #[trigger] self.stored(cell)).right == (#[trigger] self.stored(next)).left
        &&& forall|cell: Cell, next: Cell|
            storable(cell) && storable(next) && next == cell.step(Way::Down, 1) ==> (
            #[trigger] self.stored(cell)).down == (#[trigger] self.stored(next)).up
    }

    proof fn lemma_side_fits(&self) {
    }

    fn side_length(&self) -> (side: SideLength) {
        self.side_length
    }

    fn moves_from(&self, start: &LogicalPos) -> (moves: Result<MovePossibility, BoardError>) {
        match self.if_exists(start) {
            Err(error) => Err(error),
            Ok(()) => {
                let mut moves = self.stored_at(start);
                moves.up = moves.up && start.y > 0;
                moves.down = moves.down && start.y + 1 < self.side_length.0;
                moves.left = moves.left && start.x > 0;
                moves.right = moves.right && start.x + 1 < self.side_length.0;
                moves.forbidden = !(moves.left || moves.right || moves.up || moves.down);
                Ok(moves)
            },
        }
    }

    fn hit_from(&self, start: &LogicalPos, way: Way) -> (hit: Result<Hit, BoardError>) {
        let edge = self.side_hit(start, way)?;
        let back = way.rotate(RotateAngle::HalfTurn);
        // The last cell that the robot is known to reach.
        let mut reached = *start;
        match start.direct_path_to(&edge.pos) {
            None => {},
            Some(path) => {
                // The cells between `start` and the edge, and then the cell on
                // the edge: the robot enters each unless the cell is closed
                // on the side from which the robot comes.
                let mut i: usize = 0;
                while i <= path.len()
                    invariant_except_break
                        i <= path@.len() + 1,
                    invariant
                        self.wf(),
                        self@.contains(start@),
                        back == way.opposite(),
                        hit_after(edge, start@, way, self@.room(start@, way)),
                        path@.len() == self@.room(start@, way) - 1,
                        forall|j: int|
                            0 <= j < path@.len() ==> (#[trigger] path@[j])@ == start@.step(
                                way,
                                j + 1,
                            ),
                        reached@ == start@.step(way, i as int),
                        self@.contains(reached@),
                        i <= self@.room(start@, way),
                        forall|k: int|
                            0 <= k < i ==> self@.passes(
                                Set::empty(),
                                #[trigger] start@.step(way, k),
                                way,
                            ),
                    ensures
                        !self@.passes(Set::empty(), reached@, way),
                    decreases path@.len() + 1 - i,
                {
                    let cell = if i < path.len() {
                        path[i]
                    } else {
                        edge.pos
                    };
                    proof {
                        assert(cell@ == start@.step(way, i + 1));
                        assert(cell@ == reached@.step(way, 1));
                        law_steps_open_both_ways(self@, reached@, way);
                    }
                    let blocked = match self.moves_from(&cell) {
                        Err(_) => false,
                        Ok(moves) => !moves.can_go(&back),
                    };
                    if blocked {
                        break ;
                    }
                    reached = cell;
                    i += 1;
                }
            },
        }
        let distance = start.distance_to(&reached, way);
        proof {
            lemma_first_stop(self@, Set::empty(), start@, way, distance as int);
            law_run_counts_free_steps(self@, Set::empty(), start@, way);
        }
        Ok(Hit { pos: reached, distance })
    }
}

impl EditableBoard for BoardByIndividualCells {
    fn reset(&mut self, side_length: &SideLength) -> (done: Result<(), BoardError>) {
        if side_length.0 >= 2 {
            self.cells.clear();
            self.side_length = *side_length;
            assert(self@ =~~= BoardView::empty(side_length.0 as nat));
            Ok(())
        } else {
            Err(BoardError::InvalidDimensionToBuildBoard)
        }
    }

    fn put_wall(&mut self, wall: &Wall) -> (done: Result<(), BoardError>) {
        self.if_exists(&wall.pos)?;
        let ghost before = *self;
        match wall.side {
            Side::Up => {
                if wall.pos.y != 0 {
                    self.close(&wall.pos, Way::Up);
                    self.close(&LogicalPos { x: wall.pos.x, y: wall.pos.y - 1 }, Way::Down);
                }
            },
            Side::Down => {
                if wall.pos.y + 1 != self.side_length.0 {
                    self.close(&wall.pos, Way::Down);
                    self.close(&LogicalPos { x: wall.pos.x, y: wall.pos.y + 1 }, Way::Up);
                }
            },
            Side::Left => {
                if wall.pos.x != 0 {
                    self.close(&wall.pos, Way::Left);
                    self.close(&LogicalPos { x: wall.pos.x - 1, y: wall.pos.y }, Way::Right);
                }
            },
            Side::Right => {
                if wall.pos.x + 1 != self.side_length.0 {
                    self.close(&wall.pos, Way::Right);
                    self.close(&LogicalPos { x: wall.pos.x + 1, y: wall.pos.y }, Way::Left);
                }
            },
        }
        assert(self@ =~~= before@.with_wall(*wall));
        Ok(())
    }
}

} // verus!
