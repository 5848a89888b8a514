//! A board that keeps, for every row and every column, the list of its
//! walls. Small and quick where walls are few.

use vstd::prelude::*;
use crate::board::board::{out_of_board, Board, EditableBoard};
use crate::board::error::BoardError;
use crate::board::plan::{law_run_counts_free_steps, lemma_first_stop, BoardView};
use crate::moves::MovePossibility;
use crate::positioning::{Cell, Hit, LogicalPos, SideLength, Way};
use crate::wall::{Side, Wall};

verus! {

/// Whether the list `walls` holds the value `at`.
pub open spec fn holds(walls: Seq<usize>, at: int) -> bool {
    exists|i: int| 0 <= i < walls.len() && #[trigger] walls[i] == at
}

/// Whether `walls` grows strictly from each value to the next, so that no
/// value stands in it twice.
pub open spec fn ascending(walls: Seq<usize>) -> bool {
    forall|i: int, j: int| 0 <= i < j < walls.len() ==> walls[i] < walls[j]
}

/// A board stored as sorted lists of walls without repeats, one list for
/// each row and one for each column.
#[derive(Debug)]
pub struct BoardByIndirectTable {
    /// For each row, the columns of the cells with a wall on their right.
    walls_to_move_on_x: Vec<Vec<usize>>,
    /// For each column, the rows of the cells with a wall below them.
    walls_to_move_on_y: Vec<Vec<usize>>,
}

/// Whether `walls` holds `at`.
fn has_wall(walls: &Vec<usize>, at: usize) -> (found: bool)
    ensures
        found == holds(walls@, at as int),
{
    let mut i: usize = 0;
    while i < walls.len()
        invariant
            i <= walls@.len(),
            forall|j: int| 0 <= j < i ==> walls@[j] != at,
        decreases walls@.len() - i,
    {
        if walls[i] == at {
            return true;
        }
        i += 1;
    }
    false
}

/// The largest wall of `walls` below `bound`.
fn last_below(walls: &Vec<usize>, bound: usize) -> (found: Option<usize>)
    ensures
        match found {
            Some(wall) => {
                &&& holds(walls@, wall as int)
                &&& wall < bound
                &&& forall|v: int| wall < v < bound ==> !holds(walls@, v)
            },
            None => forall|v: int| v < bound ==> !holds(walls@, v),
        },
{
    let mut best: Option<usize> = None;
    let mut i: usize = 0;
    while i < walls.len()
        invariant
            i <= walls@.len(),
            match best {
                Some(wall) => {
                    &&& holds(walls@, wall as int)
                    &&& wall < bound
                    &&& forall|j: int| 0 <= j < i && walls@[j] < bound ==> walls@[j] <= wall
                },
                None => forall|j: int| 0 <= j < i ==> walls@[j] >= bound,
            },
        decreases walls@.len() - i,
    {
        let wall = walls[i];
        if wall < bound {
            let better = match best {
                Some(so_far) => wall > so_far,
                None => true,
            };
            if better {
                best = Some(wall);
            }
        }
        i += 1;
    }
    best
}

/// The smallest wall of `walls` that is not below `bound`.
fn first_from(walls: &Vec<usize>, bound: usize) -> (found: Option<usize>)
    ensures
        match found {
            Some(wall) => {
                &&& holds(walls@, wall as int)
                &&& wall >= bound
                &&& forall|v: int| bound <= v < wall ==> !holds(walls@, v)
            },
            None => forall|v: int| bound <= v ==> !holds(walls@, v),
        },
{
    let mut best: Option<usize> = None;
    let mut i: usize = 0;
    while i < walls.len()
        invariant
            i <= walls@.len(),
            match best {
                Some(wall) => {
                    &&& holds(walls@, wall as int)
                    &&& wall >= bound
                    &&& forall|j: int| 0 <= j < i && walls@[j] >= bound ==> walls@[j] >= wall
                },
                None => forall|j: int| 0 <= j < i ==> walls@[j] < bound,
            },
        decreases walls@.len() - i,
    {
        let wall = walls[i];
        if wall >= bound {
            let better = match best {
                Some(so_far) => wall < so_far,
                None => true,
            };
            if better {
                best = Some(wall);
            }
        }
        i += 1;
    }
    best
}

/// Puts `wall` in its place in the sorted list `walls`, unless it is there
/// already.
fn insert_wall(walls: &mut Vec<usize>, wall: usize)
    requires
        ascending(old(walls)@),
    ensures
        ascending(final(walls)@),
        forall|v: int| holds(final(walls)@, v) <==> holds(old(walls)@, v) || v == wall,
        forall|i: int|
            0 <= i < final(walls)@.len() ==> holds(old(walls)@, #[trigger] final(walls)@[i] as int)
                || final(walls)@[i] == wall,
        holds(old(walls)@, wall as int) ==> final(walls)@ == old(walls)@,
{
    let mut i: usize = 0;
    while i < walls.len() && walls[i] < wall
        invariant
            i <= walls@.len(),
            walls@ == old(walls)@,
            forall|j: int| 0 <= j < i ==> walls@[j] < wall,
        decreases walls@.len() - i,
    {
        i += 1;
    }
    if i < walls.len() && walls[i] == wall {
        return ;
    }
    let ghost before = walls@;
    walls.insert(i, wall);
    proof {
        let after = walls@;
        assert(after[i as int] == wall);
        assert forall|v: int| holds(after, v) <==> holds(before, v) || v == wall by {
            if holds(before, v) {
                let k = choose|k: int| 0 <= k < before.len() && #[trigger] before[k] == v;
                if k < i {
                    assert(after[k] == v);
                } else {
                    assert(after[k + 1] == v);
                }
            }
            if holds(after, v) && v != wall {
                let k = choose|k: int| 0 <= k < after.len() && #[trigger] after[k] == v;
                if k < i {
                    assert(before[k] == v);
                } else {
                    assert(before[k - 1] == v);
                }
            }
        }
        if holds(before, wall as int) {
            let k = choose|k: int| 0 <= k < before.len() && #[trigger] before[k] == wall;
            assert(false);
        }
    }
}

/// A list of `count` empty lists.
fn empty_lists(count: usize) -> (lists: Vec<Vec<usize>>)
    ensures
        lists@.len() == count,
        forall|i: int| 0 <= i < count ==> (#[trigger] lists@[i])@.len() == 0,
{
    let mut lists: Vec<Vec<usize>> = Vec::new();
    let mut i: usize = 0;
    while i < count
        invariant
            i <= count,
            lists@.len() == i,
            forall|j: int| 0 <= j < i ==> (#[trigger] lists@[j])@.len() == 0,
        decreases count - i,
    {
        lists.push(Vec::new());
        i += 1;
    }
    lists
}

impl BoardByIndirectTable {
    /// A board without cells, to be `reset` to its size.
    pub fn new() -> (board: BoardByIndirectTable)
        ensures
            board.wf(),
            board@ == BoardView::empty(0),
    {
        let walls_to_move_on_x = Vec::new();
        let walls_to_move_on_y = Vec::new();
        let board = BoardByIndirectTable { walls_to_move_on_x, walls_to_move_on_y };
        assert(board@ =~~= BoardView::empty(0));
        board
    }

    /// The walls of column `x`.
    fn column_at(&self, x: usize) -> (column: Result<&Vec<usize>, BoardError>)
        requires
            self.wf(),
        ensures
            x < self@.side ==> column == Ok::<&Vec<usize>, BoardError>(
                &self.walls_to_move_on_y@[x as int],
            ),
            x >= self@.side ==> column == Err::<&Vec<usize>, BoardError>(
                out_of_board(LogicalPos { x, y: 0 }, self@.side),
            ),
    {
        if x < self.walls_to_move_on_y.len() {
            Ok(&self.walls_to_move_on_y[x])
        } else {
            Err(self.oob_error(LogicalPos { x, y: 0 }))
        }
    }

    /// The walls of row `y`.
    fn row_at(&self, y: usize) -> (row: Result<&Vec<usize>, BoardError>)
        requires
            self.wf(),
        ensures
            y < self@.side ==> row == Ok::<&Vec<usize>, BoardError>(
                &self.walls_to_move_on_x@[y as int],
            ),
            y >= self@.side ==> row == Err::<&Vec<usize>, BoardError>(
                out_of_board(LogicalPos { x: 0, y }, self@.side),
            ),
    {
        if y < self.walls_to_move_on_x.len() {
            Ok(&self.walls_to_move_on_x[y])
        } else {
            Err(self.oob_error(LogicalPos { x: 0, y }))
        }
    }

    /// The walls of column `x`, to be added to.
    fn mut_column_at(&mut self, x: usize) -> (column: Result<&mut Vec<usize>, BoardError>)
        requires
            old(self).wf(),
        ensures
            match column {
                Ok(walls) => {
                    &&& x < old(self)@.side
                    &&& *walls == old(self).walls_to_move_on_y@[x as int]
                    &&& final(self).walls_to_move_on_y@ == old(self).walls_to_move_on_y@.update(
                        x as int,
                        *final(walls),
                    )
                    &&& final(self).walls_to_move_on_x == old(self).walls_to_move_on_x
                },
                Err(error) => {
                    &&& x >= old(self)@.side
                    &&& error == out_of_board(LogicalPos { x, y: 0 }, old(self)@.side)
                    &&& *final(self) == *old(self)
                },
            },
    {
        if x < self.walls_to_move_on_y.len() {
            Ok(&mut self.walls_to_move_on_y[x])
        } else {
            Err(self.oob_error(LogicalPos { x, y: 0 }))
        }
    }

    /// The walls of row `y`, to be added to.
    fn mut_row_at(&mut self, y: usize) -> (row: Result<&mut Vec<usize>, BoardError>)
        requires
            old(self).wf(),
        ensures
            match row {
                Ok(walls) => {
                    &&& y < old(self)@.side
                    &&& *walls == old(self).walls_to_move_on_x@[y as int]
                    &&& final(self).walls_to_move_on_x@ == old(self).walls_to_move_on_x@.update(
                        y as int,
                        *final(walls),
                    )
                    &&& final(self).walls_to_move_on_y == old(self).walls_to_move_on_y
                },
                Err(error) => {
                    &&& y >= old(self)@.side
                    &&& error == out_of_board(LogicalPos { x: 0, y }, old(self)@.side)
                    &&& *final(self) == *old(self)
                },
            },
    {
        if y < self.walls_to_move_on_x.len() {
            Ok(&mut self.walls_to_move_on_x[y])
        } else {
            Err(self.oob_error(LogicalPos { x: 0, y }))
        }
    }

    /// Number of rows.
    fn row_count(&self) -> (count: usize)
        ensures
            count == self.walls_to_move_on_x@.len(),
    {
        self.walls_to_move_on_x.len()
    }

    /// Number of columns.
    fn column_count(&self) -> (count: usize)
        ensures
            count == self.walls_to_move_on_y@.len(),
    {
        self.walls_to_move_on_y.len()
    }
}

impl Board for BoardByIndirectTable {
    closed spec fn view(&self) -> BoardView {
        BoardView {
            side: self.walls_to_move_on_x@.len(),
            east: Set::new(
                |cell: Cell|
                    0 <= cell.y < self.walls_to_move_on_x@.len() && holds(
                        self.walls_to_move_on_x@[cell.y]@,
                        cell.x,
                    ),
            ),
            south: Set::new(
                |cell: Cell|
                    0 <= cell.x < self.walls_to_move_on_y@.len() && holds(
                        self.walls_to_move_on_y@[cell.x]@,
                        cell.y,
                    ),
            ),
        }
    }

    closed spec fn wf(&self) -> bool {
        &&& self.walls_to_move_on_x@.len() == self.walls_to_move_on_y@.len()
        &&& self.walls_to_move_on_x@.len() <= isize::MAX
        &&& forall|y: int, i: int|
            0 <= y < self.walls_to_move_on_x@.len() && 0 <= i < self.walls_to_move_on_x@[y]@.len()
                ==> #[trigger] self.walls_to_move_on_x@[y]@[i] + 1 < self.walls_to_move_on_x@.len()
        &&& forall|x: int, i: int|
            0 <= x < self.walls_to_move_on_y@.len() && 0 <= i < self.walls_to_move_on_y@[x]@.len()
                ==> #[trigger] self.walls_to_move_on_y@[x]@[i] + 1 < self.walls_to_move_on_y@.len()
        &&& forall|y: int|
            0 <= y < self.walls_to_move_on_x@.len() ==> ascending(
                (#[trigger] self.walls_to_move_on_x@[y])@,
            )
        &&& forall|x: int|
            0 <= x < self.walls_to_move_on_y@.len() ==> ascending(
                (#[trigger] self.walls_to_move_on_y@[x])@,
            )
    }

    proof fn lemma_side_fits(&self) {
    }

    fn side_length(&self) -> (side: SideLength) {
        SideLength(self.row_count())
    }

    fn moves_from(&self, start: &LogicalPos) -> (moves: Result<MovePossibility, BoardError>) {
        if !self.pos_exists(start) {
            return Err(self.oob_error(*start));
        }
        let mut moves = MovePossibility::none();
        {
            let row = self.row_at(start.y)?;
            moves.left = start.x > 0 && !has_wall(row, start.x - 1);
            moves.right = start.x + 1 < self.column_count() && !has_wall(row, start.x);
        }
        {
            let column = self.column_at(start.x)?;
            moves.up = start.y > 0 && !has_wall(column, start.y - 1);
            moves.down = start.y + 1 < self.row_count() && !has_wall(column, start.y);
        }
        moves.forbidden = !(moves.left || moves.right || moves.up || moves.down);
        Ok(moves)
    }

    fn hit_from(&self, start: &LogicalPos, way: Way) -> (hit: Result<Hit, BoardError>) {
        let edge = self.side_hit(start, way)?;
        let wall_pos = match way {
            Way::Up => {
                match last_below(self.column_at(start.x)?, start.y) {
                    Some(wall) => Some(LogicalPos { x: start.x, y: wall + 1 }),
                    None => None,
                }
            },
            Way::Down => {
                match first_from(self.column_at(start.x)?, start.y) {
                    Some(wall) => Some(LogicalPos { x: start.x, y: wall }),
                    None => None,
                }
            },
            Way::Left => {
                match last_below(self.row_at(start.y)?, start.x) {
                    Some(wall) => Some(LogicalPos { x: wall + 1, y: start.y }),
                    None => None,
                }
            },
            Way::Right => {
                match first_from(self.row_at(start.y)?, start.x) {
                    Some(wall) => Some(LogicalPos { x: wall, y: start.y }),
                    None => None,
                }
            },
        };
        let end = match wall_pos {
            Some(pos) => {
                let distance = start.distance_to(&pos, way);
                Hit { pos, distance }
            },
            None => edge,
        };
        proof {
            let steps = end.distance as int;
            assert forall|k: int| 0 <= k < steps implies self@.passes(
                Set::empty(),
                #[trigger] start@.step(way, k),
                way,
            ) by {}
            lemma_first_stop(self@, Set::empty(), start@, way, steps);
            law_run_counts_free_steps(self@, Set::empty(), start@, way);
        }
        Ok(end)
    }
}

impl EditableBoard for BoardByIndirectTable {
    fn reset(&mut self, side_length: &SideLength) -> (done: Result<(), BoardError>) {
        let side = side_length.0;
        if side >= 2 {
            self.walls_to_move_on_x = empty_lists(side);
            self.walls_to_move_on_y = empty_lists(side);
            assert(self@ =~~= BoardView::empty(side as nat));
            Ok(())
        } else {
            Err(BoardError::InvalidDimensionToBuildBoard)
        }
    }

    fn put_wall(&mut self, wall: &Wall) -> (done: Result<(), BoardError>) {
        self.if_exists(&wall.pos)?;
        let ghost before = *self;
        match wall.side {
            Side::Up => {
                if wall.pos.y != 0 {
                    let added = wall.pos.y - 1;
                    insert_wall(self.mut_column_at(wall.pos.x)?, added);
                }
            },
            Side::Down => {
                if wall.pos.y + 1 != self.row_count() {
                    let added = wall.pos.y;
                    insert_wall(self.mut_column_at(wall.pos.x)?, added);
                }
            },
            Side::Left => {
                if wall.pos.x != 0 {
                    let added = wall.pos.x - 1;
                    insert_wall(self.mut_row_at(wall.pos.y)?, added);
                }
            },
            Side::Right => {
                if wall.pos.x + 1 != self.column_count() {
                    let added = wall.pos.x;
                    insert_wall(self.mut_row_at(wall.pos.y)?, added);
                }
            },
        }
        assert(self@ =~~= before@.with_wall(*wall));
        Ok(())
    }
}

} // verus!
