//! The mathematical plan of a board: its side and the walls between its
//! cells. Every contract on a board is stated over this plan.

use vstd::prelude::*;
use crate::moves::MovePossibility;
use crate::positioning::{Cell, Way};
use crate::wall::{Side, Wall};

verus! {

/// A square board of `side` cells a side. A wall between two neighbouring
/// cells is recorded once, on the left or the upper cell of the two.
#[verifier::ext_equal]
pub struct BoardView {
    pub side: nat,
    /// Cells with a wall between them and their right neighbour.
    pub east: Set<Cell>,
    /// Cells with a wall between them and the neighbour below.
    pub south: Set<Cell>,
}

impl BoardView {
    /// A board of the given side without any wall.
    pub open spec fn empty(side: nat) -> BoardView {
        BoardView { side, east: Set::empty(), south: Set::empty() }
    }

    /// Whether `cell` is one of the cells of the board.
    pub open spec fn contains(self, cell: Cell) -> bool {
        0 <= cell.x < self.side && 0 <= cell.y < self.side
    }

    /// Whether a wall stands on the side of `cell` that faces `way`.
    pub open spec fn walled(self, cell: Cell, way: Way) -> bool {
        match way {
            Way::Right => self.east.contains(cell),
            Way::Left => self.east.contains(Cell { x: cell.x - 1, y: cell.y }),
            Way::Down => self.south.contains(cell),
            Way::Up => self.south.contains(Cell { x: cell.x, y: cell.y - 1 }),
        }
    }

    /// Whether a robot on `cell` can step to the next cell in direction
    /// `way`: both cells are on the board and no wall stands between them.
    pub open spec fn can_step(self, cell: Cell, way: Way) -> bool {
        self.contains(cell) && self.contains(cell.step(way, 1)) && !self.walled(cell, way)
    }

    /// What can be done from `cell`. A cell that is closed on all four sides
    /// is forbidden.
    pub open spec fn moves(self, cell: Cell) -> MovePossibility {
        MovePossibility {
            up: self.can_step(cell, Way::Up),
            down: self.can_step(cell, Way::Down),
            left: self.can_step(cell, Way::Left),
            right: self.can_step(cell, Way::Right),
            forbidden: !self.can_step(cell, Way::Up) && !self.can_step(cell, Way::Down)
                && !self.can_step(cell, Way::Left) && !self.can_step(cell, Way::Right),
        }
    }

    /// Number of steps from `cell` to the edge of the board in direction
    /// `way`.
    pub open spec fn room(self, cell: Cell, way: Way) -> int {
        match way {
            Way::Up => cell.y,
            Way::Down => self.side - 1 - cell.y,
            Way::Left => cell.x,
            Way::Right => self.side - 1 - cell.x,
        }
    }

    /// Whether a robot sliding in direction `way` goes on from `cell`: the
    /// step is open and no occupant stands on the next cell.
    pub open spec fn passes(self, occupied: Set<Cell>, cell: Cell, way: Way) -> bool {
        self.can_step(cell, way) && !occupied.contains(cell.step(way, 1))
    }

    /// Number of steps that a robot slides from `cell` in direction `way`
    /// before a wall, the edge of the board or an occupant stops it.
    pub open spec fn run(self, occupied: Set<Cell>, cell: Cell, way: Way) -> nat
        decreases self.room(cell, way),
    {
        if self.passes(occupied, cell, way) {
            1 + self.run(occupied, cell.step(way, 1), way)
        } else {
            0
        }
    }

    /// The cell on which a slide from `cell` in direction `way` ends.
    pub open spec fn stop(self, occupied: Set<Cell>, cell: Cell, way: Way) -> Cell {
        cell.step(way, self.run(occupied, cell, way) as int)
    }

    /// The board with `wall` put up. A wall on a cell outside the board, or
    /// on a side that lies on the edge of the board, changes nothing.
    pub open spec fn with_wall(self, wall: Wall) -> BoardView {
        let cell = wall.pos@;
        let way = wall.side.facing();
        if self.contains(cell) && self.contains(cell.step(way, 1)) {
            match wall.side {
                Side::Right => BoardView { east: self.east.insert(cell), ..self },
                Side::Left => BoardView { east: self.east.insert(cell.step(way, 1)), ..self },
                Side::Down => BoardView { south: self.south.insert(cell), ..self },
                Side::Up => BoardView { south: self.south.insert(cell.step(way, 1)), ..self },
            }
        } else {
            self
        }
    }

    /// The board with every wall of `walls` put up.
    pub open spec fn with_walls(self, walls: Seq<Wall>) -> BoardView
        decreases walls.len(),
    {
        if walls.len() == 0 {
            self
        } else {
            self.with_walls(walls.drop_last()).with_wall(walls.last())
        }
    }
}

/// A slide is pinned by its first stop: if the robot goes on from each of
/// the first `steps` cells of its way and not from the next, it slides
/// exactly `steps` steps.
pub proof fn lemma_first_stop(
    board: BoardView,
    occupied: Set<Cell>,
    cell: Cell,
    way: Way,
    steps: int,
)
    requires
        0 <= steps,
        forall|k: int| 0 <= k < steps ==> board.passes(occupied, #[trigger] cell.step(way, k), way),
        !board.passes(occupied, cell.step(way, steps), way),
    ensures
        board.run(occupied, cell, way) == steps,
    decreases steps,
{
    assert(cell.step(way, 0) == cell);
    if steps > 0 {
        let next = cell.step(way, 1);
        assert forall|k: int| 0 <= k < steps - 1 implies board.passes(
            occupied,
            #[trigger] next.step(way, k),
            way,
        ) by {
            assert(next.step(way, k) == cell.step(way, k + 1));
        }
        assert(next.step(way, steps - 1) == cell.step(way, steps));
        lemma_first_stop(board, occupied, next, way, steps - 1);
    }
}

/// The length of a slide counts the free steps of its way: the robot goes
/// on from every cell before the stop, not from the stop, and never leaves
/// the board, so that the edge is at least as far as the stop.
pub proof fn law_run_counts_free_steps(
    board: BoardView,
    occupied: Set<Cell>,
    cell: Cell,
    way: Way,
)
    ensures
        forall|k: int|
            0 <= k < board.run(occupied, cell, way) ==> board.passes(
                occupied,
                #[trigger] cell.step(way, k),
                way,
            ),
        !board.passes(occupied, board.stop(occupied, cell, way), way),
        board.contains(cell) ==> board.contains(board.stop(occupied, cell, way)),
        board.contains(cell) ==> board.run(occupied, cell, way) <= board.room(cell, way),
        board.stop(occupied, cell, way).in_line(cell, way),
    decreases board.room(cell, way),
{
    assert(cell.step(way, 0) == cell);
    if board.passes(occupied, cell, way) {
        let next = cell.step(way, 1);
        law_run_counts_free_steps(board, occupied, next, way);
        let rest = board.run(occupied, next, way) as int;
        assert(next.step(way, rest) == cell.step(way, rest + 1));
        assert forall|k: int| 0 <= k < rest + 1 implies board.passes(
            occupied,
            #[trigger] cell.step(way, k),
            way,
        ) by {
            if k > 0 {
                assert(next.step(way, k - 1) == cell.step(way, k));
            }
        }
    }
}

/// Occupants and walls only ever shorten a slide: with no occupant at all
/// the robot slides at least as far, and the edge of the board is at least
/// as far again.
pub proof fn law_occupants_shorten_run(
    board: BoardView,
    occupied: Set<Cell>,
    cell: Cell,
    way: Way,
)
    ensures
        board.run(occupied, cell, way) <= board.run(Set::empty(), cell, way),
        board.contains(cell) ==> board.run(Set::empty(), cell, way) <= board.room(cell, way),
    decreases board.room(cell, way),
{
    if board.passes(occupied, cell, way) {
        law_occupants_shorten_run(board, occupied, cell.step(way, 1), way);
    }
    law_run_counts_free_steps(board, Set::empty(), cell, way);
}

/// A robot does not stand in its own way: whether the cell it starts from
/// counts as occupied makes no difference to its slide.
pub proof fn law_start_never_blocks(
    board: BoardView,
    occupied: Set<Cell>,
    cell: Cell,
    way: Way,
)
    ensures
        board.run(occupied.remove(cell), cell, way) == board.run(occupied, cell, way),
{
    law_run_counts_free_steps(board, occupied, cell, way);
    let steps = board.run(occupied, cell, way) as int;
    assert forall|k: int| 0 <= k < steps implies board.passes(
        occupied.remove(cell),
        #[trigger] cell.step(way, k),
        way,
    ) by {
        assert(board.passes(occupied, cell.step(way, k), way));
    }
    assert(cell.step(way, steps).step(way, 1) != cell);
    lemma_first_stop(board, occupied.remove(cell), cell, way, steps);
}

/// No move leads through the edge of the board: from a cell of the first
/// row there is no way up, from one of the last column no way right, and so
/// on; and from a cell outside the board there is no way at all.
pub proof fn law_moves_stop_at_edges(board: BoardView, cell: Cell)
    ensures
        cell.y == 0 ==> !board.moves(cell).up,
        cell.y == board.side - 1 ==> !board.moves(cell).down,
        cell.x == 0 ==> !board.moves(cell).left,
        cell.x == board.side - 1 ==> !board.moves(cell).right,
        !board.contains(cell) ==> board.moves(cell) == (MovePossibility {
            up: false,
            down: false,
            left: false,
            right: false,
            forbidden: true,
        }),
        board.moves(cell).forbidden == board.moves(cell).closed_in(),
{
}

/// A wall closes the step across it from both of its sides, whichever of the
/// two cells it was put on, and leaves the side of the board as it was.
pub proof fn law_wall_closes_both_sides(board: BoardView, wall: Wall)
    ensures
        !board.with_wall(wall).can_step(wall.pos@, wall.side.facing()),
        !board.with_wall(wall).can_step(
            wall.pos@.step(wall.side.facing(), 1),
            wall.side.facing().opposite(),
        ),
        board.with_wall(wall).side == board.side,
{
}

/// A step is open from one side exactly when it is open from the other.
pub proof fn law_steps_open_both_ways(board: BoardView, cell: Cell, way: Way)
    ensures
        board.can_step(cell, way) == board.can_step(cell.step(way, 1), way.opposite()),
{
    assert(cell.step(way, 1).step(way.opposite(), 1) == cell);
}

/// Putting up a wall closes steps and opens none, and a wall that stands
/// already changes nothing.
pub proof fn law_walls_only_close(board: BoardView, wall: Wall, cell: Cell, way: Way)
    ensures
        board.with_wall(wall).can_step(cell, way) ==> board.can_step(cell, way),
        board.with_wall(wall).with_wall(wall) == board.with_wall(wall),
{
    let once = board.with_wall(wall);
    assert(once.with_wall(wall).east =~= once.east);
    assert(once.with_wall(wall).south =~= once.south);
}

} // verus!
