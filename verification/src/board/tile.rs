//! Tiles: square fragments of walls and forbidden cells.

use vstd::prelude::*;
use crate::board::board::{out_of_board, EditableBoard};
use crate::board::border::Border;
use crate::board::error::BoardError;
use crate::board::plan::BoardView;
use crate::positioning::{LogicalPos, SideLength};
use crate::wall::{Side, Wall};

verus! {

/// A fragment of a board, drawn for the top-left corner: the walls it holds
/// and the cells on which no robot may stand.
#[derive(Debug, Default, Clone, PartialEq, Eq)]
pub struct Tile {
    walls: Vec<Wall>,
    forbidden: Vec<LogicalPos>,
}

/// What a tile holds, in the order in which it was written down.
pub struct TileView {
    pub walls: Seq<Wall>,
    pub forbidden: Seq<LogicalPos>,
}

impl View for Tile {
    type V = TileView;

    closed spec fn view(&self) -> TileView {
        TileView { walls: self.walls@, forbidden: self.forbidden@ }
    }
}

impl TileView {
    /// The cells that the tile speaks of: those of its walls, then the
    /// forbidden ones.
    pub open spec fn cells(self) -> Seq<LogicalPos> {
        self.walls.map_values(|wall: Wall| wall.pos) + self.forbidden
    }

    /// Whether every wall and every forbidden cell of the tile is on a cell
    /// of a square of side `side`.
    pub open spec fn lies_within(self, side: nat) -> bool {
        &&& forall|i: int|
            0 <= i < self.walls.len() ==> (#[trigger] self.walls[i]).pos.x < side
                && self.walls[i].pos.y < side
        &&& forall|i: int|
            0 <= i < self.forbidden.len() ==> (#[trigger] self.forbidden[i]).x < side
                && self.forbidden[i].y < side
    }

    /// The first among the first `upto` cells of the tile that is not on a
    /// board of side `side`.
    pub open spec fn first_outside(self, side: nat, upto: int) -> Option<LogicalPos>
        decreases upto,
    {
        if upto <= 0 {
            None
        } else {
            match self.first_outside(side, upto - 1) {
                Some(pos) => Some(pos),
                None => {
                    let pos = self.cells()[upto - 1];
                    if pos.x < side && pos.y < side {
                        None
                    } else {
                        Some(pos)
                    }
                },
            }
        }
    }

    /// The first cell of the tile that is not on a board of side `side`.
    pub open spec fn misfit(self, side: nat) -> Option<LogicalPos> {
        self.first_outside(side, self.cells().len() as int)
    }

    /// The walls of the tile, turned into the corner `border` of a board of
    /// side `side`.
    pub open spec fn walls_at(self, border: Border, side: nat) -> Seq<Wall> {
        self.walls.map_values(|wall: Wall| border.situated(wall, side as int))
    }

    /// The forbidden cells of the tile, turned into the corner `border` of a
    /// board of side `side`.
    pub open spec fn forbidden_at(self, border: Border, side: nat) -> Seq<LogicalPos> {
        self.forbidden.map_values(
            |pos: LogicalPos| border.situated(Wall { pos, side: Side::Left }, side as int).pos,
        )
    }
}

impl BoardView {
    /// The board with `tile` stamped into its corner `border`: the walls of
    /// the tile are put up, and its forbidden cells closed.
    pub open spec fn stamped(self, tile: TileView, border: Border) -> BoardView {
        self.with_walls(tile.walls_at(border, self.side)).with_all_forbidden(
            tile.forbidden_at(border, self.side),
        )
    }
}

impl Tile {
    /// A tile made of the given walls and forbidden cells.
    pub fn new(walls: Vec<Wall>, forbidden: Vec<LogicalPos>) -> (tile: Tile)
        ensures
            tile@.walls == walls@,
            tile@.forbidden == forbidden@,
    {
        Tile { walls, forbidden }
    }

    /// The walls of the tile.
    pub fn walls(&self) -> (walls: &Vec<Wall>)
        ensures
            walls@ == self@.walls,
    {
        &self.walls
    }

    /// The forbidden cells of the tile.
    pub fn forbidden(&self) -> (cells: &Vec<LogicalPos>)
        ensures
            cells@ == self@.forbidden,
    {
        &self.forbidden
    }

    /// The first cell of the tile that is not on a board of side `side`.
    pub fn find_misfit(&self, side: &SideLength) -> (found: Option<LogicalPos>)
        ensures
            found == self@.misfit(side.0 as nat),
            found is None ==> forall|i: int|
                0 <= i < self@.cells().len() ==> (#[trigger] self@.cells()[i]).x < side.0
                    && self@.cells()[i].y < side.0,
    {
        let mut i: usize = 0;
        while i < self.walls.len()
            invariant
                i <= self.walls@.len(),
                self@.first_outside(side.0 as nat, i as int) is None,
                forall|j: int|
                    0 <= j < i ==> (#[trigger] self@.cells()[j]).x < side.0 && self@.cells()[j].y
                        < side.0,
            decreases self.walls@.len() - i,
        {
            let pos = self.walls[i].pos;
            assert(self@.cells()[i as int] == pos);
            if !(pos.x < side.0 && pos.y < side.0) {
                proof {
                    lemma_outside_stays(self@, side.0 as nat, i + 1, self@.cells().len() as int);
                }
                return Some(pos);
            }
            i += 1;
        }
        let mut k: usize = 0;
        while k < self.forbidden.len()
            invariant
                k <= self.forbidden@.len(),
                self@.first_outside(side.0 as nat, self.walls@.len() + k) is None,
                forall|j: int|
                    0 <= j < self.walls@.len() + k ==> (#[trigger] self@.cells()[j]).x < side.0
                        && self@.cells()[j].y < side.0,
            decreases self.forbidden@.len() - k,
        {
            let pos = self.forbidden[k];
            assert(self@.cells()[self.walls@.len() + k] == pos);
            if !(pos.x < side.0 && pos.y < side.0) {
                proof {
                    lemma_outside_stays(
                        self@,
                        side.0 as nat,
                        self.walls@.len() + k + 1,
                        self@.cells().len() as int,
                    );
                }
                return Some(pos);
            }
            k += 1;
        }
        None
    }

    /// Stamps the tile into the corner `border` of `board`. Either the whole
    /// tile is on the board afterwards, or, where one of its cells does not
    /// fit, the board is as it was.
    pub fn apply_on<B: EditableBoard>(&self, board: &mut B, border: &Border) -> (done: Result<
        (),
        BoardError,
    >)
        requires
            old(board).wf(),
        ensures
            final(board).wf(),
            match self@.misfit(old(board)@.side) {
                None => {
                    &&& done == Ok::<(), BoardError>(())
                    &&& final(board)@ == old(board)@.stamped(self@, *border)
                },
                Some(pos) => {
                    &&& done == Err::<(), BoardError>(out_of_board(pos, old(board)@.side))
                    &&& final(board)@ == old(board)@
                },
            },
    {
        let side = board.side_length();
        match self.find_misfit(&side) {
            Some(pos) => {
                return Err(board.oob_error(pos));
            },
            None => {},
        }
        let ghost before = board@;
        let ghost walls = self@.walls_at(*border, before.side);
        let ghost forbidden = self@.forbidden_at(*border, before.side);
        let mut i: usize = 0;
        while i < self.walls.len()
            invariant
                i <= self.walls@.len(),
                board.wf(),
                side.0 == before.side,
                walls == self@.walls_at(*border, before.side),
                board@ == before.with_walls(walls.take(i as int)),
                forall|j: int|
                    0 <= j < self@.cells().len() ==> (#[trigger] self@.cells()[j]).x < side.0
                        && self@.cells()[j].y < side.0,
            decreases self.walls@.len() - i,
        {
            assert(self@.cells()[i as int] == self.walls@[i as int].pos);
            let wall = Tile::situate_on_board(&self.walls[i], border, &side);
            proof {
                assert(walls.take(i + 1).drop_last() == walls.take(i as int));
                assert(walls.take(i + 1).last() == wall);
                lemma_walls_keep_side(before, walls.take(i as int));
            }
            board.put_wall(&wall)?;
            i += 1;
        }
        assert(walls.take(i as int) == walls);
        let ghost walled = board@;
        proof {
            lemma_walls_keep_side(before, walls);
        }
        let mut k: usize = 0;
        while k < self.forbidden.len()
            invariant
                k <= self.forbidden@.len(),
                board.wf(),
                side.0 == before.side,
                walled.side == before.side,
                forbidden == self@.forbidden_at(*border, before.side),
                board@ == walled.with_all_forbidden(forbidden.take(k as int)),
                forall|j: int|
                    0 <= j < self@.cells().len() ==> (#[trigger] self@.cells()[j]).x < side.0
                        && self@.cells()[j].y < side.0,
            decreases self.forbidden@.len() - k,
        {
            assert(self@.cells()[self.walls@.len() + k] == self.forbidden@[k as int]);
            let correct_pos = Tile::situate_on_board(
                &Wall { pos: self.forbidden[k], side: Side::Left },
                border,
                &side,
            ).pos;
            proof {
                assert(forbidden.take(k + 1).drop_last() == forbidden.take(k as int));
                assert(forbidden.take(k + 1).last() == correct_pos);
                lemma_forbidden_keep_side(walled, forbidden.take(k as int));
            }
            board.forbid_cell(&correct_pos)?;
            k += 1;
        }
        assert(forbidden.take(k as int) == forbidden);
        Ok(())
    }

    /// Where a wall of a tile stands in the corner `border` of a board of
    /// side `board_side`. In the top-left corner every wall stands where it
    /// was drawn; into the other corners only a wall on a cell of the board
    /// can be turned.
    pub fn situate_on_board(wall: &Wall, border: &Border, board_side: &SideLength) -> (placed:
        Wall)
        requires
            border is TopLeft || (wall.pos.x < board_side.0 && wall.pos.y < board_side.0),
        ensures
            placed == border.situated(*wall, board_side.0 as int),
            placed.pos@ == wall.pos@.turned(border.turn(), board_side.0 as int),
            border is TopLeft ==> placed == *wall,
            wall.pos.x < board_side.0 && wall.pos.y < board_side.0 ==> placed.pos.x < board_side.0
                && placed.pos.y < board_side.0,
    {
        border.angle(wall, board_side)
    }
}

/// A cell found outside among the first `from` cells is still the first one
/// outside when more cells are looked at.
proof fn lemma_outside_stays(tile: TileView, side: nat, from: int, upto: int)
    requires
        from <= upto,
        tile.first_outside(side, from) is Some,
    ensures
        tile.first_outside(side, upto) == tile.first_outside(side, from),
    decreases upto - from,
{
    if from < upto {
        lemma_outside_stays(tile, side, from, upto - 1);
    }
}

/// A tile whose cells all lie within `side` fits on every board of that
/// side or more, into any corner.
pub proof fn law_tile_within_fits(tile: TileView, side: nat, board_side: nat)
    requires
        side <= board_side,
        tile.lies_within(side),
    ensures
        tile.misfit(board_side) is None,
{
    lemma_none_outside(tile, side, board_side, tile.cells().len() as int);
}

/// Among cells that all lie within `side`, none is outside a board of that
/// side or more.
proof fn lemma_none_outside(tile: TileView, side: nat, board_side: nat, upto: int)
    requires
        side <= board_side,
        0 <= upto <= tile.cells().len(),
        tile.lies_within(side),
    ensures
        tile.first_outside(board_side, upto) is None,
    decreases upto,
{
    if upto > 0 {
        lemma_none_outside(tile, side, board_side, upto - 1);
        let i = upto - 1;
        if i < tile.walls.len() {
            assert(tile.cells()[i] == tile.walls[i].pos);
        } else {
            assert(tile.cells()[i] == tile.forbidden[i - tile.walls.len()]);
        }
    }
}

/// Walls leave the side of a board as it is.
pub proof fn lemma_walls_keep_side(board: BoardView, walls: Seq<Wall>)
    ensures
        board.with_walls(walls).side == board.side,
    decreases walls.len(),
{
    if walls.len() > 0 {
        lemma_walls_keep_side(board, walls.drop_last());
    }
}

/// Forbidden cells leave the side of a board as it is.
pub proof fn lemma_forbidden_keep_side(board: BoardView, cells: Seq<LogicalPos>)
    ensures
        board.with_all_forbidden(cells).side == board.side,
    decreases cells.len(),
{
    if cells.len() > 0 {
        lemma_forbidden_keep_side(board, cells.drop_last());
    }
}

/// Putting up walls adds to a board what the same walls are on an empty
/// board of the same side, and nothing else.
pub proof fn lemma_walls_are_added(board: BoardView, walls: Seq<Wall>)
    ensures
        board.with_walls(walls) == board.union(BoardView::empty(board.side).with_walls(walls)),
    decreases walls.len(),
{
    let bare = BoardView::empty(board.side);
    if walls.len() == 0 {
        assert(board.union(bare) =~~= board);
    } else {
        lemma_walls_are_added(board, walls.drop_last());
        lemma_walls_keep_side(bare, walls.drop_last());
        let rest = bare.with_walls(walls.drop_last());
        assert(board.union(rest).with_wall(walls.last()) =~~= board.union(
            rest.with_wall(walls.last()),
        ));
    }
}

/// Forbidding cells adds to a board what the same cells are on an empty
/// board of the same side, and nothing else.
pub proof fn lemma_forbidden_are_added(board: BoardView, cells: Seq<LogicalPos>)
    ensures
        board.with_all_forbidden(cells) == board.union(
            BoardView::empty(board.side).with_all_forbidden(cells),
        ),
    decreases cells.len(),
{
    let bare = BoardView::empty(board.side);
    if cells.len() == 0 {
        assert(board.union(bare) =~~= board);
    } else {
        lemma_forbidden_are_added(board, cells.drop_last());
        lemma_forbidden_keep_side(bare, cells.drop_last());
        let rest = bare.with_all_forbidden(cells.drop_last());
        assert(board.union(rest).with_forbidden(cells.last()) =~~= board.union(
            rest.with_forbidden(cells.last()),
        ));
    }
}

/// What a stamp adds to a board depends on the tile, the corner and the side
/// of the board alone: it is what the stamp leaves on an empty board.
pub proof fn law_stamp_adds_fixed_walls(board: BoardView, tile: TileView, border: Border)
    ensures
        board.stamped(tile, border) == board.union(
            BoardView::empty(board.side).stamped(tile, border),
        ),
        board.stamped(tile, border).side == board.side,
{
    let bare = BoardView::empty(board.side);
    let walls = tile.walls_at(border, board.side);
    let cells = tile.forbidden_at(border, board.side);
    lemma_walls_are_added(board, walls);
    lemma_walls_keep_side(board, walls);
    lemma_walls_keep_side(bare, walls);
    lemma_forbidden_are_added(board.with_walls(walls), cells);
    lemma_forbidden_are_added(bare.with_walls(walls), cells);
    lemma_forbidden_keep_side(board.with_walls(walls), cells);
    assert(board.stamped(tile, border) =~~= board.union(bare.stamped(tile, border)));
}

/// Stamping the same tile into the same corner a second time changes
/// nothing.
pub proof fn law_stamping_twice_is_stamping_once(board: BoardView, tile: TileView, border: Border)
    ensures
        board.stamped(tile, border).stamped(tile, border) == board.stamped(tile, border),
{
    law_stamp_adds_fixed_walls(board, tile, border);
    law_stamp_adds_fixed_walls(board.stamped(tile, border), tile, border);
    assert(board.stamped(tile, border).stamped(tile, border) =~~= board.stamped(tile, border));
}

/// The order in which two stamps are made does not matter.
pub proof fn law_stamps_commute(
    board: BoardView,
    first: TileView,
    first_border: Border,
    second: TileView,
    second_border: Border,
)
    ensures
        board.stamped(first, first_border).stamped(second, second_border) == board.stamped(
            second,
            second_border,
        ).stamped(first, first_border),
{
    law_stamp_adds_fixed_walls(board, first, first_border);
    law_stamp_adds_fixed_walls(board, second, second_border);
    law_stamp_adds_fixed_walls(board.stamped(first, first_border), second, second_border);
    law_stamp_adds_fixed_walls(board.stamped(second, second_border), first, first_border);
    assert(board.stamped(first, first_border).stamped(second, second_border) =~~= board.stamped(
        second,
        second_border,
    ).stamped(first, first_border));
}

} // verus!
