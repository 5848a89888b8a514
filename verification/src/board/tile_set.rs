//! Sets of tiles that can stand for one another.

use vstd::prelude::*;
use vstd::utf8::encode_utf8;
use crate::board::board::{out_of_board, EditableBoard};
use crate::board::border::Border;
use crate::board::error::BoardError;
use crate::board::plan::BoardView;
use crate::board::tile::{law_stamp_adds_fixed_walls, law_tile_within_fits, Tile, TileView};
use crate::board::tile_parser_error::TileFault;
use crate::board::tile_parser::{law_read_tile_lies_within, tile_of, TileParser};
use crate::positioning::{LogicalPos, SideLength};
use crate::random::random_below;

verus! {

/// A named set of tiles of one side. The tiles are written down as text and
/// become usable once the set is parsed.
#[derive(Debug)]
pub struct TileSet {
    pub side_length: SideLength,
    pub name: String,
    pub raw_tiles: Vec<String>,
    pub tiles: Vec<Tile>,
}

/// The four corners, in the order in which a board is filled.
pub open spec fn corners() -> Seq<Border> {
    seq![Border::TopLeft, Border::TopRight, Border::BottomLeft, Border::BottomRight]
}

/// The first cell that does not fit on a board of side `side`, among the
/// tiles picked for the first `upto` corners.
pub open spec fn misfit_among(tiles: Seq<Tile>, picks: Seq<usize>, side: nat, upto: int) -> Option<
    LogicalPos,
>
    decreases upto,
{
    if upto <= 0 {
        None
    } else {
        match misfit_among(tiles, picks, side, upto - 1) {
            Some(pos) => Some(pos),
            None => tiles[picks[upto - 1] as int]@.misfit(side),
        }
    }
}

impl BoardView {
    /// The board with the tile picked for each of the first `upto` corners
    /// stamped into that corner.
    pub open spec fn stamped_upto(self, tiles: Seq<Tile>, picks: Seq<usize>, upto: int) -> BoardView
        decreases upto,
    {
        if upto <= 0 {
            self
        } else {
            self.stamped_upto(tiles, picks, upto - 1).stamped(
                tiles[picks[upto - 1] as int]@,
                corners()[upto - 1],
            )
        }
    }

    /// What filling the four corners with the picked tiles makes of the
    /// board: the board with four stamps, or the first cell that does not
    /// fit on it.
    pub open spec fn built(self, tiles: Seq<Tile>, picks: Seq<usize>) -> Result<
        BoardView,
        BoardError,
    > {
        match misfit_among(tiles, picks, self.side, 4) {
            Some(pos) => Err(out_of_board(pos, self.side)),
            None => Ok(self.stamped_upto(tiles, picks, 4)),
        }
    }
}

impl TileSet {
    /// A set of the given name for tiles of side `side_length`, written down
    /// in `raw_tiles` and not parsed yet.
    pub fn new(side_length: SideLength, name: String, raw_tiles: Vec<String>) -> (set: TileSet)
        ensures
            set.side_length == side_length,
            set.name == name,
            set.raw_tiles == raw_tiles,
            set.tiles@.len() == 0,
    {
        TileSet { side_length, name, raw_tiles, tiles: Vec::new() }
    }

    /// What reading text number `index` as a tile of this set gives.
    pub open spec fn reading(&self, index: int) -> Result<TileView, TileFault> {
        tile_of(encode_utf8(self.raw_tiles@[index]@), self.side_length.0 as nat)
    }

    /// Whether every text of the set can be read as a tile.
    pub open spec fn reads(&self) -> bool {
        forall|i: int| 0 <= i < self.raw_tiles@.len() ==> (#[trigger] self.reading(i)) is Ok
    }

    /// Whether `parsed` is this set with its texts read into its tiles.
    pub open spec fn read_as(&self, parsed: TileSet) -> bool {
        &&& parsed.side_length == self.side_length
        &&& parsed.name == self.name
        &&& parsed.raw_tiles == self.raw_tiles
        &&& parsed.tiles@.len() == self.raw_tiles@.len()
        &&& forall|i: int|
            0 <= i < parsed.tiles@.len() ==> self.reading(i) == Ok::<
                TileView,
                TileFault,
            >((#[trigger] parsed.tiles@[i])@)
    }

    /// Whether `error` is what reading the set fails with: it names the set,
    /// the first text that cannot be read, and what is wrong with it.
    pub open spec fn refused_with(&self, error: BoardError) -> bool {
        &&& error matches BoardError::InvalidTileFormat { tile_set_name, tile_index, cause }
        &&& tile_set_name == self.name
        &&& tile_index < self.raw_tiles@.len()
        &&& forall|i: int| 0 <= i < tile_index ==> (#[trigger] self.reading(i)) is Ok
        &&& self.reading(tile_index as int) == Err::<TileView, TileFault>(
            cause@.fault,
        )
        &&& cause@.tile == self.raw_tiles@[tile_index as int]@
    }

    /// Reads the texts of the set into its tiles. If a text cannot be read,
    /// the set stays as it was, and the error names the first such text.
    pub fn parse(&mut self) -> (done: Result<(), BoardError>)
        ensures
            done is Ok <==> old(self).reads(),
            done is Ok ==> old(self).read_as(*final(self)),
            done matches Err(error) ==> *final(self) == *old(self) && old(self).refused_with(error),
    {
        let mut tiles: Vec<Tile> = Vec::new();
        let mut i: usize = 0;
        while i < self.raw_tiles.len()
            invariant
                *self == *old(self),
                i <= self.raw_tiles@.len(),
                tiles@.len() == i,
                forall|j: int| 0 <= j < i ==> (#[trigger] self.reading(j)) is Ok,
                forall|j: int|
                    0 <= j < i ==> self.reading(j) == Ok::<TileView, TileFault>(
                        (#[trigger] tiles@[j])@,
                    ),
            decreases self.raw_tiles@.len() - i,
        {
            match TileParser::new(&self.raw_tiles[i]).parse(&self.side_length) {
                Ok(tile) => {
                    tiles.push(tile);
                },
                Err(cause) => {
                    assert(self.reading(i as int) is Err);
                    return Err(
                        BoardError::InvalidTileFormat {
                            tile_set_name: self.name.clone(),
                            tile_index: i,
                            cause,
                        },
                    );
                },
            }
            i += 1;
        }
        self.tiles = tiles;
        Ok(())
    }

    /// What can come of filling the corners of the board `before` with
    /// tiles drawn from this set, whatever is drawn: without tiles the set is
    /// refused and the board stays as it was; else four tiles of the set are
    /// picked, and the outcome is that of `build_with` for those picks.
    pub open spec fn fills(&self, before: BoardView, after: BoardView, done: Result<(), BoardError>)
        -> bool {
        if self.tiles@.len() == 0 {
            done == Err::<(), BoardError>(BoardError::EmptyTileSet) && after == before
        } else {
            exists|picks: Seq<usize>|
                {
                    &&& picks.len() == 4
                    &&& forall|i: int| 0 <= i < 4 ==> picks[i] < self.tiles@.len()
                    &&& #[trigger] built_as(before, after, done, self.tiles@, picks)
                }
        }
    }

    /// Fills the four corners of `board`, each with a tile of the set drawn
    /// at random; a tile may be drawn more than once. Without tiles there is
    /// nothing to draw. Either all four tiles are on the board afterwards, or
    /// the board is as it was.
    pub fn build_rand<B: EditableBoard>(&self, board: &mut B) -> (done: Result<(), BoardError>)
        requires
            old(board).wf(),
        ensures
            final(board).wf(),
            self.fills(old(board)@, final(board)@, done),
    {
        if self.tiles.len() == 0 {
            return Err(BoardError::EmptyTileSet);
        }
        let count = self.tiles.len();
        let picks = [
            random_below(count),
            random_below(count),
            random_below(count),
            random_below(count),
        ];
        self.build_with(board, &picks)
    }

    /// Fills the four corners of `board` with the tiles of the set that
    /// `picks` names, in the order top-left, top-right, bottom-left,
    /// bottom-right. Either all four tiles are on the board afterwards, or,
    /// where a cell of one of them does not fit, the board is as it was.
    pub fn build_with<B: EditableBoard>(&self, board: &mut B, picks: &[usize; 4]) -> (done: Result<
        (),
        BoardError,
    >)
        requires
            old(board).wf(),
            forall|i: int| 0 <= i < 4 ==> picks@[i] < self.tiles@.len(),
        ensures
            final(board).wf(),
            built_as(old(board)@, final(board)@, done, self.tiles@, picks@),
    {
        let side = board.side_length();
        let borders = Border::all();
        let mut c: usize = 0;
        while c < 4
            invariant
                c <= 4,
                board.wf(),
                side.0 == board@.side,
                forall|i: int| 0 <= i < 4 ==> picks@[i] < self.tiles@.len(),
                misfit_among(self.tiles@, picks@, side.0 as nat, c as int) is None,
            decreases 4 - c,
        {
            match self.tiles[picks[c]].find_misfit(&side) {
                Some(pos) => {
                    proof {
                        lemma_misfit_stays(self.tiles@, picks@, side.0 as nat, c + 1, 4);
                    }
                    return Err(board.oob_error(pos));
                },
                None => {},
            }
            c += 1;
        }
        let ghost before = board@;
        proof {
            lemma_no_misfit(self.tiles@, picks@, side.0 as nat, 4);
        }
        let mut c: usize = 0;
        while c < 4
            invariant
                c <= 4,
                board.wf(),
                borders@ == corners(),
                forall|i: int| 0 <= i < 4 ==> picks@[i] < self.tiles@.len(),
                forall|i: int|
                    0 <= i < 4 ==> (#[trigger] self.tiles@[picks@[i] as int])@.misfit(before.side)
                        is None,
                board@ == before.stamped_upto(self.tiles@, picks@, c as int),
                board@.side == before.side,
            decreases 4 - c,
        {
            proof {
                law_stamp_adds_fixed_walls(
                    board@,
                    self.tiles@[picks@[c as int] as int]@,
                    borders@[c as int],
                );
            }
            assert(self.tiles@[picks@[c as int] as int]@.misfit(before.side) is None);
            self.tiles[picks[c]].apply_on(board, &borders[c])?;
            c += 1;
        }
        Ok(())
    }
}

/// How the outcome of filling the four corners with picked tiles relates
/// the board after to the board before: on success the board has the four
/// stamps; on failure it is as it was, and the error names the first cell
/// that does not fit.
pub open spec fn built_as(
    before: BoardView,
    after: BoardView,
    done: Result<(), BoardError>,
    tiles: Seq<Tile>,
    picks: Seq<usize>,
) -> bool {
    match before.built(tiles, picks) {
        Ok(board) => done == Ok::<(), BoardError>(()) && after == board,
        Err(error) => done == Err::<(), BoardError>(error) && after == before,
    }
}

/// Where each of the tiles picked for the first `upto` corners lies within
/// `side`, none of them misfits a board of that side or more.
proof fn lemma_all_fit(
    tiles: Seq<Tile>,
    picks: Seq<usize>,
    side: nat,
    board_side: nat,
    upto: int,
)
    requires
        side <= board_side,
        0 <= upto <= picks.len(),
        forall|i: int| 0 <= i < picks.len() ==> picks[i] < tiles.len(),
        forall|k: int| 0 <= k < tiles.len() ==> (#[trigger] tiles[k])@.lies_within(side),
    ensures
        misfit_among(tiles, picks, board_side, upto) is None,
    decreases upto,
{
    if upto > 0 {
        lemma_all_fit(tiles, picks, side, board_side, upto - 1);
        law_tile_within_fits(tiles[picks[upto - 1] as int]@, side, board_side);
    }
}

/// Tiles that were read from text never fail to fill a board that is at
/// least as large as they are: whichever tiles of the set are picked, the
/// four corners are stamped.
pub proof fn law_read_tiles_fill_larger_boards(
    set: TileSet,
    parsed: TileSet,
    picks: Seq<usize>,
    board: BoardView,
)
    requires
        set.read_as(parsed),
        parsed.side_length.0 <= board.side,
        picks.len() == 4,
        forall|i: int| 0 <= i < 4 ==> picks[i] < parsed.tiles@.len(),
    ensures
        board.built(parsed.tiles@, picks) == Ok::<BoardView, BoardError>(
            board.stamped_upto(parsed.tiles@, picks, 4),
        ),
{
    let side = parsed.side_length.0 as nat;
    assert forall|k: int| 0 <= k < parsed.tiles@.len() implies (
    #[trigger] parsed.tiles@[k])@.lies_within(side) by {
        law_read_tile_lies_within(encode_utf8(set.raw_tiles@[k]@), side, parsed.tiles@[k]@);
    }
    lemma_all_fit(parsed.tiles@, picks, side, board.side, 4);
}

/// A misfit found among the first `from` corners is still the first one when
/// more corners are looked at.
proof fn lemma_misfit_stays(tiles: Seq<Tile>, picks: Seq<usize>, side: nat, from: int, upto: int)
    requires
        from <= upto,
        misfit_among(tiles, picks, side, from) is Some,
    ensures
        misfit_among(tiles, picks, side, upto) == misfit_among(tiles, picks, side, from),
    decreases upto - from,
{
    if from < upto {
        lemma_misfit_stays(tiles, picks, side, from, upto - 1);
    }
}

/// Where no cell misfits among the first `upto` corners, the tile picked for
/// each of them fits.
proof fn lemma_no_misfit(tiles: Seq<Tile>, picks: Seq<usize>, side: nat, upto: int)
    requires
        misfit_among(tiles, picks, side, upto) is None,
    ensures
        forall|i: int| 0 <= i < upto ==> (#[trigger] tiles[picks[i] as int])@.misfit(side) is None,
    decreases upto,
{
    if upto > 0 {
        lemma_no_misfit(tiles, picks, side, upto - 1);
    }
}

} // verus!
