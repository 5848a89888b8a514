//! The text form of a tile.
//!
//! A tile of side `n` is written as `n * n` cell markers, row after row:
//! `.` for a free cell and `#` for a forbidden one. A `|` after a cell puts a
//! wall on its right side, a `_` puts one below it. Blanks, tabs and line
//! feeds may stand anywhere and mean nothing: rows are told apart by
//! counting cells.

use vstd::prelude::*;
use vstd::arithmetic::div_mod::{lemma_fundamental_div_mod, lemma_fundamental_div_mod_converse};
use vstd::utf8::encode_utf8;
use crate::board::tile::{Tile, TileView};
use crate::board::tile_parser_error::{TileFault, TileParseError, TileParseErrorView};
use crate::positioning::{LogicalPos, SideLength};
use crate::wall::{Side, Wall};

verus! {

/// `.`, the marker of a free cell.
pub const FREE_CELL: u8 = 0x2e;

/// `#`, the marker of a forbidden cell.
pub const FORBIDDEN_CELL: u8 = 0x23;

/// `|`, the marker of a wall on the right of the cell before it.
pub const WALL_RIGHT: u8 = 0x7c;

/// `_`, the marker of a wall below the cell before it.
pub const WALL_BELOW: u8 = 0x5f;

/// A byte that stands for a cell.
pub open spec fn is_cell_marker(byte: u8) -> bool {
    byte == FREE_CELL || byte == FORBIDDEN_CELL
}

/// A byte that puts a wall on the cell before it.
pub open spec fn is_wall_marker(byte: u8) -> bool {
    byte == WALL_RIGHT || byte == WALL_BELOW
}

/// A blank, a tab or a line feed.
pub open spec fn is_blank(byte: u8) -> bool {
    byte == 0x20 || byte == 0x09 || byte == 0x0a
}

/// Number of cell markers in `text`.
pub open spec fn cells_in(text: Seq<u8>) -> nat
    decreases text.len(),
{
    if text.len() == 0 {
        0
    } else {
        cells_in(text.drop_last()) + if is_cell_marker(text.last()) {
            1nat
        } else {
            0nat
        }
    }
}

/// Place of the cell that is read after `count` others, in a tile of side
/// `side`: cells fill a row from the left, and rows follow from the top.
pub open spec fn cell_place(count: int, side: int) -> LogicalPos {
    LogicalPos { x: (count % side) as usize, y: (count / side) as usize }
}

/// Column and row that a fault is reported at when `count` cells were read
/// before it: the row of the last cell read, and the number of cells read of
/// that row.
pub open spec fn cursor(count: nat, side: nat) -> (nat, nat) {
    if count == 0 {
        (0, 0)
    } else {
        ((((count - 1) % (side as int)) + 1) as nat, ((count - 1) / (side as int)) as nat)
    }
}

/// What a reader hopes for where only a cell may stand.
pub open spec fn cell_tokens() -> Seq<Seq<char>> {
    seq!["free cell"@, "forbidden cell"@]
}

/// What a reader hopes for anywhere after the first cell.
pub open spec fn any_tokens() -> Seq<Seq<char>> {
    seq!["cell"@, "vertical wall"@, "horizontal wall"@]
}

/// What is wrong with the byte at `index` of `text`, given the bytes before
/// it: a cell when the tile is already full, a wall before the first cell,
/// or a byte that is no marker at all.
pub open spec fn fault_at(text: Seq<u8>, side: nat, index: int) -> Option<TileFault> {
    let byte = text[index];
    let count = cells_in(text.take(index));
    if is_cell_marker(byte) {
        if count >= side * side {
            Some(TileFault::TooLargeContent { max_rows: side })
        } else {
            None
        }
    } else if is_wall_marker(byte) {
        if count == 0 {
            Some(
                TileFault::UnexpectedToken {
                    unexpected: byte as char,
                    expected: cell_tokens(),
                    column: 0,
                    row: 0,
                },
            )
        } else {
            None
        }
    } else if is_blank(byte) {
        None
    } else {
        Some(
            TileFault::UnexpectedToken {
                unexpected: byte as char,
                expected: any_tokens(),
                column: cursor(count, side).0,
                row: cursor(count, side).1,
            },
        )
    }
}

/// The fault of the first faulty byte among the first `upto` bytes of `text`.
pub open spec fn first_fault(text: Seq<u8>, side: nat, upto: int) -> Option<TileFault>
    decreases upto,
{
    if upto <= 0 {
        None
    } else {
        match first_fault(text, side, upto - 1) {
            Some(fault) => Some(fault),
            None => fault_at(text, side, upto - 1),
        }
    }
}

/// The walls that `text` puts on a tile of side `side`, in the order of their
/// markers. A marker puts its wall on the cell read last before it.
pub open spec fn walls_in(text: Seq<u8>, side: nat) -> Seq<Wall>
    decreases text.len(),
{
    if text.len() == 0 {
        Seq::empty()
    } else {
        let before = walls_in(text.drop_last(), side);
        let count = cells_in(text.drop_last());
        if is_wall_marker(text.last()) && count > 0 {
            before.push(
                Wall {
                    pos: cell_place(count - 1, side as int),
                    side: if text.last() == WALL_RIGHT {
                        Side::Right
                    } else {
                        Side::Down
                    },
                },
            )
        } else {
            before
        }
    }
}

/// The cells that `text` forbids on a tile of side `side`, in the order of
/// their markers.
pub open spec fn forbidden_in(text: Seq<u8>, side: nat) -> Seq<LogicalPos>
    decreases text.len(),
{
    if text.len() == 0 {
        Seq::empty()
    } else {
        let before = forbidden_in(text.drop_last(), side);
        if text.last() == FORBIDDEN_CELL {
            before.push(cell_place(cells_in(text.drop_last()) as int, side as int))
        } else {
            before
        }
    }
}

/// What reading `text` as a tile of side `side` gives: the fault of the first
/// faulty byte if there is one; else the tile, if the text holds exactly
/// `side * side` cells; else the fault of a text that ends too early, which
/// names the row of the cell read last and counts the rows from that row to
/// the end of the tile.
pub open spec fn tile_of(text: Seq<u8>, side: nat) -> Result<TileView, TileFault> {
    match first_fault(text, side, text.len() as int) {
        Some(fault) => Err(fault),
        None => {
            if cells_in(text) == side * side {
                Ok(TileView { walls: walls_in(text, side), forbidden: forbidden_in(text, side) })
            } else {
                let row = cursor(cells_in(text), side).1;
                Err(TileFault::MissingRows { last_row: row, missing: (side - row) as nat })
            }
        },
    }
}

/// In a tile that is not full, the next cell is in a row of the tile; a tile
/// is full exactly when the next cell would open row `side`.
proof fn lemma_rows(count: int, side: int)
    requires
        count >= 0,
        side > 0,
    ensures
        (count / side >= side) == (count >= side * side),
        0 <= count % side < side,
        0 <= count / side <= count,
{
    lemma_fundamental_div_mod(count, side);
    let q = count / side;
    let r = count % side;
    assert(q >= 0) by (nonlinear_arith)
        requires
            count == side * q + r,
            0 <= r < side,
            count >= 0,
            side > 0,
    ;
    assert((q >= side) == (count >= side * side)) by (nonlinear_arith)
        requires
            count == side * q + r,
            0 <= r < side,
            side > 0,
    ;
    assert(q <= count) by (nonlinear_arith)
        requires
            count == side * q + r,
            0 <= r < side,
            side > 0,
            q >= 0,
    ;
}

/// The place after `count + 1` cells follows the place after `count`: one
/// column to the right, or at the start of the next row.
proof fn lemma_next_place(count: int, side: int)
    requires
        count >= 0,
        side > 0,
    ensures
        count % side + 1 < side ==> (count + 1) % side == count % side + 1 && (count + 1) / side
            == count / side,
        count % side + 1 >= side ==> (count + 1) % side == 0 && (count + 1) / side == count / side
            + 1,
{
    lemma_fundamental_div_mod(count, side);
    let q = count / side;
    let r = count % side;
    if r + 1 < side {
        assert(count + 1 == q * side + (r + 1)) by (nonlinear_arith)
            requires
                count == side * q + r,
        ;
        lemma_fundamental_div_mod_converse(count + 1, side, q, r + 1);
    } else {
        assert(count + 1 == (q + 1) * side + 0) by (nonlinear_arith)
            requires
                count == side * q + r,
                r + 1 == side,
        ;
        lemma_fundamental_div_mod_converse(count + 1, side, q + 1, 0);
    }
}

/// A fault found among the first `from` bytes is still the first fault when
/// more of the text is looked at.
proof fn lemma_fault_stays(text: Seq<u8>, side: nat, from: int, upto: int)
    requires
        from <= upto,
        first_fault(text, side, from) is Some,
    ensures
        first_fault(text, side, upto) == first_fault(text, side, from),
    decreases upto - from,
{
    if from < upto {
        lemma_fault_stays(text, side, from, upto - 1);
    }
}

/// A part of a text holds no more cells than the whole.
proof fn lemma_cells_grow(text: Seq<u8>, upto: int)
    requires
        0 <= upto <= text.len(),
    ensures
        cells_in(text.take(upto)) <= cells_in(text),
    decreases text.len() - upto,
{
    if upto < text.len() {
        lemma_cells_grow(text, upto + 1);
        assert(text.take(upto + 1).drop_last() == text.take(upto));
    } else {
        assert(text.take(upto) == text);
    }
}

/// The walls and forbidden cells read from the first `upto` bytes of a text
/// that holds no more than `side * side` cells lie within the tile.
proof fn lemma_read_within(text: Seq<u8>, side: nat, upto: int)
    requires
        0 <= upto <= text.len(),
        cells_in(text) <= side * side,
        side <= usize::MAX,
    ensures
        forall|i: int|
            0 <= i < walls_in(text.take(upto), side).len() ==> (#[trigger] walls_in(
                text.take(upto),
                side,
            )[i]).pos.x < side && walls_in(text.take(upto), side)[i].pos.y < side,
        forall|i: int|
            0 <= i < forbidden_in(text.take(upto), side).len() ==> (#[trigger] forbidden_in(
                text.take(upto),
                side,
            )[i]).x < side && forbidden_in(text.take(upto), side)[i].y < side,
    decreases upto,
{
    if upto > 0 {
        lemma_read_within(text, side, upto - 1);
        lemma_cells_grow(text, upto - 1);
        lemma_cells_grow(text, upto);
        assert(text.take(upto).drop_last() == text.take(upto - 1));
        let count = cells_in(text.take(upto - 1)) as int;
        if side > 0 {
            lemma_rows(count, side as int);
            if count > 0 {
                lemma_rows(count - 1, side as int);
            }
        } else {
            assert(side * side == 0);
        }
        let before = forbidden_in(text.take(upto - 1), side);
        let after = forbidden_in(text.take(upto), side);
        assert forall|i: int| 0 <= i < after.len() implies (#[trigger] after[i]).x < side
            && after[i].y < side by {
            if i < before.len() {
                assert(after[i] == before[i]);
            }
        }
    }
}

/// A tile that was read from a text lies within its side: every wall and
/// every forbidden cell of it is on a cell of the tile.
pub proof fn law_read_tile_lies_within(text: Seq<u8>, side: nat, tile: TileView)
    requires
        side <= usize::MAX,
        tile_of(text, side) == Ok::<TileView, TileFault>(tile),
    ensures
        tile.lies_within(side),
{
    lemma_read_within(text, side, text.len() as int);
    assert(text.take(text.len() as int) == text);
}

/// A reader for the text of one tile.
pub struct TileParser<'a> {
    text: &'a String,
}

impl<'a> TileParser<'a> {
    /// A reader for `text`.
    pub fn new(text: &'a String) -> (parser: TileParser<'a>)
        ensures
            parser.text() == text,
    {
        TileParser { text }
    }

    /// The text that the reader was made for.
    pub closed spec fn text(&self) -> &'a String {
        self.text
    }

    /// The bytes of the text, in UTF-8.
    pub open spec fn bytes(&self) -> Seq<u8> {
        encode_utf8(self.text()@)
    }

    /// Reads the text as a tile of side `side_length`.
    pub fn parse(&self, side_length: &SideLength) -> (parsed: Result<Tile, TileParseError>)
        ensures
            match tile_of(self.bytes(), side_length.0 as nat) {
                Ok(tile) => parsed matches Ok(read) && read@ == tile,
                Err(fault) => parsed matches Err(error) && error@ == (TileParseErrorView {
                    fault,
                    tile: self.text()@,
                }),
            },
    {
        let side = side_length.0;
        let text = self.text.as_str().as_bytes();
        let mut walls: Vec<Wall> = Vec::new();
        let mut forbidden: Vec<LogicalPos> = Vec::new();
        // Place of the next cell, and of the cell read last.
        let mut next = LogicalPos { x: 0, y: 0 };
        let mut last: Option<LogicalPos> = None;
        let ghost mut count: nat = 0;
        let mut index: usize = 0;
        while index < text.len()
            invariant
                text@ == self.bytes(),
                side == side_length.0,
                index <= text@.len(),
                count == cells_in(text@.take(index as int)),
                count <= side * side,
                count <= index,
                first_fault(text@, side as nat, index as int) is None,
                walls@ == walls_in(text@.take(index as int), side as nat),
                forbidden@ == forbidden_in(text@.take(index as int), side as nat),
                side > 0 ==> next == cell_place(count as int, side as int),
                side == 0 ==> next.y == 0,
                count == 0 <==> last is None,
                count > 0 ==> last == Some(cell_place(count - 1, side as int)),
            decreases text@.len() - index,
        {
            let byte = text[index];
            proof {
                assert(text@.take(index + 1).drop_last() == text@.take(index as int));
                assert(text@.take(index + 1).last() == byte);
                if side > 0 {
                    lemma_rows(count as int, side as int);
                    lemma_next_place(count as int, side as int);
                } else {
                    assert(side * side == 0);
                }
            }
            if byte == FREE_CELL || byte == FORBIDDEN_CELL {
                if side == 0 || next.y >= side {
                    proof {
                        lemma_fault_stays(text@, side as nat, index + 1, text@.len() as int);
                    }
                    return Err(
                        TileParseError::TooLargeContent { max_rows: side, tile: self.text.clone() },
                    );
                }
                if byte == FORBIDDEN_CELL {
                    forbidden.push(next);
                }
                last = Some(next);
                if next.x + 1 == side {
                    next = LogicalPos { x: 0, y: next.y + 1 };
                } else {
                    next = LogicalPos { x: next.x + 1, y: next.y };
                }
                proof {
                    count = count + 1;
                }
            } else if byte == WALL_RIGHT || byte == WALL_BELOW {
                match last {
                    None => {
                        proof {
                            lemma_fault_stays(text@, side as nat, index + 1, text@.len() as int);
                        }
                        return Err(
                            TileParseError::UnexpectedToken {
                                unexpected: byte as char,
                                expected: expected_cells(),
                                column: 0,
                                row: 0,
                                tile: self.text.clone(),
                            },
                        );
                    },
                    Some(pos) => {
                        let side_of_cell = if byte == WALL_RIGHT {
                            Side::Right
                        } else {
                            Side::Down
                        };
                        walls.push(Wall { pos, side: side_of_cell });
                    },
                }
            } else if byte == 0x20 || byte == 0x09 || byte == 0x0a {
            } else {
                let (column, row) = match last {
                    None => (0, 0),
                    Some(pos) => {
                        proof {
                            lemma_rows(count - 1, side as int);
                        }
                        (pos.x + 1, pos.y)
                    },
                };
                proof {
                    lemma_fault_stays(text@, side as nat, index + 1, text@.len() as int);
                }
                return Err(
                    TileParseError::UnexpectedToken {
                        unexpected: byte as char,
                        expected: expected_any(),
                        column,
                        row,
                        tile: self.text.clone(),
                    },
                );
            }
            index += 1;
        }
        proof {
            assert(text@.take(index as int) == text@);
            if side > 0 {
                lemma_rows(count as int, side as int);
                if count > 0 {
                    lemma_rows(count - 1, side as int);
                }
            }
        }
        if side == 0 || next.y >= side {
            Ok(Tile::new(walls, forbidden))
        } else {
            let row = match last {
                None => 0,
                Some(pos) => pos.y,
            };
            Err(
                TileParseError::MissingRows {
                    last_row: row,
                    missing: side - row,
                    tile: self.text.clone(),
                },
            )
        }
    }
}

/// The names of the two cell markers.
fn expected_cells() -> (names: Vec<String>)
    ensures
        names.deep_view() == cell_tokens(),
{
    let mut names: Vec<String> = Vec::new();
    names.push("free cell".to_owned());
    names.push("forbidden cell".to_owned());
    assert(names.deep_view() =~= cell_tokens());
    names
}

/// The names of every marker.
fn expected_any() -> (names: Vec<String>)
    ensures
        names.deep_view() == any_tokens(),
{
    let mut names: Vec<String> = Vec::new();
    names.push("cell".to_owned());
    names.push("vertical wall".to_owned());
    names.push("horizontal wall".to_owned());
    assert(names.deep_view() =~= any_tokens());
    names
}

} // verus!
