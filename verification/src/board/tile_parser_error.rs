//! What can be wrong with the text of a tile.

use vstd::prelude::*;

verus! {

/// Why the text of a tile was refused. Each variant carries the text.
#[derive(Debug, Clone, PartialEq, Eq)]
pub enum TileParseError {
    /// A character that may not stand where it was found: `column` cells of
    /// row `row` had been read before it.
    UnexpectedToken {
        unexpected: char,
        expected: Vec<String>,
        column: usize,
        row: usize,
        tile: String,
    },
    /// The text ended before the tile was full. `last_row` is the row of the
    /// cell read last, or 0 where no cell was read. `missing` is the number
    /// of rows from `last_row` to the last row of the tile, `last_row`
    /// itself counted, whether or not that row is complete.
    MissingRows { last_row: usize, missing: usize, tile: String },
    /// The text holds a cell beyond the last of its `max_rows` rows.
    TooLargeContent { max_rows: usize, tile: String },
}

/// A fault in the text of a tile, without the text.
pub enum TileFault {
    UnexpectedToken { unexpected: char, expected: Seq<Seq<char>>, column: nat, row: nat },
    MissingRows { last_row: nat, missing: nat },
    TooLargeContent { max_rows: nat },
}

/// The mathematical content of a `TileParseError`.
pub struct TileParseErrorView {
    pub fault: TileFault,
    pub tile: Seq<char>,
}

impl View for TileParseError {
    type V = TileParseErrorView;

    open spec fn view(&self) -> TileParseErrorView {
        match self {
            TileParseError::UnexpectedToken { unexpected, expected, column, row, tile } => {
                TileParseErrorView {
                    fault: TileFault::UnexpectedToken {
                        unexpected: *unexpected,
                        expected: expected.deep_view(),
                        column: *column as nat,
                        row: *row as nat,
                    },
                    tile: tile@,
                }
            },
            TileParseError::MissingRows { last_row, missing, tile } => {
                TileParseErrorView {
                    fault: TileFault::MissingRows {
                        last_row: *last_row as nat,
                        missing: *missing as nat,
                    },
                    tile: tile@,
                }
            },
            TileParseError::TooLargeContent { max_rows, tile } => {
                TileParseErrorView {
                    fault: TileFault::TooLargeContent { max_rows: *max_rows as nat },
                    tile: tile@,
                }
            },
        }
    }
}

} // verus!
