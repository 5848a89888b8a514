//! What can go wrong while a board is built or asked.

use vstd::prelude::*;
use crate::board::tile_parser_error::TileParseError;
use crate::positioning::{LogicalPos, SideLength};

verus! {

/// Why a board refused a request.
#[derive(Debug, Clone, PartialEq, Eq)]
pub enum BoardError {
    /// A board needs at least two cells a side.
    InvalidDimensionToBuildBoard,
    /// Tile number `tile_index` of the tile set `tile_set_name` could not be
    /// read; `cause` says why.
    InvalidTileFormat { tile_set_name: String, tile_index: usize, cause: TileParseError },
    /// `pos` is not a cell of a board of side `side_length`.
    OutOfBoardPosition { pos: LogicalPos, side_length: SideLength },
    /// A tile set without tiles cannot fill a board.
    EmptyTileSet,
}

} // verus!
