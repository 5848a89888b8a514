//! Boards, the tiles they are assembled from, and the text form of a tile.

pub mod board;
pub mod border;
pub mod builder;
pub mod error;
pub mod indirect_table;
pub mod individual_cells;
pub mod plan;
pub mod tile;
pub mod tile_parser;
pub mod tile_parser_error;
pub mod tile_set;

pub use self::board::{Board, EditableBoard};
pub use self::border::Border;
pub use self::builder::Builder;
pub use self::error::BoardError;
pub use self::indirect_table::BoardByIndirectTable;
pub use self::individual_cells::BoardByIndividualCells;
pub use self::plan::BoardView;
pub use self::tile::{Tile, TileView};
pub use self::tile_parser::TileParser;
pub use self::tile_parser_error::{TileFault, TileParseError, TileParseErrorView};
pub use self::tile_set::TileSet;
