//! A sliding-robot puzzle engine: robots stand on the cells of a square board
//! and slide in a cardinal direction until a wall, the edge of the board or
//! another robot stops them.
//!
//! The crate holds the geometry of the board, two interchangeable wall
//! stores, the tile language from which boards are assembled, and the
//! move / undo / redo engine. Contracts are stated over a mathematical plan
//! of the board and are proved, but for the three functions that hand out
//! what `rand` draws and share the settings.

pub mod board;
pub mod config;
pub mod game;
pub mod graphics;
pub mod moves;
pub mod positioning;
mod random;
pub mod wall;

pub use moves::MovePossibility;
pub use positioning::{Cell, FlipAxis, Hit, LogicalPos, RotateAngle, SideLength, Way};
pub use wall::{Side, Wall};
