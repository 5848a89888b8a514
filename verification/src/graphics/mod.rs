//! What is to be drawn, as far as it can be said without a screen.

pub mod board_picture;
pub mod sprite;

pub use self::board_picture::{cell_stamps, Stamp};
pub use self::sprite::SpriteId;
