//! A game: robots on a board, and the moves made so far.

pub mod command;
pub mod error;
pub mod game;
pub mod game_state;
pub mod keyboard_controller;
pub mod move_robot_command;
pub mod robot;

pub use self::command::{Command, CommandBase};
pub use self::error::GameError;
pub use self::game::{Game, Session};
pub use self::game_state::GameState;
pub use self::keyboard_controller::KeyboardController;
pub use self::move_robot_command::MoveRobotCommand;
pub use self::robot::{Robot, RobotId};
