//! The one command of the game: a robot goes from one cell to another.

use vstd::prelude::*;
use crate::board::board::EditableBoard;
use crate::game::command::{Command, CommandBase};
use crate::game::error::GameError;
use crate::game::game::Game;
use crate::game::robot::RobotId;
use crate::positioning::LogicalPos;

verus! {

/// A move of the robot `robot` from `source_pos` to `target_pos`.
#[derive(Debug, Clone, Copy, PartialEq, Eq, Structural)]
pub struct MoveRobotCommand {
    pub robot: RobotId,
    pub source_pos: LogicalPos,
    pub target_pos: LogicalPos,
}

impl MoveRobotCommand {
    /// The move of `robot` from `source_pos` to `target_pos`.
    pub fn new(robot: RobotId, source_pos: LogicalPos, target_pos: LogicalPos) -> (command:
        MoveRobotCommand)
        ensures
            command == (MoveRobotCommand { robot, source_pos, target_pos }),
    {
        MoveRobotCommand { robot, source_pos, target_pos }
    }
}

impl CommandBase for MoveRobotCommand {
    open spec fn moved(&self) -> RobotId {
        self.robot
    }

    open spec fn before(&self) -> LogicalPos {
        self.source_pos
    }

    open spec fn after(&self) -> LogicalPos {
        self.target_pos
    }

    fn redo<B: EditableBoard>(&self, game: &mut Game<B>) -> (done: Result<(), GameError>) {
        match game.state.robot_index(self.robot) {
            Some(_) => {
                game.state.place_robot(self.robot, self.target_pos);
                Ok(())
            },
            None => Err(GameError::NotPlayingRobot),
        }
    }

    fn undo<B: EditableBoard>(&self, game: &mut Game<B>) -> (done: Result<(), GameError>) {
        match game.state.robot_index(self.robot) {
            Some(_) => {
                game.state.place_robot(self.robot, self.source_pos);
                Ok(())
            },
            None => Err(GameError::NotPlayingRobot),
        }
    }
}

impl Command for MoveRobotCommand {

}

} // verus!
