//! What a command is: something that can be done to a game, and undone.

use vstd::prelude::*;
use crate::board::board::EditableBoard;
use crate::game::error::GameError;
use crate::game::game::Game;
use crate::game::game_state::{placed, slot_of};
use crate::game::robot::RobotId;
use crate::positioning::LogicalPos;

verus! {

/// A command moves one robot. Doing it sets the robot down where the
/// command leads; undoing it sets the robot down where it came from. Neither
/// touches the board or the record of the moves made.
pub trait CommandBase {
    /// The robot that the command moves.
    spec fn moved(&self) -> RobotId;

    /// Where the robot stands before the command.
    spec fn before(&self) -> LogicalPos;

    /// Where the robot stands after the command.
    spec fn after(&self) -> LogicalPos;

    /// Does the command. It fails, and changes nothing, if the robot is not
    /// in the game.
    fn redo<B: EditableBoard>(&self, game: &mut Game<B>) -> (done: Result<(), GameError>)
        ensures
            final(game).state.board == old(game).state.board,
            final(game).undo_stack == old(game).undo_stack,
            final(game).redo_stack == old(game).redo_stack,
            slot_of(old(game).state.robots@, self.moved()) is Some ==> {
                &&& done == Ok::<(), GameError>(())
                &&& final(game).state.robots@ == placed(
                    old(game).state.robots@,
                    self.moved(),
                    self.after(),
                )
            },
            slot_of(old(game).state.robots@, self.moved()) is None ==> {
                &&& done == Err::<(), GameError>(GameError::NotPlayingRobot)
                &&& final(game).state.robots == old(game).state.robots
            },
    ;

    /// Undoes the command. It fails, and changes nothing, if the robot is
    /// not in the game.
    fn undo<B: EditableBoard>(&self, game: &mut Game<B>) -> (done: Result<(), GameError>)
        ensures
            final(game).state.board == old(game).state.board,
            final(game).undo_stack == old(game).undo_stack,
            final(game).redo_stack == old(game).redo_stack,
            slot_of(old(game).state.robots@, self.moved()) is Some ==> {
                &&& done == Ok::<(), GameError>(())
                &&& final(game).state.robots@ == placed(
                    old(game).state.robots@,
                    self.moved(),
                    self.before(),
                )
            },
            slot_of(old(game).state.robots@, self.moved()) is None ==> {
                &&& done == Err::<(), GameError>(GameError::NotPlayingRobot)
                &&& final(game).state.robots == old(game).state.robots
            },
    ;
}

/// A command that can be kept in the record of a game.
pub trait Command: std::fmt::Debug + CommandBase {

}

} // verus!
