//! A game in play: its state, and the moves that can be undone and redone.

use vstd::prelude::*;
use crate::board::board::{Board, EditableBoard};
use crate::board::indirect_table::BoardByIndirectTable;
use crate::board::plan::{law_run_counts_free_steps, law_steps_open_both_ways, BoardView};
use crate::game::command::CommandBase;
use crate::game::error::GameError;
use crate::game::game_state::{
    is_slot_of, lemma_slot_is_unique, no_cell_is_forbidden, occupied_by, placed, pos_of,
    same_names, slot_of, well_placed, GameState,
};
use crate::game::move_robot_command::MoveRobotCommand;
use crate::game::robot::{Robot, RobotId};
use crate::positioning::{LogicalPos, Way};

verus! {

/// A game and its record: the moves made, newest last, and the moves undone,
/// the one undone last at the end.
pub struct Game<B: EditableBoard> {
    pub state: GameState<B>,
    pub undo_stack: Vec<MoveRobotCommand>,
    pub redo_stack: Vec<MoveRobotCommand>,
}

/// What undo and redo work on: the robots and the two records.
#[verifier::ext_equal]
pub struct Session {
    pub robots: Seq<Robot>,
    pub undo: Seq<MoveRobotCommand>,
    pub redo: Seq<MoveRobotCommand>,
}

impl<B: EditableBoard> View for Game<B> {
    type V = Session;

    open spec fn view(&self) -> Session {
        Session { robots: self.state.robots@, undo: self.undo_stack@, redo: self.redo_stack@ }
    }
}

impl Session {
    /// The session after `command` was carried out: the robot stands on the
    /// target, the command is the newest move made, and nothing is left to
    /// redo. Without the robot of the command in the game nothing changes.
    pub open spec fn executed(self, command: MoveRobotCommand) -> Session {
        if slot_of(self.robots, command.robot) is Some {
            Session {
                robots: placed(self.robots, command.robot, command.target_pos),
                undo: self.undo.push(command),
                redo: Seq::empty(),
            }
        } else {
            self
        }
    }

    /// The session after the newest move made was undone: the robot is back
    /// on the source, and the command has gone over to the moves undone.
    /// Without a move made, or without its robot in the game, nothing
    /// changes.
    pub open spec fn undone(self) -> Session {
        if self.undo.len() > 0 && slot_of(self.robots, self.undo.last().robot) is Some {
            let command = self.undo.last();
            Session {
                robots: placed(self.robots, command.robot, command.source_pos),
                undo: self.undo.drop_last(),
                redo: self.redo.push(command),
            }
        } else {
            self
        }
    }

    /// The session after the move undone last was made again. Without a
    /// move undone, or without its robot in the game, nothing changes.
    pub open spec fn redone(self) -> Session {
        if self.redo.len() > 0 && slot_of(self.robots, self.redo.last().robot) is Some {
            let command = self.redo.last();
            Session {
                robots: placed(self.robots, command.robot, command.target_pos),
                undo: self.undo.push(command),
                redo: self.redo.drop_last(),
            }
        } else {
            self
        }
    }

    /// The session after `count` moves were undone.
    pub open spec fn undone_times(self, count: nat) -> Session
        decreases count,
    {
        if count == 0 {
            self
        } else {
            self.undone().undone_times((count - 1) as nat)
        }
    }

    /// The session after `count` moves were made again.
    pub open spec fn redone_times(self, count: nat) -> Session
        decreases count,
    {
        if count == 0 {
            self
        } else {
            self.redone().redone_times((count - 1) as nat)
        }
    }

    /// The session after the commands of `commands` were carried out one
    /// after the other.
    pub open spec fn played(self, commands: Seq<MoveRobotCommand>) -> Session
        decreases commands.len(),
    {
        if commands.len() == 0 {
            self
        } else {
            self.executed(commands.first()).played(commands.drop_first())
        }
    }

    /// Whether each command of `commands`, at the time it is carried out,
    /// moves its robot away from the cell on which the robot stands.
    pub open spec fn playable(self, commands: Seq<MoveRobotCommand>) -> bool
        decreases commands.len(),
    {
        commands.len() == 0 || {
            &&& pos_of(self.robots, commands.first().robot) == Some(commands.first().source_pos)
            &&& self.executed(commands.first()).playable(commands.drop_first())
        }
    }
}

impl Session {
    /// The session with `redo` in place of its moves undone.
    pub open spec fn with_redo(self, redo: Seq<MoveRobotCommand>) -> Session {
        Session { redo, ..self }
    }
}

/// Setting a robot down elsewhere and then back where it stood leaves the
/// robots as they were.
proof fn lemma_back_in_place(robots: Seq<Robot>, id: RobotId, pos: LogicalPos, other: LogicalPos)
    requires
        pos_of(robots, id) == Some(pos),
    ensures
        placed(placed(robots, id, other), id, pos) == robots,
        slot_of(placed(robots, id, other), id) == slot_of(robots, id),
{
    let slot = slot_of(robots, id).unwrap();
    let moved = placed(robots, id, other);
    assert(is_slot_of(robots, id, slot));
    assert(is_slot_of(moved, id, slot));
    lemma_slot_is_unique(moved, id, slot);
    assert(placed(moved, id, pos) =~= robots);
}

/// Undoing once more after `count` times is undoing `count + 1` times.
proof fn lemma_undone_once_more(session: Session, count: nat)
    ensures
        session.undone_times(count).undone() == session.undone_times(count + 1),
    decreases count,
{
    if count > 0 {
        lemma_undone_once_more(session.undone(), (count - 1) as nat);
        assert(session.undone_times(count) == session.undone().undone_times((count - 1) as nat));
        assert(session.undone_times(count + 1) == session.undone().undone_times(count));
    } else {
        assert(session.undone_times(1) == session.undone().undone_times(0));
    }
}

/// After `commands` were played, whatever stands among the moves undone,
/// undoing as many moves brings back the robots and the moves made, and
/// lays the commands on the moves undone, the first on top.
proof fn lemma_undo_unwinds(
    session: Session,
    commands: Seq<MoveRobotCommand>,
    redo: Seq<MoveRobotCommand>,
)
    requires
        session.playable(commands),
    ensures
        session.played(commands).with_redo(redo).undone_times(commands.len()) == session.with_redo(
            redo + commands.reverse(),
        ),
    decreases commands.len(),
{
    if commands.len() == 0 {
        assert(redo + commands.reverse() =~= redo);
    } else {
        let first = commands.first();
        let rest = commands.drop_first();
        let next = session.executed(first);
        lemma_undo_unwinds(next, rest, redo);
        let count = rest.len();
        lemma_undone_once_more(session.played(commands).with_redo(redo), count);
        lemma_back_in_place(session.robots, first.robot, first.source_pos, first.target_pos);
        let unwound = next.with_redo(redo + rest.reverse());
        assert(unwound.undo.last() == first);
        assert(unwound.undo.drop_last() =~= session.undo);
        assert((redo + rest.reverse()).push(first) =~= redo + commands.reverse());
        assert(unwound.undone() =~= session.with_redo(redo + commands.reverse()));
    }
}

/// With `commands` on the moves undone, the first on top, redoing as many
/// moves plays the commands.
proof fn lemma_redo_rewinds(
    session: Session,
    commands: Seq<MoveRobotCommand>,
    redo: Seq<MoveRobotCommand>,
)
    requires
        session.playable(commands),
    ensures
        session.with_redo(redo + commands.reverse()).redone_times(commands.len())
            == session.played(commands).with_redo(redo),
    decreases commands.len(),
{
    if commands.len() == 0 {
        assert(redo + commands.reverse() =~= redo);
    } else {
        let first = commands.first();
        let rest = commands.drop_first();
        let next = session.executed(first);
        let wound = session.with_redo(redo + commands.reverse());
        assert(wound.redo.last() == first);
        assert(wound.redo.drop_last() =~= redo + rest.reverse());
        assert(wound.redone() =~= next.with_redo(redo + rest.reverse()));
        lemma_redo_rewinds(next, rest, redo);
    }
}

/// A slide keeps the robots well placed: if every robot stands on a cell of
/// the board that is not forbidden, and no two on one cell, the same holds
/// once one of them has slid.
pub proof fn law_slides_keep_robots_well_placed(
    robots: Seq<Robot>,
    board: BoardView,
    robot: RobotId,
    source: LogicalPos,
    way: Way,
)
    requires
        board.side <= usize::MAX,
        well_placed(robots, board),
        pos_of(robots, robot) == Some(source),
    ensures
        well_placed(
            placed(robots, robot, board.stop(occupied_by(robots), source@, way).pos()),
            board,
        ),
{
    let slot = slot_of(robots, robot).unwrap();
    assert(is_slot_of(robots, robot, slot));
    let occupied = occupied_by(robots);
    let steps = board.run(occupied, source@, way) as int;
    let rest = board.stop(occupied, source@, way);
    let after = placed(robots, robot, rest.pos());
    law_run_counts_free_steps(board, occupied, source@, way);
    assert(board.contains(source@));
    assert(rest.pos()@ == rest);
    if steps > 0 {
        let last = source@.step(way, steps - 1);
        assert(board.passes(occupied, last, way));
        assert(last.step(way, 1) == rest);
        law_steps_open_both_ways(board, last, way);
    }
    assert forall|i: int, j: int|
        0 <= i < j < after.len() && (#[trigger] after[i]).pos is Some implies after[i].pos != (
    #[trigger] after[j]).pos by {
        if after[i].pos == after[j].pos {
            let other = if i == slot {
                j
            } else {
                i
            };
            if i == slot || j == slot {
                assert(robots[other].pos == Some(rest.pos()));
                if steps > 0 {
                    assert(occupied.contains(rest));
                } else {
                    assert(robots[other].pos == robots[slot].pos);
                }
            } else {
                assert(robots[i].pos == robots[j].pos);
            }
        }
    }
}

/// Undo and redo are inverse to each other. After any sequence of moves,
/// each made by a robot from the cell on which it stood, undoing as many
/// moves as were made sets every robot back where it was before the first of
/// them, and redoing as many afterwards sets every robot where it was after
/// the last: robots and moves made are then as they were before the undoing.
pub proof fn law_undo_redo_are_inverse(session: Session, commands: Seq<MoveRobotCommand>)
    requires
        session.playable(commands),
    ensures
        session.played(commands).undone_times(commands.len()).robots == session.robots,
        session.played(commands).undone_times(commands.len()).undo == session.undo,
        session.played(commands).undone_times(commands.len()).redone_times(commands.len())
            == session.played(commands),
{
    let end = session.played(commands);
    assert(end.with_redo(end.redo) =~= end);
    lemma_undo_unwinds(session, commands, end.redo);
    lemma_redo_rewinds(session, commands, end.redo);
}

/// One move undone is as if it had not been made, and one move redone is as
/// if it had not been undone.
pub proof fn law_undo_reverts_one_move(session: Session, command: MoveRobotCommand)
    requires
        pos_of(session.robots, command.robot) == Some(command.source_pos),
    ensures
        session.executed(command).undone().robots == session.robots,
        session.executed(command).undone().undo == session.undo,
        session.executed(command).undone().redone() == session.executed(command),
{
    lemma_back_in_place(
        session.robots,
        command.robot,
        command.source_pos,
        command.target_pos,
    );
    let end = session.executed(command);
    assert(end.undo.last() == command);
    assert(end.undo.drop_last() =~= session.undo);
    let back = end.undone();
    assert(back.redo.last() == command);
    assert(back.redo.drop_last() =~= end.redo);
    assert(back.redone() =~= end);
}

impl Game<BoardByIndirectTable> {
    /// A game that has not begun: four robots off the board, a board
    /// without cells, and no move made.
    pub fn new() -> (game: Game<BoardByIndirectTable>)
        ensures
            game.state.board.wf(),
            game.state.board@ == BoardView::empty(0),
            game@ == (Session {
                robots: seq![
                    Robot { id: RobotId::Red, pos: None },
                    Robot { id: RobotId::Green, pos: None },
                    Robot { id: RobotId::Blue, pos: None },
                    Robot { id: RobotId::Yellow, pos: None },
                ],
                undo: Seq::empty(),
                redo: Seq::empty(),
            }),
    {
        Game::with_state(GameState::new())
    }
}

impl<B: EditableBoard> Game<B> {
    /// A game that begins in `state`, with no move made.
    pub fn with_state(state: GameState<B>) -> (game: Game<B>)
        ensures
            game.state == state,
            game.undo_stack@.len() == 0,
            game.redo_stack@.len() == 0,
    {
        Game { state, undo_stack: Vec::new(), redo_stack: Vec::new() }
    }

    /// How a slide of the robot named `robot` in direction `way` relates the
    /// game `after` it to the game `before`, and what it answers. A robot
    /// that stands on a cell of the board slides to where a wall, the edge
    /// or another robot stops it; if that is another cell, the move is
    /// carried out and the answer is `true`, else nothing changes and the
    /// answer is `false`. Any other robot cannot slide.
    pub open spec fn slid(
        before: Game<B>,
        after: Game<B>,
        robot: RobotId,
        way: Way,
        moved: Result<bool, GameError>,
    ) -> bool {
        match pos_of(before.state.robots@, robot) {
            Some(source) if before.state.board@.contains(source@) => {
                let rest = before.state.board@.stop(
                    occupied_by(before.state.robots@),
                    source@,
                    way,
                );
                if rest == source@ {
                    &&& moved == Ok::<bool, GameError>(false)
                    &&& after@ == before@
                } else {
                    &&& moved == Ok::<bool, GameError>(true)
                    &&& after@ == before@.executed(
                        MoveRobotCommand { robot, source_pos: source, target_pos: rest.pos() },
                    )
                }
            },
            _ => {
                &&& moved == Err::<bool, GameError>(GameError::RobotHasNoPosition)
                &&& after@ == before@
            },
        }
    }

    /// Lets the robot named `robot` slide in direction `way`, and says
    /// whether it moved. A robot that stands on no cell of the board cannot
    /// slide. A slide that ends where it began is no move, and leaves no
    /// trace in the record.
    pub fn try_move_robot_in_dir(&mut self, robot: RobotId, way: Way) -> (moved: Result<
        bool,
        GameError,
    >)
        requires
            old(self).state.board.wf(),
        ensures
            final(self).state.board == old(self).state.board,
            Game::slid(*old(self), *final(self), robot, way, moved),
    {
        let source_pos = match self.state.robot_pos(robot) {
            Some(pos) => pos,
            None => {
                return Err(GameError::RobotHasNoPosition);
            },
        };
        if !self.state.board.pos_exists(&source_pos) {
            return Err(GameError::RobotHasNoPosition);
        }
        let target_pos = self.state.cast_ray(&source_pos, way);
        if target_pos != source_pos {
            self.move_robot(robot, target_pos)?;
            Ok(true)
        } else {
            Ok(false)
        }
    }

    /// Moves the robot named `robot` from the cell on which it stands to
    /// `target_pos`, and records the move.
    pub fn move_robot(&mut self, robot: RobotId, target_pos: LogicalPos) -> (done: Result<
        (),
        GameError,
    >)
        ensures
            final(self).state.board == old(self).state.board,
            match pos_of(old(self).state.robots@, robot) {
                Some(source_pos) => {
                    &&& done is Ok
                    &&& final(self)@ == old(self)@.executed(
                        MoveRobotCommand { robot, source_pos, target_pos },
                    )
                },
                None => {
                    &&& done == Err::<(), GameError>(GameError::RobotHasNoPosition)
                    &&& final(self)@ == old(self)@
                },
            },
    {
        let source_pos = match self.state.robot_pos(robot) {
            Some(pos) => pos,
            None => {
                return Err(GameError::RobotHasNoPosition);
            },
        };
        let command = MoveRobotCommand::new(robot, source_pos, target_pos);
        self.exec_command(command)
    }

    /// Carries out `command` and puts it on record. A command that fails is
    /// not recorded.
    fn exec_command(&mut self, command: MoveRobotCommand) -> (done: Result<(), GameError>)
        ensures
            final(self).state.board == old(self).state.board,
            final(self)@ == old(self)@.executed(command),
            done is Ok <==> slot_of(old(self).state.robots@, command.robot) is Some,
            done is Err ==> done == Err::<(), GameError>(GameError::NotPlayingRobot),
    {
        command.redo(self)?;
        self.undo_stack.push(command);
        self.redo_stack.clear();
        Ok(())
    }

    /// Forgets the moves made and the moves undone.
    pub fn clear_undo_stack(&mut self)
        ensures
            final(self).state == old(self).state,
            final(self).undo_stack@.len() == 0,
            final(self).redo_stack@.len() == 0,
    {
        self.undo_stack.clear();
        self.redo_stack.clear();
    }

    /// Undoes the newest move made, and says whether there was one. If the
    /// robot of that move has left the game, the move stays on record.
    pub fn undo(&mut self) -> (undone: Result<bool, GameError>)
        ensures
            final(self).state.board == old(self).state.board,
            final(self)@ == old(self)@.undone(),
            old(self).undo_stack@.len() == 0 ==> undone == Ok::<bool, GameError>(false),
            old(self).undo_stack@.len() > 0 ==> undone == if slot_of(
                old(self).state.robots@,
                old(self).undo_stack@.last().robot,
            ) is Some {
                Ok::<bool, GameError>(true)
            } else {
                Err::<bool, GameError>(GameError::NotPlayingRobot)
            },
    {
        if self.undo_stack.len() == 0 {
            return Ok(false);
        }
        let command = self.undo_stack[self.undo_stack.len() - 1];
        command.undo(self)?;
        self.undo_stack.pop();
        self.redo_stack.push(command);
        Ok(true)
    }

    /// Makes the move undone last again, and says whether there was one. If
    /// the robot of that move has left the game, the move stays where it
    /// was.
    pub fn redo(&mut self) -> (redone: Result<bool, GameError>)
        ensures
            final(self).state.board == old(self).state.board,
            final(self)@ == old(self)@.redone(),
            old(self).redo_stack@.len() == 0 ==> redone == Ok::<bool, GameError>(false),
            old(self).redo_stack@.len() > 0 ==> redone == if slot_of(
                old(self).state.robots@,
                old(self).redo_stack@.last().robot,
            ) is Some {
                Ok::<bool, GameError>(true)
            } else {
                Err::<bool, GameError>(GameError::NotPlayingRobot)
            },
    {
        if self.redo_stack.len() == 0 {
            return Ok(false);
        }
        let command = self.redo_stack[self.redo_stack.len() - 1];
        command.redo(self)?;
        self.redo_stack.pop();
        self.undo_stack.push(command);
        Ok(true)
    }

    /// Begins a new round: forgets the record, takes every robot off the
    /// board and sets each down again on a cell drawn at random. Where the
    /// board has cells and none of them is forbidden, the first robot is set
    /// down whatever is drawn; for the robots after it chance decides.
    pub fn reset_rand_pos(&mut self)
        requires
            old(self).state.board.wf(),
        ensures
            final(self).state.board == old(self).state.board,
            final(self).undo_stack@.len() == 0,
            final(self).redo_stack@.len() == 0,
            same_names(final(self).state.robots@, old(self).state.robots@),
            well_placed(final(self).state.robots@, final(self).state.board@),
            final(self).state.robots@.len() > 0 && final(self).state.board@.side > 0
                && no_cell_is_forbidden(final(self).state.board@)
                ==> final(self).state.robots@[0].pos is Some,
    {
        self.clear_undo_stack();
        self.state.reset_rand_pos();
    }
}

} // verus!
