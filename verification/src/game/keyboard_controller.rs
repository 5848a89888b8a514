//! From keys to moves: four keys give the direction of a slide, four more
//! choose the robot that slides.

use vstd::prelude::*;
use crate::board::board::EditableBoard;
use crate::game::error::GameError;
use crate::game::game::Game;
use crate::game::robot::RobotId;
use crate::positioning::Way;

verus! {

/// The keys of the game, each held as the number of its place on the
/// keyboard, and the robot that the direction keys move.
#[derive(Debug)]
pub struct KeyboardController {
    /// The keys for up, down, left and right, in that order.
    pub move_keys: [i32; 4],
    /// The keys for the red, green, blue and yellow robot, in that order.
    pub robot_keys: [i32; 4],
    pub current_robot: RobotId,
}

/// The direction that the move key at place `index` stands for.
pub open spec fn way_at(index: int) -> Way {
    if index == 0 {
        Way::Up
    } else if index == 1 {
        Way::Down
    } else if index == 2 {
        Way::Left
    } else {
        Way::Right
    }
}

/// The robot that the robot key at place `index` stands for.
pub open spec fn robot_at(index: int) -> RobotId {
    if index == 0 {
        RobotId::Red
    } else if index == 1 {
        RobotId::Green
    } else if index == 2 {
        RobotId::Blue
    } else {
        RobotId::Yellow
    }
}

/// The first place at which `keys` holds `scancode`.
pub open spec fn key_place(keys: Seq<i32>, scancode: i32) -> Option<int> {
    if keys[0] == scancode {
        Some(0)
    } else if keys[1] == scancode {
        Some(1)
    } else if keys[2] == scancode {
        Some(2)
    } else if keys[3] == scancode {
        Some(3)
    } else {
        None
    }
}

/// The first place at which `keys` holds `scancode`.
fn place_of(keys: &[i32; 4], scancode: i32) -> (place: Option<usize>)
    ensures
        match place {
            Some(index) => key_place(keys@, scancode) == Some(index as int),
            None => key_place(keys@, scancode) is None,
        },
{
    let mut index: usize = 0;
    while index < 4
        invariant
            index <= 4,
            forall|j: int| 0 <= j < index ==> keys@[j] != scancode,
        decreases 4 - index,
    {
        if keys[index] == scancode {
            return Some(index);
        }
        index += 1;
    }
    None
}

impl KeyboardController {
    /// A controller with the given keys that moves the red robot first.
    pub fn new(move_keys: [i32; 4], robot_keys: [i32; 4]) -> (controller: KeyboardController)
        ensures
            controller == (KeyboardController {
                move_keys,
                robot_keys,
                current_robot: RobotId::Red,
            }),
    {
        KeyboardController { move_keys, robot_keys, current_robot: RobotId::Red }
    }

    /// The direction that the key `scancode` asks for, if it is a move key.
    pub open spec fn way_of(&self, scancode: i32) -> Option<Way> {
        match key_place(self.move_keys@, scancode) {
            Some(index) => Some(way_at(index)),
            None => None,
        }
    }

    /// The robot that the key `scancode` chooses, if it is a robot key.
    pub open spec fn robot_of(&self, scancode: i32) -> Option<RobotId> {
        match key_place(self.robot_keys@, scancode) {
            Some(index) => Some(robot_at(index)),
            None => None,
        }
    }

    /// Takes the press of the key `scancode`, and says whether the key was
    /// one of the game. A move key lets the current robot slide, whether or
    /// not it gets anywhere; a robot key makes its robot the current one;
    /// any other key does nothing.
    pub fn process_keypress<B: EditableBoard>(
        &mut self,
        game: &mut Game<B>,
        scancode: i32,
    ) -> (used: Result<bool, GameError>)
        requires
            old(game).state.board.wf(),
        ensures
            final(game).state.board == old(game).state.board,
            final(self).move_keys == old(self).move_keys,
            final(self).robot_keys == old(self).robot_keys,
            match old(self).way_of(scancode) {
                Some(way) => {
                    &&& final(self).current_robot == old(self).current_robot
                    &&& exists|moved: Result<bool, GameError>|
                        {
                            &&& #[trigger] Game::slid(
                                *old(game),
                                *final(game),
                                old(self).current_robot,
                                way,
                                moved,
                            )
                            &&& used == match moved {
                                Ok(_) => Ok::<bool, GameError>(true),
                                Err(error) => Err::<bool, GameError>(error),
                            }
                        }
                },
                None => {
                    &&& *final(game) == *old(game)
                    &&& match old(self).robot_of(scancode) {
                        Some(robot) => {
                            &&& used == Ok::<bool, GameError>(true)
                            &&& final(self).current_robot == robot
                        },
                        None => {
                            &&& used == Ok::<bool, GameError>(false)
                            &&& final(self).current_robot == old(self).current_robot
                        },
                    }
                },
            },
    {
        if let Some(way) = self.way_from_scancode(scancode) {
            match game.try_move_robot_in_dir(self.current_robot, way) {
                Ok(_) => Ok(true),
                Err(error) => Err(error),
            }
        } else if let Some(robot) = self.robot_from_scancode(scancode) {
            self.current_robot = robot;
            Ok(true)
        } else {
            Ok(false)
        }
    }

    /// The direction that the key `scancode` asks for.
    pub fn way_from_scancode(&self, scancode: i32) -> (way: Option<Way>)
        ensures
            way == self.way_of(scancode),
    {
        match place_of(&self.move_keys, scancode) {
            Some(0) => Some(Way::Up),
            Some(1) => Some(Way::Down),
            Some(2) => Some(Way::Left),
            Some(_) => Some(Way::Right),
            None => None,
        }
    }

    /// The robot that the key `scancode` chooses.
    pub fn robot_from_scancode(&self, scancode: i32) -> (robot: Option<RobotId>)
        ensures
            robot == self.robot_of(scancode),
    {
        match place_of(&self.robot_keys, scancode) {
            Some(0) => Some(RobotId::Red),
            Some(1) => Some(RobotId::Green),
            Some(2) => Some(RobotId::Blue),
            Some(_) => Some(RobotId::Yellow),
            None => None,
        }
    }
}

} // verus!
