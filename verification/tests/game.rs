use std::rc::Rc;

use ricochet::board::{
    Board, BoardByIndirectTable, BoardByIndividualCells, BoardError, Builder, EditableBoard,
    TileSet,
};
use ricochet::config::{AppConfig, WindowConfig};
use ricochet::game::{
    CommandBase, Game, GameError, GameState, KeyboardController, MoveRobotCommand, Robot, RobotId,
};
use ricochet::positioning::{LogicalPos, SideLength, Way};
use ricochet::wall::{Side, Wall};

const IDS: [RobotId; 4] = [RobotId::Red, RobotId::Green, RobotId::Blue, RobotId::Yellow];

fn pos(x: usize, y: usize) -> LogicalPos {
    LogicalPos { x, y }
}

fn state(side: usize) -> GameState<BoardByIndirectTable> {
    let mut state = GameState::new();
    state.board.reset(&SideLength(side)).unwrap();
    state
}

fn game(side: usize) -> Game<BoardByIndirectTable> {
    Game::with_state(state(side))
}

fn places<B: EditableBoard>(game: &Game<B>) -> Vec<Option<LogicalPos>> {
    game.state.robots.iter().map(|robot| robot.pos).collect()
}

#[test]
fn new_state_has_four_robots_off_the_board() {
    let state = GameState::new();
    assert_eq!(state.board.side_length(), SideLength(0));
    assert_eq!(
        state.robots,
        vec![
            Robot { id: RobotId::Red, pos: None },
            Robot { id: RobotId::Green, pos: None },
            Robot { id: RobotId::Blue, pos: None },
            Robot { id: RobotId::Yellow, pos: None },
        ]
    );
    assert_eq!(Robot::new(RobotId::Blue), Robot { id: RobotId::Blue, pos: None });
    let other = GameState::with_board(BoardByIndividualCells::new());
    assert_eq!(other.robots, state.robots);
}

#[test]
fn robots_are_found_by_name() {
    let mut state = state(8);
    assert_eq!(state.robot_index(RobotId::Red), Some(0));
    assert_eq!(state.robot_index(RobotId::Yellow), Some(3));
    assert_eq!(state.robot(RobotId::Green), Some(&Robot { id: RobotId::Green, pos: None }));
    assert_eq!(state.robot_pos(RobotId::Green), None);
    state.place_robot(RobotId::Green, pos(3, 4));
    assert_eq!(state.robot_pos(RobotId::Green), Some(pos(3, 4)));
    assert_eq!(state.robot_pos(RobotId::Red), None);
    assert_eq!(
        state.robot(RobotId::Green),
        Some(&Robot { id: RobotId::Green, pos: Some(pos(3, 4)) })
    );
    state.robot_mut(RobotId::Blue).unwrap().pos = Some(pos(1, 1));
    assert_eq!(state.robot_pos(RobotId::Blue), Some(pos(1, 1)));
    assert_eq!(state.robots[2], Robot { id: RobotId::Blue, pos: Some(pos(1, 1)) });
    state.robots.remove(1);
    assert_eq!(state.robot_index(RobotId::Green), None);
    assert_eq!(state.robot(RobotId::Green), None);
    assert!(state.robot_mut(RobotId::Green).is_none());
    assert_eq!(state.robot_pos(RobotId::Green), None);
    assert_eq!(state.robot_index(RobotId::Blue), Some(1));
}

#[test]
fn the_first_robot_of_a_name_counts() {
    let mut state = state(8);
    state.robots.push(Robot { id: RobotId::Red, pos: Some(pos(7, 7)) });
    assert_eq!(state.robot_index(RobotId::Red), Some(0));
    assert_eq!(state.robot_pos(RobotId::Red), None);
    state.place_robot(RobotId::Red, pos(2, 2));
    assert_eq!(state.robots[0].pos, Some(pos(2, 2)));
    assert_eq!(state.robots[4].pos, Some(pos(7, 7)));
}

#[test]
fn lone_robot_slides_to_the_edge() {
    let mut state = state(16);
    state.place_robot(RobotId::Red, pos(0, 0));
    assert_eq!(state.cast_ray(&pos(0, 0), Way::Right), pos(15, 0));
    assert_eq!(state.cast_ray(&pos(0, 0), Way::Down), pos(0, 15));
    assert_eq!(state.cast_ray(&pos(0, 0), Way::Left), pos(0, 0));
    assert_eq!(state.cast_ray(&pos(0, 0), Way::Up), pos(0, 0));
}

#[test]
fn robot_stops_one_cell_short_of_another() {
    let mut state = state(16);
    state.place_robot(RobotId::Red, pos(0, 0));
    state.place_robot(RobotId::Green, pos(10, 0));
    assert_eq!(state.cast_ray(&pos(0, 0), Way::Right), pos(9, 0));
    assert_eq!(state.cast_ray(&pos(10, 0), Way::Left), pos(1, 0));
    assert_eq!(state.cast_ray(&pos(10, 0), Way::Right), pos(15, 0));
    assert_eq!(state.cast_ray(&pos(0, 0), Way::Down), pos(0, 15));
}

#[test]
fn the_nearest_of_wall_and_robots_stops_the_slide() {
    let mut state = state(16);
    state.place_robot(RobotId::Red, pos(2, 3));
    state.place_robot(RobotId::Green, pos(12, 3));
    state.place_robot(RobotId::Blue, pos(8, 3));
    state.place_robot(RobotId::Yellow, pos(5, 9));
    assert_eq!(state.cast_ray(&pos(2, 3), Way::Right), pos(7, 3));
    state.board.put_wall(&Wall { pos: pos(5, 3), side: Side::Right }).unwrap();
    assert_eq!(state.cast_ray(&pos(2, 3), Way::Right), pos(5, 3));
    assert_eq!(state.cast_ray(&pos(12, 3), Way::Left), pos(9, 3));
    assert_eq!(state.cast_ray(&pos(8, 3), Way::Left), pos(6, 3));
    state.board.put_wall(&Wall { pos: pos(7, 3), side: Side::Right }).unwrap();
    assert_eq!(state.cast_ray(&pos(12, 3), Way::Left), pos(9, 3));
    assert_eq!(state.cast_ray(&pos(8, 3), Way::Right), pos(11, 3));
    assert_eq!(state.cast_ray(&pos(5, 9), Way::Up), pos(5, 0));
}

#[test]
fn neighbouring_robot_blocks_at_once() {
    let mut state = state(4);
    state.place_robot(RobotId::Red, pos(1, 1));
    state.place_robot(RobotId::Green, pos(2, 1));
    assert_eq!(state.cast_ray(&pos(1, 1), Way::Right), pos(1, 1));
    assert_eq!(state.cast_ray(&pos(2, 1), Way::Left), pos(2, 1));
}

#[test]
fn robots_off_the_board_block_nobody() {
    let mut state = state(4);
    state.place_robot(RobotId::Red, pos(0, 1));
    state.place_robot(RobotId::Green, pos(9, 1));
    state.place_robot(RobotId::Blue, pos(usize::MAX, 1));
    assert_eq!(state.cast_ray(&pos(0, 1), Way::Right), pos(3, 1));
    assert_eq!(state.cast_ray(&pos(9, 1), Way::Left), pos(9, 1));
    assert_eq!(state.cast_ray(&pos(4, 0), Way::Down), pos(4, 0));
}

#[test]
fn placing_a_robot_that_is_not_there_changes_nothing() {
    let mut state = state(4);
    state.robots.remove(2);
    let before = state.robots.clone();
    state.place_robot(RobotId::Blue, pos(1, 1));
    assert_eq!(state.robots, before);
}

#[test]
fn slide_moves_the_robot_and_is_recorded() {
    let mut game = game(16);
    game.state.place_robot(RobotId::Red, pos(0, 0));
    assert_eq!(game.try_move_robot_in_dir(RobotId::Red, Way::Right), Ok(true));
    assert_eq!(game.state.robot_pos(RobotId::Red), Some(pos(15, 0)));
    assert_eq!(
        game.undo_stack,
        vec![MoveRobotCommand::new(RobotId::Red, pos(0, 0), pos(15, 0))]
    );
    assert!(game.redo_stack.is_empty());
}

#[test]
fn slide_that_goes_nowhere_is_no_move() {
    let mut game = game(16);
    game.state.place_robot(RobotId::Red, pos(0, 0));
    assert_eq!(game.try_move_robot_in_dir(RobotId::Red, Way::Left), Ok(false));
    assert_eq!(game.state.robot_pos(RobotId::Red), Some(pos(0, 0)));
    assert!(game.undo_stack.is_empty());
    game.try_move_robot_in_dir(RobotId::Red, Way::Down).unwrap();
    game.undo().unwrap();
    assert_eq!(game.redo_stack.len(), 1);
    assert_eq!(game.try_move_robot_in_dir(RobotId::Red, Way::Up), Ok(false));
    assert_eq!(game.redo_stack.len(), 1);
}

#[test]
fn robot_without_a_cell_cannot_slide() {
    let mut game = game(16);
    assert_eq!(
        game.try_move_robot_in_dir(RobotId::Red, Way::Right),
        Err(GameError::RobotHasNoPosition)
    );
    assert_eq!(game.move_robot(RobotId::Red, pos(1, 1)), Err(GameError::RobotHasNoPosition));
    game.state.place_robot(RobotId::Green, pos(20, 1));
    assert_eq!(
        game.try_move_robot_in_dir(RobotId::Green, Way::Left),
        Err(GameError::RobotHasNoPosition)
    );
    game.state.robots.remove(0);
    assert_eq!(
        game.try_move_robot_in_dir(RobotId::Red, Way::Right),
        Err(GameError::RobotHasNoPosition)
    );
    assert!(game.undo_stack.is_empty());
    assert!(game.redo_stack.is_empty());
    assert_eq!(game.state.robot_pos(RobotId::Green), Some(pos(20, 1)));
}

#[test]
fn move_robot_goes_where_it_is_told() {
    let mut game = game(16);
    game.state.place_robot(RobotId::Blue, pos(2, 2));
    assert_eq!(game.move_robot(RobotId::Blue, pos(9, 4)), Ok(()));
    assert_eq!(game.state.robot_pos(RobotId::Blue), Some(pos(9, 4)));
    assert_eq!(
        game.undo_stack,
        vec![MoveRobotCommand { robot: RobotId::Blue, source_pos: pos(2, 2), target_pos: pos(9, 4) }]
    );
}

#[test]
fn undo_and_redo_without_moves_do_nothing() {
    let mut game = game(16);
    game.state.place_robot(RobotId::Red, pos(3, 3));
    assert_eq!(game.undo(), Ok(false));
    assert_eq!(game.redo(), Ok(false));
    assert_eq!(game.state.robot_pos(RobotId::Red), Some(pos(3, 3)));
}

#[test]
fn undo_takes_moves_back_and_redo_makes_them_again() {
    let mut game = game(16);
    game.state.board.put_wall(&Wall { pos: pos(4, 0), side: Side::Right }).unwrap();
    game.state.place_robot(RobotId::Red, pos(0, 0));
    game.state.place_robot(RobotId::Green, pos(10, 10));
    game.state.place_robot(RobotId::Blue, pos(4, 10));
    let start = places(&game);
    let slides = [
        (RobotId::Red, Way::Right),
        (RobotId::Green, Way::Up),
        (RobotId::Red, Way::Down),
        (RobotId::Blue, Way::Left),
        (RobotId::Green, Way::Left),
        (RobotId::Red, Way::Right),
        (RobotId::Blue, Way::Right),
    ];
    let mut made = 0;
    let mut after_each = vec![start.clone()];
    for (robot, way) in slides {
        if game.try_move_robot_in_dir(robot, way).unwrap() {
            made += 1;
            after_each.push(places(&game));
        }
    }
    assert_eq!(made, 7);
    assert_eq!(game.undo_stack.len(), made);
    let end = places(&game);
    assert_eq!(
        end,
        vec![Some(pos(15, 9)), Some(pos(5, 0)), Some(pos(15, 10)), None]
    );
    for left in (0..made).rev() {
        assert_eq!(game.undo(), Ok(true));
        assert_eq!(places(&game), after_each[left]);
    }
    assert_eq!(places(&game), start);
    assert_eq!(game.undo(), Ok(false));
    assert!(game.undo_stack.is_empty());
    assert_eq!(game.redo_stack.len(), made);
    for again in 1..=made {
        assert_eq!(game.redo(), Ok(true));
        assert_eq!(places(&game), after_each[again]);
    }
    assert_eq!(places(&game), end);
    assert_eq!(game.redo(), Ok(false));
    assert_eq!(game.undo_stack.len(), made);
    assert!(game.redo_stack.is_empty());
}

#[test]
fn a_new_move_forgets_the_moves_undone() {
    let mut game = game(8);
    game.state.place_robot(RobotId::Red, pos(0, 0));
    game.try_move_robot_in_dir(RobotId::Red, Way::Right).unwrap();
    game.try_move_robot_in_dir(RobotId::Red, Way::Down).unwrap();
    game.undo().unwrap();
    assert_eq!(game.redo_stack.len(), 1);
    game.try_move_robot_in_dir(RobotId::Red, Way::Left).unwrap();
    assert!(game.redo_stack.is_empty());
    assert_eq!(game.redo(), Ok(false));
    assert_eq!(game.undo_stack.len(), 2);
    game.clear_undo_stack();
    assert!(game.undo_stack.is_empty());
    assert_eq!(game.undo(), Ok(false));
    assert_eq!(game.state.robot_pos(RobotId::Red), Some(pos(0, 0)));
}

#[test]
fn moves_of_a_robot_that_left_stay_on_record() {
    let mut game = game(8);
    game.state.place_robot(RobotId::Red, pos(0, 0));
    game.try_move_robot_in_dir(RobotId::Red, Way::Right).unwrap();
    let robot = game.state.robots.remove(0);
    assert_eq!(game.undo(), Err(GameError::NotPlayingRobot));
    assert_eq!(game.undo_stack.len(), 1);
    assert!(game.redo_stack.is_empty());
    game.state.robots.push(robot);
    assert_eq!(game.undo(), Ok(true));
    game.state.robots.pop();
    assert_eq!(game.redo(), Err(GameError::NotPlayingRobot));
    assert_eq!(game.redo_stack.len(), 1);
    assert!(game.undo_stack.is_empty());
}

#[test]
fn commands_set_the_robot_down() {
    let mut game = game(8);
    game.state.place_robot(RobotId::Yellow, pos(1, 1));
    let command = MoveRobotCommand::new(RobotId::Yellow, pos(1, 1), pos(1, 7));
    assert_eq!(command.redo(&mut game), Ok(()));
    assert_eq!(game.state.robot_pos(RobotId::Yellow), Some(pos(1, 7)));
    assert_eq!(command.undo(&mut game), Ok(()));
    assert_eq!(game.state.robot_pos(RobotId::Yellow), Some(pos(1, 1)));
    assert!(game.undo_stack.is_empty());
    game.state.robots.clear();
    assert_eq!(command.redo(&mut game), Err(GameError::NotPlayingRobot));
    assert_eq!(command.undo(&mut game), Err(GameError::NotPlayingRobot));
}

#[test]
fn start_cells_are_free_cells_of_the_board() {
    let mut state = state(4);
    state.board.forbid_cell(&pos(2, 2)).unwrap();
    state.place_robot(RobotId::Red, pos(1, 1));
    assert!(state.accepts_start(&pos(0, 0)));
    assert!(!state.accepts_start(&pos(1, 1)));
    assert!(!state.accepts_start(&pos(2, 2)));
    assert!(!state.accepts_start(&pos(4, 0)));
    assert!(!state.accepts_start(&pos(0, 4)));
}

#[test]
fn no_start_cell_on_a_board_without_cells() {
    let state = GameState::new();
    assert_eq!(state.find_start_pos(), None);
    let mut game = Game::new();
    game.reset_rand_pos();
    assert_eq!(places(&game), vec![None, None, None, None]);
}

#[test]
fn a_start_cell_is_found_where_every_cell_will_do() {
    for side in [2, 3, 16] {
        let state = state(side);
        for _ in 0..50 {
            let found = state.find_start_pos().unwrap();
            assert!(found.x < side);
            assert!(found.y < side);
        }
    }
}

#[test]
fn no_start_cell_when_every_cell_is_taken_or_forbidden() {
    let mut state = state(2);
    state.board.forbid_cell(&pos(0, 0)).unwrap();
    state.place_robot(RobotId::Red, pos(1, 0));
    state.place_robot(RobotId::Green, pos(0, 1));
    state.place_robot(RobotId::Blue, pos(1, 1));
    assert_eq!(state.find_start_pos(), None);
    state.robots[2].pos = None;
    assert_eq!(state.find_start_pos(), Some(pos(1, 1)));
}

#[test]
fn random_start_sets_robots_on_different_free_cells() {
    for _ in 0..20 {
        let mut game = game(3);
        game.state.board.forbid_cell(&pos(1, 1)).unwrap();
        game.state.place_robot(RobotId::Red, pos(0, 0));
        game.try_move_robot_in_dir(RobotId::Red, Way::Right).unwrap();
        game.reset_rand_pos();
        assert!(game.undo_stack.is_empty());
        assert!(game.redo_stack.is_empty());
        assert_eq!(game.state.robots.len(), 4);
        for (robot, id) in game.state.robots.iter().zip(IDS) {
            assert_eq!(robot.id, id);
            let at = robot.pos.unwrap();
            assert!(game.state.board.pos_exists(&at));
            assert_ne!(at, pos(1, 1));
        }
        for i in 0..4 {
            for j in 0..i {
                assert_ne!(game.state.robots[i].pos, game.state.robots[j].pos);
            }
        }
    }
}

#[test]
fn slides_keep_robots_on_different_free_cells() {
    let mut game = game(6);
    game.state.board.forbid_cell(&pos(2, 2)).unwrap();
    game.state.board.put_wall(&Wall { pos: pos(4, 1), side: Side::Down }).unwrap();
    game.state.board.put_wall(&Wall { pos: pos(1, 4), side: Side::Right }).unwrap();
    game.state.place_robot(RobotId::Red, pos(0, 0));
    game.state.place_robot(RobotId::Green, pos(5, 0));
    game.state.place_robot(RobotId::Blue, pos(0, 5));
    game.state.place_robot(RobotId::Yellow, pos(3, 3));
    let ways = [Way::Right, Way::Down, Way::Left, Way::Up];
    for turn in 0..200usize {
        let robot = IDS[(turn * 7 + turn / 3) % 4];
        let way = ways[(turn * 5 + turn / 4) % 4];
        game.try_move_robot_in_dir(robot, way).unwrap();
        for i in 0..4 {
            let at = game.state.robots[i].pos.unwrap();
            assert!(game.state.board.pos_exists(&at));
            assert_eq!(game.state.board.is_start_pos(&at), Ok(true));
            for j in 0..i {
                assert_ne!(game.state.robots[j].pos, Some(at));
            }
        }
    }
    assert!(game.undo_stack.len() > 50);
    while game.undo().unwrap() {}
    assert_eq!(
        places(&game),
        vec![Some(pos(0, 0)), Some(pos(5, 0)), Some(pos(0, 5)), Some(pos(3, 3))]
    );
}

#[test]
fn the_first_robot_is_set_down_where_no_cell_is_forbidden() {
    for side in [2, 5] {
        for _ in 0..50 {
            let mut game = game(side);
            game.state.board.put_wall(&Wall { pos: pos(0, 0), side: Side::Right }).unwrap();
            game.state.place_robot(RobotId::Green, pos(1, 1));
            game.reset_rand_pos();
            let first = game.state.robots[0].pos.unwrap();
            assert!(game.state.board.pos_exists(&first));
            let mut state = state(side);
            state.place_robot(RobotId::Yellow, pos(0, 1));
            state.reset_rand_pos();
            assert!(state.robots[0].pos.is_some());
        }
    }
}

#[test]
fn keys_move_the_current_robot_and_choose_another() {
    let mut controller = KeyboardController::new([82, 81, 80, 79], [30, 31, 32, 33]);
    assert_eq!(controller.current_robot, RobotId::Red);
    assert_eq!(controller.way_from_scancode(82), Some(Way::Up));
    assert_eq!(controller.way_from_scancode(81), Some(Way::Down));
    assert_eq!(controller.way_from_scancode(80), Some(Way::Left));
    assert_eq!(controller.way_from_scancode(79), Some(Way::Right));
    assert_eq!(controller.way_from_scancode(30), None);
    assert_eq!(controller.robot_from_scancode(30), Some(RobotId::Red));
    assert_eq!(controller.robot_from_scancode(31), Some(RobotId::Green));
    assert_eq!(controller.robot_from_scancode(32), Some(RobotId::Blue));
    assert_eq!(controller.robot_from_scancode(33), Some(RobotId::Yellow));
    assert_eq!(controller.robot_from_scancode(79), None);

    let mut game = game(8);
    game.state.place_robot(RobotId::Red, pos(0, 0));
    game.state.place_robot(RobotId::Green, pos(7, 7));
    assert_eq!(controller.process_keypress(&mut game, 79), Ok(true));
    assert_eq!(game.state.robot_pos(RobotId::Red), Some(pos(7, 0)));
    assert_eq!(controller.process_keypress(&mut game, 79), Ok(true));
    assert_eq!(game.undo_stack.len(), 1);
    assert_eq!(controller.process_keypress(&mut game, 31), Ok(true));
    assert_eq!(controller.current_robot, RobotId::Green);
    assert_eq!(controller.process_keypress(&mut game, 82), Ok(true));
    assert_eq!(game.state.robot_pos(RobotId::Green), Some(pos(7, 1)));
    assert_eq!(controller.process_keypress(&mut game, 4), Ok(false));
    assert_eq!(controller.current_robot, RobotId::Green);
    assert_eq!(controller.process_keypress(&mut game, 32), Ok(true));
    assert_eq!(
        controller.process_keypress(&mut game, 80),
        Err(GameError::RobotHasNoPosition)
    );
    assert_eq!(game.undo_stack.len(), 2);
}

#[test]
fn a_key_bound_twice_is_a_move_key_first() {
    let mut controller = KeyboardController::new([5, 5, 6, 7], [5, 8, 9, 8]);
    assert_eq!(controller.way_from_scancode(5), Some(Way::Up));
    assert_eq!(controller.robot_from_scancode(8), Some(RobotId::Green));
    let mut game = game(4);
    game.state.place_robot(RobotId::Red, pos(0, 3));
    assert_eq!(controller.process_keypress(&mut game, 5), Ok(true));
    assert_eq!(game.state.robot_pos(RobotId::Red), Some(pos(0, 0)));
    assert_eq!(controller.current_robot, RobotId::Red);
}

fn config(side: usize, tile_sets: Vec<TileSet>) -> Rc<AppConfig> {
    Rc::new(AppConfig {
        window: WindowConfig::default(),
        assets_path: "assets".to_string(),
        board_side_length: SideLength(side),
        tile_sets,
    })
}

fn parsed(name: &str, texts: &[&str], side: usize) -> TileSet {
    let mut set = TileSet::new(
        SideLength(side),
        name.to_string(),
        texts.iter().map(|text| text.to_string()).collect(),
    );
    set.parse().unwrap();
    set
}

#[test]
fn builder_empties_the_board_and_fills_the_corners() {
    let config = config(6, vec![parsed("only", &[".|..."], 2)]);
    let builder = Builder::new(&config);
    let mut state = state(9);
    state.board.put_wall(&Wall { pos: pos(3, 3), side: Side::Down }).unwrap();
    state.place_robot(RobotId::Red, pos(8, 8));
    assert_eq!(builder.build_on(&mut state), Ok(()));
    assert_eq!(state.board.side_length(), SideLength(6));
    assert_eq!(state.robot_pos(RobotId::Red), Some(pos(8, 8)));
    assert!(state.board.moves_from(&pos(3, 3)).unwrap().down);
    assert!(!state.board.moves_from(&pos(0, 0)).unwrap().right);
    assert!(!state.board.moves_from(&pos(5, 0)).unwrap().down);
    assert!(!state.board.moves_from(&pos(5, 5)).unwrap().left);
    assert!(!state.board.moves_from(&pos(0, 5)).unwrap().up);
}

#[test]
fn builder_refuses_a_side_below_two() {
    let config = config(1, vec![parsed("only", &[".|..."], 2)]);
    let builder = Builder::new(&config);
    let mut state = state(9);
    state.board.put_wall(&Wall { pos: pos(3, 3), side: Side::Down }).unwrap();
    assert_eq!(builder.build_on(&mut state), Err(BoardError::InvalidDimensionToBuildBoard));
    assert_eq!(state.board.side_length(), SideLength(9));
    assert!(!state.board.moves_from(&pos(3, 3)).unwrap().down);
}

#[test]
fn builder_without_tiles_leaves_an_empty_board() {
    let mut state = state(9);
    state.board.put_wall(&Wall { pos: pos(3, 3), side: Side::Down }).unwrap();
    let builder = Builder::new(&config(5, vec![]));
    assert_eq!(builder.build_on(&mut state), Err(BoardError::EmptyTileSet));
    assert_eq!(state.board.side_length(), SideLength(5));
    assert!(state.board.moves_from(&pos(3, 3)).unwrap().down);
    let builder = Builder::new(&config(7, vec![parsed("bare", &[], 2)]));
    assert_eq!(builder.build_on(&mut state), Err(BoardError::EmptyTileSet));
    assert_eq!(state.board.side_length(), SideLength(7));
}

#[test]
fn builder_with_a_tile_too_large_leaves_an_empty_board() {
    let builder = Builder::new(&config(2, vec![parsed("large", &["........_."], 3)]));
    let mut state = state(9);
    assert_eq!(
        builder.build_on(&mut state),
        Err(BoardError::OutOfBoardPosition { pos: pos(1, 2), side_length: SideLength(2) })
    );
    assert_eq!(state.board.side_length(), SideLength(2));
    assert!(state.board.moves_from(&pos(0, 0)).unwrap().right);
    assert!(state.board.moves_from(&pos(0, 0)).unwrap().down);
}
