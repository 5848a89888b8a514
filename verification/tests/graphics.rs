use ricochet::board::{Board, BoardByIndividualCells, EditableBoard};
use ricochet::game::RobotId;
use ricochet::graphics::{cell_stamps, SpriteId, Stamp};
use ricochet::moves::MovePossibility;
use ricochet::positioning::{FlipAxis, LogicalPos, RotateAngle, SideLength};

fn pos(x: usize, y: usize) -> LogicalPos {
    LogicalPos { x, y }
}

fn floor(flip: FlipAxis) -> Stamp {
    Stamp { sprite: SpriteId::CellBackground, rotation: RotateAngle::NoTurn, flip }
}

fn side_wall(rotation: RotateAngle) -> Stamp {
    Stamp { sprite: SpriteId::SideWall, rotation, flip: FlipAxis::NoFlip }
}

fn corner(rotation: RotateAngle) -> Stamp {
    Stamp { sprite: SpriteId::CornerWall, rotation, flip: FlipAxis::NoFlip }
}

#[test]
fn open_cell_is_its_floor() {
    let moves = MovePossibility::all();
    assert_eq!(cell_stamps(moves, pos(2, 2), 8, false), vec![floor(FlipAxis::NoFlip)]);
    assert_eq!(cell_stamps(moves, pos(2, 2), 8, true), vec![floor(FlipAxis::NoFlip)]);
}

#[test]
fn floor_is_mirrored_on_every_second_cell() {
    let moves = MovePossibility::all();
    assert_eq!(cell_stamps(moves, pos(2, 3), 8, false), vec![floor(FlipAxis::FlipHorizontal)]);
    assert_eq!(cell_stamps(moves, pos(3, 2), 8, false), vec![floor(FlipAxis::FlipHorizontal)]);
    assert_eq!(cell_stamps(moves, pos(3, 3), 8, false), vec![floor(FlipAxis::NoFlip)]);
    assert_eq!(cell_stamps(moves, pos(0, 0), 8, false), vec![floor(FlipAxis::NoFlip)]);
}

#[test]
fn forbidden_cell_is_one_picture() {
    let stamp = Stamp {
        sprite: SpriteId::ForbiddenCell,
        rotation: RotateAngle::NoTurn,
        flip: FlipAxis::NoFlip,
    };
    assert_eq!(cell_stamps(MovePossibility::none(), pos(1, 2), 8, false), vec![stamp]);
    assert_eq!(cell_stamps(MovePossibility::none(), pos(0, 0), 8, true), vec![stamp]);
}

#[test]
fn closed_sides_get_walls_and_posts() {
    let moves =
        MovePossibility { up: true, down: true, left: true, right: false, forbidden: false };
    assert_eq!(
        cell_stamps(moves, pos(2, 2), 8, false),
        vec![
            floor(FlipAxis::NoFlip),
            side_wall(RotateAngle::TurnLeft),
            corner(RotateAngle::TurnLeft),
            corner(RotateAngle::HalfTurn),
        ]
    );
    let moves =
        MovePossibility { up: false, down: true, left: false, right: true, forbidden: false };
    assert_eq!(
        cell_stamps(moves, pos(2, 3), 8, false),
        vec![
            floor(FlipAxis::FlipHorizontal),
            side_wall(RotateAngle::TurnRight),
            side_wall(RotateAngle::NoTurn),
            corner(RotateAngle::NoTurn),
            corner(RotateAngle::TurnLeft),
            corner(RotateAngle::TurnRight),
        ]
    );
    let moves =
        MovePossibility { up: true, down: false, left: true, right: true, forbidden: false };
    assert_eq!(
        cell_stamps(moves, pos(4, 4), 8, true),
        vec![
            floor(FlipAxis::NoFlip),
            side_wall(RotateAngle::HalfTurn),
            corner(RotateAngle::TurnRight),
            corner(RotateAngle::HalfTurn),
        ]
    );
}

#[test]
fn walls_on_the_edge_are_drawn_only_when_asked() {
    let mut board = BoardByIndividualCells::new();
    board.reset(&SideLength(4)).unwrap();
    let moves = board.moves_from(&pos(0, 0)).unwrap();
    assert_eq!(cell_stamps(moves, pos(0, 0), 4, false), vec![floor(FlipAxis::NoFlip)]);
    assert_eq!(
        cell_stamps(moves, pos(0, 0), 4, true),
        vec![
            floor(FlipAxis::NoFlip),
            side_wall(RotateAngle::TurnRight),
            side_wall(RotateAngle::NoTurn),
            corner(RotateAngle::NoTurn),
            corner(RotateAngle::TurnLeft),
            corner(RotateAngle::TurnRight),
        ]
    );
    let moves = board.moves_from(&pos(3, 3)).unwrap();
    assert_eq!(cell_stamps(moves, pos(3, 3), 4, false), vec![floor(FlipAxis::NoFlip)]);
    assert_eq!(
        cell_stamps(moves, pos(3, 3), 4, true),
        vec![
            floor(FlipAxis::NoFlip),
            side_wall(RotateAngle::TurnLeft),
            side_wall(RotateAngle::HalfTurn),
            corner(RotateAngle::TurnLeft),
            corner(RotateAngle::TurnRight),
            corner(RotateAngle::HalfTurn),
        ]
    );
}

#[test]
fn robots_have_pictures_of_their_own() {
    assert_ne!(SpriteId::Robot(RobotId::Red), SpriteId::Robot(RobotId::Blue));
    assert_eq!(SpriteId::Robot(RobotId::Green), SpriteId::Robot(RobotId::Green));
    assert_ne!(SpriteId::CellBackground, SpriteId::CurrentBoard);
}
