use ricochet::positioning::{Hit, LogicalPos, RotateAngle, Way};
use ricochet::wall::Side;

fn pos(x: usize, y: usize) -> LogicalPos {
    LogicalPos { x, y }
}

#[test]
fn distance_is_signed_along_each_way() {
    let from = pos(3, 7);
    let to = pos(5, 2);
    assert_eq!(from.distance_to(&to, Way::Up), 5);
    assert_eq!(from.distance_to(&to, Way::Down), -5);
    assert_eq!(from.distance_to(&to, Way::Left), -2);
    assert_eq!(from.distance_to(&to, Way::Right), 2);
    assert_eq!(from.distance_to(&from, Way::Up), 0);
}

#[test]
fn distance_to_far_corner_of_a_board() {
    assert_eq!(pos(0, 0).distance_to(&pos(15, 0), Way::Right), 15);
    assert_eq!(pos(0, 0).distance_to(&pos(0, 15), Way::Down), 15);
}

#[test]
fn hit_is_the_cell_before_an_occupant_ahead() {
    let mover = pos(0, 0);
    let occupant = pos(10, 0);
    assert_eq!(
        mover.find_hit_to(&occupant, Way::Right),
        Some(Hit { pos: pos(9, 0), distance: 9 })
    );
    assert_eq!(
        occupant.find_hit_to(&mover, Way::Left),
        Some(Hit { pos: pos(1, 0), distance: 9 })
    );
    assert_eq!(
        pos(4, 8).find_hit_to(&pos(4, 2), Way::Up),
        Some(Hit { pos: pos(4, 3), distance: 5 })
    );
    assert_eq!(
        pos(4, 2).find_hit_to(&pos(4, 8), Way::Down),
        Some(Hit { pos: pos(4, 7), distance: 5 })
    );
}

#[test]
fn neighbour_ahead_stops_at_once() {
    assert_eq!(
        pos(3, 3).find_hit_to(&pos(4, 3), Way::Right),
        Some(Hit { pos: pos(3, 3), distance: 0 })
    );
}

#[test]
fn no_hit_behind_aside_or_on_the_spot() {
    let mover = pos(5, 5);
    assert_eq!(mover.find_hit_to(&pos(2, 5), Way::Right), None);
    assert_eq!(mover.find_hit_to(&pos(8, 5), Way::Left), None);
    assert_eq!(mover.find_hit_to(&pos(5, 8), Way::Up), None);
    assert_eq!(mover.find_hit_to(&pos(5, 2), Way::Down), None);
    assert_eq!(mover.find_hit_to(&pos(8, 6), Way::Right), None);
    assert_eq!(mover.find_hit_to(&pos(6, 2), Way::Up), None);
    for way in [Way::Up, Way::Down, Way::Left, Way::Right] {
        assert_eq!(mover.find_hit_to(&mover, way), None);
    }
}

#[test]
fn direct_path_lists_the_cells_strictly_between() {
    assert_eq!(
        pos(1, 4).direct_path_to(&pos(5, 4)),
        Some(vec![pos(2, 4), pos(3, 4), pos(4, 4)])
    );
    assert_eq!(
        pos(5, 4).direct_path_to(&pos(1, 4)),
        Some(vec![pos(4, 4), pos(3, 4), pos(2, 4)])
    );
    assert_eq!(
        pos(2, 0).direct_path_to(&pos(2, 3)),
        Some(vec![pos(2, 1), pos(2, 2)])
    );
    assert_eq!(
        pos(2, 3).direct_path_to(&pos(2, 0)),
        Some(vec![pos(2, 2), pos(2, 1)])
    );
}

#[test]
fn direct_path_between_neighbours_is_empty() {
    assert_eq!(pos(2, 2).direct_path_to(&pos(3, 2)), Some(vec![]));
    assert_eq!(pos(2, 2).direct_path_to(&pos(2, 1)), Some(vec![]));
}

#[test]
fn no_direct_path_unless_one_coordinate_differs() {
    assert_eq!(pos(2, 2).direct_path_to(&pos(2, 2)), None);
    assert_eq!(pos(2, 2).direct_path_to(&pos(3, 3)), None);
    assert_eq!(pos(0, 5).direct_path_to(&pos(7, 1)), None);
}

#[test]
fn rotation_table_of_ways() {
    let (no_turn, turn_right) = (RotateAngle::NoTurn, RotateAngle::TurnRight);
    let (half_turn, turn_left) = (RotateAngle::HalfTurn, RotateAngle::TurnLeft);
    let table = [
        (Way::Up, no_turn, Way::Up),
        (Way::Up, turn_right, Way::Right),
        (Way::Up, half_turn, Way::Down),
        (Way::Up, turn_left, Way::Left),
        (Way::Right, no_turn, Way::Right),
        (Way::Right, turn_right, Way::Down),
        (Way::Right, half_turn, Way::Left),
        (Way::Right, turn_left, Way::Up),
        (Way::Down, no_turn, Way::Down),
        (Way::Down, turn_right, Way::Left),
        (Way::Down, half_turn, Way::Up),
        (Way::Down, turn_left, Way::Right),
        (Way::Left, no_turn, Way::Left),
        (Way::Left, turn_right, Way::Up),
        (Way::Left, half_turn, Way::Right),
        (Way::Left, turn_left, Way::Down),
    ];
    for (way, angle, turned) in table {
        assert_eq!(way.rotate(angle), turned);
    }
}

#[test]
fn four_quarter_turns_come_back() {
    for way in [Way::Up, Way::Down, Way::Left, Way::Right] {
        let mut turned = way;
        for _ in 0..4 {
            turned = turned.rotate(RotateAngle::TurnRight);
        }
        assert_eq!(turned, way);
        assert_eq!(
            way.rotate(RotateAngle::TurnRight).rotate(RotateAngle::TurnLeft),
            way
        );
        assert_eq!(
            way.rotate(RotateAngle::TurnRight).rotate(RotateAngle::TurnRight),
            way.rotate(RotateAngle::HalfTurn)
        );
    }
}

#[test]
fn sides_turn_as_ways_do() {
    for side in [Side::Up, Side::Down, Side::Left, Side::Right] {
        for angle in [
            RotateAngle::NoTurn,
            RotateAngle::TurnLeft,
            RotateAngle::TurnRight,
            RotateAngle::HalfTurn,
        ] {
            assert_eq!(side.rotate(angle).as_way(), side.as_way().rotate(angle));
            assert_eq!(Side::from_way(side.as_way()), side);
        }
    }
    assert_eq!(Side::Up.rotate(RotateAngle::TurnRight), Side::Right);
    assert_eq!(Side::Left.rotate(RotateAngle::HalfTurn), Side::Right);
    assert_eq!(Side::Down.rotate(RotateAngle::TurnLeft), Side::Right);
}

#[test]
fn random_positions_stay_inside_the_grid() {
    for _ in 0..200 {
        let drawn = LogicalPos::rand(5, 3);
        assert!(drawn.x < 5);
        assert!(drawn.y < 3);
    }
    for _ in 0..20 {
        assert_eq!(LogicalPos::rand(1, 1), pos(0, 0));
    }
}
