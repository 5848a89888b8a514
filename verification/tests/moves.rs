use ricochet::moves::MovePossibility;
use ricochet::positioning::Way;

#[test]
fn all_is_open_on_every_side() {
    let moves = MovePossibility::all();
    assert_eq!(
        moves,
        MovePossibility { up: true, down: true, left: true, right: true, forbidden: false }
    );
    for way in [Way::Up, Way::Down, Way::Left, Way::Right] {
        assert!(moves.can_go(&way));
    }
}

#[test]
fn none_is_forbidden_and_closed() {
    let moves = MovePossibility::none();
    assert_eq!(
        moves,
        MovePossibility { up: false, down: false, left: false, right: false, forbidden: true }
    );
    for way in [Way::Up, Way::Down, Way::Left, Way::Right] {
        assert!(!moves.can_go(&way));
    }
}

#[test]
fn can_go_reads_the_flag_of_the_way() {
    let moves =
        MovePossibility { up: true, down: false, left: false, right: true, forbidden: false };
    assert!(moves.can_go(&Way::Up));
    assert!(!moves.can_go(&Way::Down));
    assert!(!moves.can_go(&Way::Left));
    assert!(moves.can_go(&Way::Right));
}

#[test]
fn a_forbidden_cell_cannot_be_left() {
    let moves = MovePossibility { up: true, down: true, left: true, right: true, forbidden: true };
    for way in [Way::Up, Way::Down, Way::Left, Way::Right] {
        assert!(!moves.can_go(&way));
    }
}
