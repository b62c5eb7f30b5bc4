use robot_guide::path::{Action, Orient};
use robot_guide::messages::ServerMessage;

const ALL: [Orient; 4] = [Orient::North, Orient::South, Orient::East, Orient::West];

#[test]
fn left_turn_goes_round_the_compass() {
    assert_eq!(Orient::North.left(), Orient::West);
    assert_eq!(Orient::West.left(), Orient::South);
    assert_eq!(Orient::South.left(), Orient::East);
    assert_eq!(Orient::East.left(), Orient::North);
}

#[test]
fn right_turn_goes_round_the_other_way() {
    assert_eq!(Orient::North.right(), Orient::East);
    assert_eq!(Orient::East.right(), Orient::South);
    assert_eq!(Orient::South.right(), Orient::West);
    assert_eq!(Orient::West.right(), Orient::North);
}

#[test]
fn four_left_turns_return() {
    for h in ALL {
        assert_eq!(h.left().left().left().left(), h);
    }
}

#[test]
fn right_is_three_lefts() {
    for h in ALL {
        assert_eq!(h.right(), h.left().left().left());
    }
}

#[test]
fn right_undoes_left() {
    for h in ALL {
        assert_eq!(h.left().right(), h);
        assert_eq!(h.right().left(), h);
    }
}

#[test]
fn move_in_steps_one_cell() {
    assert_eq!(Orient::North.move_in((3, -4)), (4, -4));
    assert_eq!(Orient::South.move_in((3, -4)), (2, -4));
    assert_eq!(Orient::East.move_in((3, -4)), (3, -3));
    assert_eq!(Orient::West.move_in((3, -4)), (3, -5));
    assert_eq!(Orient::North.move_in((0, 0)), (1, 0));
    assert_eq!(Orient::West.move_in((0, 3)), (0, 2));
}

#[test]
fn move_in_reaches_the_edge_of_the_grid() {
    assert_eq!(Orient::North.move_in((i32::MAX - 1, 0)), (i32::MAX, 0));
    assert_eq!(Orient::South.move_in((i32::MIN + 1, 0)), (i32::MIN, 0));
    assert_eq!(Orient::East.move_in((0, i32::MAX - 1)), (0, i32::MAX));
    assert_eq!(Orient::West.move_in((0, i32::MIN + 1)), (0, i32::MIN));
}

#[test]
fn valid_heading_in_each_quadrant() {
    // x > 0, y > 0: south and west lead home.
    assert!(Orient::South.is_valid_for(2, 3));
    assert!(Orient::West.is_valid_for(2, 3));
    assert!(!Orient::North.is_valid_for(2, 3));
    assert!(!Orient::East.is_valid_for(2, 3));
    // x < 0, y > 0: north and west.
    assert!(Orient::North.is_valid_for(-2, 3));
    assert!(Orient::West.is_valid_for(-2, 3));
    assert!(!Orient::South.is_valid_for(-2, 3));
    assert!(!Orient::East.is_valid_for(-2, 3));
    // x < 0, y < 0: north and east.
    assert!(Orient::North.is_valid_for(-2, -3));
    assert!(Orient::East.is_valid_for(-2, -3));
    assert!(!Orient::South.is_valid_for(-2, -3));
    assert!(!Orient::West.is_valid_for(-2, -3));
    // x > 0, y < 0: south and east.
    assert!(Orient::South.is_valid_for(2, -3));
    assert!(Orient::East.is_valid_for(2, -3));
    assert!(!Orient::North.is_valid_for(2, -3));
    assert!(!Orient::West.is_valid_for(2, -3));
}

#[test]
fn valid_heading_on_an_axis_is_single() {
    for (x, y, home) in [
        (5, 0, Orient::South),
        (-5, 0, Orient::North),
        (0, 5, Orient::West),
        (0, -5, Orient::East),
    ] {
        for h in ALL {
            assert_eq!(h.is_valid_for(x, y), h == home);
        }
    }
}

#[test]
fn no_heading_is_valid_on_the_origin() {
    for h in ALL {
        assert!(!h.is_valid_for(0, 0));
    }
}

#[test]
fn valid_heading_steps_closer() {
    for x in -3i32..=3 {
        for y in -3i32..=3 {
            for h in ALL {
                let (nx, ny) = h.move_in((x, y));
                let before = x.abs() + y.abs();
                let after = nx.abs() + ny.abs();
                if h.is_valid_for(x, y) {
                    assert_eq!(after, before - 1);
                } else {
                    assert_eq!(after, before + 1);
                }
            }
        }
    }
}

#[test]
fn actions_name_their_orders() {
    assert_eq!(Action::TurnLeft.message(), ServerMessage::Left);
    assert_eq!(Action::TurnRight.message(), ServerMessage::Right);
    assert_eq!(Action::Advance.message(), ServerMessage::Move);
}
