use snake_core::next_index;
use snake_core::Direction;

#[test]
fn right_wraps_at_last_column() {
    // width 4: every cell of column 3 re-enters its own row at column 0
    assert_eq!(next_index(3, 4, Direction::RIGHT), 0);
    assert_eq!(next_index(7, 4, Direction::RIGHT), 4);
    assert_eq!(next_index(11, 4, Direction::RIGHT), 8);
    assert_eq!(next_index(15, 4, Direction::RIGHT), 12);
    assert_eq!(next_index(5, 4, Direction::RIGHT), 6);
}

#[test]
fn left_wraps_at_first_column() {
    assert_eq!(next_index(0, 4, Direction::LEFT), 3);
    assert_eq!(next_index(4, 4, Direction::LEFT), 7);
    assert_eq!(next_index(12, 4, Direction::LEFT), 15);
    assert_eq!(next_index(6, 4, Direction::LEFT), 5);
}

#[test]
fn up_wraps_at_first_row() {
    // width 4: every cell of row 0 re-enters its own column in row 3
    assert_eq!(next_index(0, 4, Direction::UP), 12);
    assert_eq!(next_index(1, 4, Direction::UP), 13);
    assert_eq!(next_index(3, 4, Direction::UP), 15);
    assert_eq!(next_index(6, 4, Direction::UP), 2);
}

#[test]
fn down_wraps_at_last_row() {
    assert_eq!(next_index(12, 4, Direction::DOWN), 0);
    assert_eq!(next_index(15, 4, Direction::DOWN), 3);
    assert_eq!(next_index(6, 4, Direction::DOWN), 10);
}

#[test]
fn one_by_one_grid_always_stays_put() {
    assert_eq!(next_index(0, 1, Direction::UP), 0);
    assert_eq!(next_index(0, 1, Direction::RIGHT), 0);
    assert_eq!(next_index(0, 1, Direction::DOWN), 0);
    assert_eq!(next_index(0, 1, Direction::LEFT), 0);
}

#[test]
fn two_by_two_corners() {
    // cells: 0 1 / 2 3
    assert_eq!(next_index(0, 2, Direction::RIGHT), 1);
    assert_eq!(next_index(1, 2, Direction::RIGHT), 0);
    assert_eq!(next_index(0, 2, Direction::LEFT), 1);
    assert_eq!(next_index(0, 2, Direction::UP), 2);
    assert_eq!(next_index(2, 2, Direction::DOWN), 0);
    assert_eq!(next_index(3, 2, Direction::UP), 1);
}
