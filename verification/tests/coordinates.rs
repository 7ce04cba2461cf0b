//! Coordinate math and toroidal wrap behaviour.

use snake_game::{cell_to_index, index_to_cell, Direction, Lcg, World};

#[test]
fn index_to_cell_splits_into_row_and_column() {
    assert_eq!(index_to_cell(35, 8), (4, 3));
    assert_eq!(index_to_cell(0, 8), (0, 0));
    assert_eq!(index_to_cell(63, 8), (7, 7));
    assert_eq!(index_to_cell(7, 8), (0, 7));
}

#[test]
fn cell_to_index_joins_row_and_column() {
    assert_eq!(cell_to_index(4, 3, 8), 35);
    assert_eq!(cell_to_index(0, 0, 8), 0);
    assert_eq!(cell_to_index(7, 7, 8), 63);
    assert_eq!(cell_to_index(0, 7, 8), 7);
}

/// A single-cell snake at `spawn` heading `direction` on an 8x8 grid; one
/// tick moves the head one toroidal step.
fn head_after_one_tick(spawn: usize, direction: Direction) -> usize {
    let mut host = Lcg::new(7);
    let mut world = World::new(&mut host, 8, spawn, 1, direction);
    world.start_game();
    world.update(&mut host);
    world.snake_head_idx()
}

#[test]
fn right_step_wraps_to_leftmost_cell_of_same_row() {
    // cell 39 is row 4, column 7: the rightmost column
    assert_eq!(head_after_one_tick(39, Direction::Right), 32);
    // and without a wrap the head simply moves right
    assert_eq!(head_after_one_tick(33, Direction::Right), 34);
}

#[test]
fn left_step_wraps_to_rightmost_cell_of_same_row() {
    // cell 32 is row 4, column 0: the leftmost column
    assert_eq!(head_after_one_tick(32, Direction::Left), 39);
    assert_eq!(head_after_one_tick(34, Direction::Left), 33);
}

#[test]
fn up_step_wraps_to_bottom_cell_of_same_column() {
    // cell 3 is row 0, column 3: the top row
    assert_eq!(head_after_one_tick(3, Direction::Up), 59);
    assert_eq!(head_after_one_tick(35, Direction::Up), 27);
}

#[test]
fn down_step_wraps_to_top_cell_of_same_column() {
    // cell 59 is row 7, column 3: the bottom row
    assert_eq!(head_after_one_tick(59, Direction::Down), 3);
    assert_eq!(head_after_one_tick(35, Direction::Down), 43);
}
