//! Pure coordinate math for a square toroidal grid.
//!
//! A grid of side `width` has `size == width * width` cells, identified by a
//! linear index in `[0, size)`: row `index / width`, column `index % width`.
//! The grid is a torus: a step across an edge re-enters on the opposite edge
//! of the same row or column.

use vstd::prelude::*;

verus! {

use vstd::arithmetic::div_mod::{
    lemma_fundamental_div_mod, lemma_fundamental_div_mod_converse_div,
    lemma_fundamental_div_mod_converse_mod, lemma_mod_bound,
};

/// One of the four headings a snake can take on the grid.
#[derive(Clone, Copy, Debug, PartialEq, Eq, Structural)]
pub enum Direction {
    Up,
    Right,
    Down,
    Left,
}

/// The toroidal step rule: the linear index of the cell one step from `head`
/// in direction `dir`, on a square grid of side `width` with
/// `size == width * width` cells.  A step across the right edge wraps to the
/// leftmost cell of the same row, and symmetrically for the other edges.
pub open spec fn next_head_index(head: int, width: int, size: int, dir: Direction) -> int {
    let row = head / width;
    let col = head % width;
    match dir {
        Direction::Right => if col == width - 1 { row * width } else { head + 1 },
        Direction::Left => if col == 0 { row * width + (width - 1) } else { head - 1 },
        Direction::Up => if row == 0 { (size - width) + col } else { head - width },
        Direction::Down => if row == width - 1 { col } else { head + width },
    }
}

/// A toroidal step from any cell of the grid lands on a cell of the grid.
pub proof fn lemma_next_head_in_bounds(head: int, width: int, size: int, dir: Direction)
    requires
        1 <= width,
        size == width * width,
        0 <= head < size,
    ensures
        0 <= next_head_index(head, width, size, dir) < size,
{
    let row = head / width;
    let col = head % width;
    lemma_fundamental_div_mod(head, width);
    lemma_mod_bound(head, width);
    assert(0 <= row < width) by (nonlinear_arith)
        requires
            1 <= width,
            head == width * row + col,
            0 <= col < width,
            0 <= head < width * width,
    ;
    assert(0 <= next_head_index(head, width, size, dir) < size) by (nonlinear_arith)
        requires
            1 <= width,
            size == width * width,
            head == width * row + col,
            0 <= col < width,
            0 <= row < width,
            row == head / width,
            col == head % width,
    ;
}

/// Wrap invariant: from a cell on an edge of the grid, the step across that
/// edge lands on the opposite edge -- a Right step from the rightmost column
/// yields the leftmost cell of the same row, a Left step from the leftmost
/// column yields the rightmost cell of the same row, an Up step from the top
/// row yields the bottom cell of the same column, and a Down step from the
/// bottom row yields the top cell of the same column.
pub proof fn lemma_wrap_at_edges(head: int, width: int, size: int)
    requires
        1 <= width,
        size == width * width,
        0 <= head < size,
    ensures
        head % width == width - 1 ==> ({
            let n = next_head_index(head, width, size, Direction::Right);
            n / width == head / width && n % width == 0
        }),
        head % width == 0 ==> ({
            let n = next_head_index(head, width, size, Direction::Left);
            n / width == head / width && n % width == width - 1
        }),
        head / width == 0 ==> ({
            let n = next_head_index(head, width, size, Direction::Up);
            n / width == width - 1 && n % width == head % width
        }),
        head / width == width - 1 ==> ({
            let n = next_head_index(head, width, size, Direction::Down);
            n / width == 0 && n % width == head % width
        }),
{
    let row = head / width;
    let col = head % width;
    lemma_fundamental_div_mod(head, width);
    lemma_mod_bound(head, width);
    assert(0 <= row < width) by (nonlinear_arith)
        requires
            1 <= width,
            head == width * row + col,
            0 <= col < width,
            0 <= head < width * width,
    ;
    if col == width - 1 {
        let n = next_head_index(head, width, size, Direction::Right);
        assert(n == row * width + 0);
        lemma_fundamental_div_mod_converse_div(n, width, row, 0);
        lemma_fundamental_div_mod_converse_mod(n, width, row, 0);
    }
    if col == 0 {
        let n = next_head_index(head, width, size, Direction::Left);
        assert(n == row * width + (width - 1));
        lemma_fundamental_div_mod_converse_div(n, width, row, width - 1);
        lemma_fundamental_div_mod_converse_mod(n, width, row, width - 1);
    }
    if row == 0 {
        let n = next_head_index(head, width, size, Direction::Up);
        assert(n == (width - 1) * width + col) by (nonlinear_arith)
            requires
                n == (size - width) + col,
                size == width * width,
        ;
        lemma_fundamental_div_mod_converse_div(n, width, width - 1, col);
        lemma_fundamental_div_mod_converse_mod(n, width, width - 1, col);
    }
    if row == width - 1 {
        let n = next_head_index(head, width, size, Direction::Down);
        assert(n == 0 * width + col);
        lemma_fundamental_div_mod_converse_div(n, width, 0, col);
        lemma_fundamental_div_mod_converse_mod(n, width, 0, col);
    }
}

/// Stepping Right and then taking the Left neighbour of the new cell returns
/// to the original cell, on every cell of the grid.
pub proof fn lemma_right_then_left(cell: int, width: int, size: int)
    requires
        1 <= width,
        size == width * width,
        0 <= cell < size,
    ensures
        next_head_index(
            next_head_index(cell, width, size, Direction::Right),
            width,
            size,
            Direction::Left,
        ) == cell,
{
    let row = cell / width;
    let col = cell % width;
    lemma_fundamental_div_mod(cell, width);
    lemma_mod_bound(cell, width);
    assert(0 <= row < width) by (nonlinear_arith)
        requires
            1 <= width,
            cell == width * row + col,
            0 <= col < width,
            0 <= cell < width * width,
    ;
    assert(row * width == width * row) by (nonlinear_arith);
    let n = next_head_index(cell, width, size, Direction::Right);
    if col == width - 1 {
        assert(n == row * width + 0);
        lemma_fundamental_div_mod_converse_div(n, width, row, 0);
        lemma_fundamental_div_mod_converse_mod(n, width, row, 0);
    } else {
        assert(n == row * width + (col + 1)) by (nonlinear_arith)
            requires
                n == cell + 1,
                cell == width * row + col,
        ;
        lemma_fundamental_div_mod_converse_div(n, width, row, col + 1);
        lemma_fundamental_div_mod_converse_mod(n, width, row, col + 1);
    }
}

/// Splits a linear cell index into its (row, column) coordinates.
pub fn index_to_cell(index: usize, width: usize) -> (rc: (usize, usize))
    requires
        1 <= width,
        index < width * width,
    ensures
        rc.0 == (index as int) / (width as int),
        rc.1 == (index as int) % (width as int),
        rc.0 < width,
        rc.1 < width,
{
    proof {
        lemma_fundamental_div_mod(index as int, width as int);
        lemma_mod_bound(index as int, width as int);
        assert((index as int) / (width as int) < width) by (nonlinear_arith)
            requires
                1 <= width,
                index as int == width * ((index as int) / (width as int)) + (index as int) % (width as int),
                0 <= (index as int) % (width as int) < width,
                index < width * width,
        ;
    }
    (index / width, index % width)
}

/// Joins (row, column) coordinates into a linear cell index.
pub fn cell_to_index(row: usize, col: usize, width: usize) -> (index: usize)
    requires
        row < width,
        col < width,
        width * width <= usize::MAX,
    ensures
        index == row * width + col,
        index < width * width,
{
    proof {
        assert(row * width + col < width * width) by (nonlinear_arith)
            requires
                row < width,
                col < width,
        ;
    }
    row * width + col
}

} // verus!
