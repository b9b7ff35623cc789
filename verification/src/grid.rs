//! Grid addressing: the torus-style neighbour of a linear cell index.
//!
//! A cell of a `width` x `width` grid is addressed row-major by a single
//! index in `[0, width * width)`, with `row = index / width` and
//! `col = index % width`.  Moving off one side of the grid re-enters from
//! the opposite side of the same row or column.

use vstd::prelude::*;

verus! {

use vstd::arithmetic::div_mod::lemma_fundamental_div_mod;
use vstd::arithmetic::div_mod::lemma_fundamental_div_mod_converse;
use vstd::arithmetic::div_mod::lemma_mod_bound;

/// A movement heading on the grid.
#[allow(non_camel_case_types)]
#[derive(Clone, Copy, PartialEq, Eq, Structural, Debug)]
pub enum Direction {
    UP,
    RIGHT,
    DOWN,
    LEFT,
}

/// The cell reached from `current` by one move in direction `d` on a
/// `width` x `width` grid, wrapping across edges like a torus: off the right
/// edge of a row re-enters at the left edge of the same row, off the top of a
/// column re-enters at the bottom of the same column, and so on.
pub open spec fn spec_next_index(current: int, width: int, d: Direction) -> int {
    let row = current / width;
    let col = current % width;
    match d {
        Direction::RIGHT => if col == width - 1 {
            row * width
        } else {
            current + 1
        },
        Direction::LEFT => if col == 0 {
            row * width + (width - 1)
        } else {
            current - 1
        },
        Direction::UP => if row == 0 {
            (width - 1) * width + col
        } else {
            current - width
        },
        Direction::DOWN => if row == width - 1 {
            col
        } else {
            current + width
        },
    }
}

/// Row and column of an in-range index are themselves in range, and
/// reassemble to the index.
proof fn lemma_row_col(current: int, width: int)
    requires
        1 <= width,
        0 <= current < width * width,
    ensures
        0 <= current / width < width,
        0 <= current % width < width,
        current == (current / width) * width + (current % width),
{
    lemma_fundamental_div_mod(current, width);
    lemma_mod_bound(current, width);
    let row = current / width;
    let m = current % width;
    assert(0 <= row < width) by (nonlinear_arith)
        requires
            1 <= width,
            0 <= current < width * width,
            current == width * row + m,
            0 <= m < width,
    {
    }
    assert(current == row * width + m) by (nonlinear_arith)
        requires
            current == width * row + m,
    {
    }
}

/// The result of a move stays on the grid.
proof fn lemma_next_index_in_range(current: int, width: int, d: Direction)
    requires
        1 <= width,
        0 <= current < width * width,
    ensures
        0 <= spec_next_index(current, width, d) < width * width,
{
    lemma_row_col(current, width);
    let row = current / width;
    let col = current % width;
    assert(row * width >= 0 && row * width + col < width * width && row * width + (width - 1)
        < width * width && (width - 1) * width + col < width * width && col < width * width && (col
        != width - 1 ==> current + 1 < width * width) && (col != 0 ==> current >= 1) && (row != 0
        ==> current - width >= 0) && (row != width - 1 ==> current + width < width * width))
        by (nonlinear_arith)
        requires
            1 <= width,
            0 <= row < width,
            0 <= col < width,
            current == row * width + col,
    {
    }
}

/// One move on the grid.  Returns the torus neighbour of `current` in
/// direction `d`; the boundary tests reproduce the wraparound at each edge.
pub fn next_index(current: usize, width: usize, d: Direction) -> (next: usize)
    requires
        1 <= width,
        width * width <= usize::MAX,
        current < width * width,
    ensures
        next == spec_next_index(current as int, width as int, d),
        next < width * width,
{
    proof {
        lemma_row_col(current as int, width as int);
        lemma_next_index_in_range(current as int, width as int, d);
    }
    let row = current / width;
    let col = current % width;
    match d {
        Direction::RIGHT => if col == width - 1 {
            row * width
        } else {
            current + 1
        },
        Direction::LEFT => if col == 0 {
            row * width + (width - 1)
        } else {
            current - 1
        },
        Direction::UP => if row == 0 {
            (width - 1) * width + col
        } else {
            current - width
        },
        Direction::DOWN => if row == width - 1 {
            col
        } else {
            current + width
        },
    }
}

/// For every cell and every direction the move wraps correctly at every edge
/// and corner: the result's row and column are the mover's row and column
/// shifted by one, modulo the grid side.
pub proof fn lemma_next_index_wraps(current: int, width: int, d: Direction)
    requires
        1 <= width,
        0 <= current < width * width,
    ensures
        0 <= spec_next_index(current, width, d) < width * width,
        ({
            let next = spec_next_index(current, width, d);
            let row = current / width;
            let col = current % width;
            match d {
                Direction::RIGHT => next / width == row && next % width == (col + 1) % width,
                Direction::LEFT => next / width == row && next % width == (col + width - 1) % width,
                Direction::UP => next % width == col && next / width == (row + width - 1) % width,
                Direction::DOWN => next % width == col && next / width == (row + 1) % width,
            }
        }),
{
    lemma_row_col(current, width);
    lemma_next_index_in_range(current, width, d);
    let row = current / width;
    let col = current % width;
    let next = spec_next_index(current, width, d);
    match d {
        Direction::RIGHT => {
            if col == width - 1 {
                assert(next == row * width + 0);
                lemma_fundamental_div_mod_converse(next, width, row, 0);
                lemma_fundamental_div_mod_converse(col + 1, width, 1, 0);
            } else {
                assert(next == row * width + (col + 1));
                lemma_fundamental_div_mod_converse(next, width, row, col + 1);
                lemma_fundamental_div_mod_converse(col + 1, width, 0, col + 1);
            }
        },
        Direction::LEFT => {
            if col == 0 {
                assert(next == row * width + (width - 1));
                lemma_fundamental_div_mod_converse(next, width, row, width - 1);
                lemma_fundamental_div_mod_converse(col + width - 1, width, 0, width - 1);
            } else {
                assert(next == row * width + (col - 1));
                lemma_fundamental_div_mod_converse(next, width, row, col - 1);
                lemma_fundamental_div_mod_converse(col + width - 1, width, 1, col - 1);
            }
        },
        Direction::UP => {
            if row == 0 {
                assert(next == (width - 1) * width + col);
                lemma_fundamental_div_mod_converse(next, width, width - 1, col);
                lemma_fundamental_div_mod_converse(row + width - 1, width, 0, width - 1);
            } else {
                assert(next == current - width == (row - 1) * width + col) by (nonlinear_arith)
                    requires
                        next == current - width,
                        current == row * width + col,
                {
                }
                lemma_fundamental_div_mod_converse(next, width, row - 1, col);
                lemma_fundamental_div_mod_converse(row + width - 1, width, 1, row - 1);
            }
        },
        Direction::DOWN => {
            if row == width - 1 {
                assert(next == 0 * width + col);
                lemma_fundamental_div_mod_converse(next, width, 0, col);
                lemma_fundamental_div_mod_converse(row + 1, width, 1, 0);
            } else {
                assert(next == current + width == (row + 1) * width + col) by (nonlinear_arith)
                    requires
                        next == current + width,
                        current == row * width + col,
                {
                }
                lemma_fundamental_div_mod_converse(next, width, row + 1, col);
                lemma_fundamental_div_mod_converse(row + 1, width, 0, row + 1);
            }
        },
    }
}

} // verus!
