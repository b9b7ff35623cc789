//! The snake entity: an ordered body of cell indices plus a heading.

use vstd::prelude::*;

verus! {

use crate::grid::Direction;

/// One cell of the snake's body, as a linear grid index.
#[derive(Clone, Copy, PartialEq, Eq, Structural, Debug)]
pub struct SnakeCell(pub usize);

/// The body cells as a sequence of plain indices, head first.
pub open spec fn cell_indices(cells: Seq<SnakeCell>) -> Seq<usize> {
    cells.map_values(|c: SnakeCell| c.0)
}

/// The snake: its body as cell indices, head first, and its current heading.
pub(crate) struct Snake {
    pub(crate) body: Vec<SnakeCell>,
    pub(crate) direction: Direction,
}

impl Snake {
    /// Builds a body of `length` cells, each cell one index behind its
    /// predecessor by plain subtraction, with the head at `spawn_index`.
    /// The heading defaults to RIGHT.
    pub(crate) fn new(spawn_index: usize, length: usize) -> (s: Snake)
        requires
            1 <= length,
            length - 1 <= spawn_index,
        ensures
            s.body@.len() == length,
            forall|i: int| 0 <= i < length ==> s.body@[i].0 == spawn_index - i,
            s.direction == Direction::RIGHT,
    {
        let mut body: Vec<SnakeCell> = Vec::new();
        let mut i: usize = 0;
        while i < length
            invariant
                i <= length,
                length - 1 <= spawn_index,
                body@.len() == i,
                forall|j: int| 0 <= j < i ==> body@[j].0 == spawn_index - j,
            decreases length - i,
        {
            body.push(SnakeCell(spawn_index - i));
            i = i + 1;
        }
        Snake { body, direction: Direction::RIGHT }
    }
}

} // verus!
