//! The 50 by 50 grid of stacks, one stack per tile.
//!
//! The grid is a two-dimensional array of the `ndarray` library. Its
//! contents are spoken of as one sequence of 2500 stacks, the stack of
//! tile `(x, y)` at position `x * 50 + y`.

use vstd::prelude::*;
use crate::order::VisualObject;

verus! {

/// Tiles along each side of a room.
pub const ROOM_SIDE: usize = 50;

/// Tiles in a room.
pub const ROOM_TILES: usize = 2500;

/// The position of tile `(x, y)` among the stacks.
pub open spec fn slot(x: int, y: int) -> int {
    x * 50 + y
}

/// A 50 by 50 array of stacks.
#[verifier::external_body]
#[derive(Debug)]
pub struct Grid {
    cells: ndarray::Array2<Vec<VisualObject>>,
}

/// The stacks of a grid, tile `(x, y)` at position `slot(x, y)`.
pub uninterp spec fn grid_stacks(g: Grid) -> Seq<Seq<VisualObject>>;

impl Grid {
    /// `ndarray::Array::from_elem` with the shape `(50, 50)` and an empty
    /// stack: 2500 stacks, all empty.
    #[verifier::external_body]
    pub(crate) fn empty() -> (g: Grid)
        ensures
            grid_stacks(g) == Seq::new(2500, |i: int| Seq::<VisualObject>::empty()),
    {
        Grid { cells: ndarray::Array::from_elem((50, 50), Vec::new()) }
    }

    /// `ndarray::ArrayBase::get_mut` at `[x, y]`: the stack of one tile,
    /// to be changed in place. The grid ends up as it was but for that
    /// stack, which ends up as the borrower leaves it.
    #[verifier::external_body]
    pub(crate) fn stack_mut(&mut self, x: usize, y: usize) -> (stack: &mut Vec<VisualObject>)
        requires
            x < 50,
            y < 50,
        ensures
            stack@ == grid_stacks(*old(self))[slot(x as int, y as int)],
            grid_stacks(*final(self)) == grid_stacks(*old(self)).update(
                slot(x as int, y as int),
                final(stack)@,
            ),
    {
        self.cells.get_mut([x, y]).unwrap()
    }

    /// `ndarray::ArrayBase::get` at `[x, y]`: the stack of one tile, or
    /// nothing where the tile lies outside the grid.
    #[verifier::external_body]
    pub(crate) fn stack_at(&self, x: usize, y: usize) -> (stack: Option<&Vec<VisualObject>>)
        ensures
            (stack is Some) == (x < 50 && y < 50),
            stack is Some ==> stack.unwrap()@ == grid_stacks(*self)[slot(x as int, y as int)],
    {
        self.cells.get([x, y])
    }
}

} // verus!
