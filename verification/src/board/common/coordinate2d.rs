//! Coordinates on a two-dimensional grid.
use vstd::prelude::*;
use vstd::std_specs::convert::FromSpecImpl;

use crate::board::Coordinate;

verus! {

/// The coordinates of a cell in a two-dimensional board.
#[derive(Debug, Copy, Clone, Eq, PartialEq, Hash, Structural)]
pub struct Coordinate2D {
    /// Horizontal position of the cell.
    pub x: usize,
    /// Vertical position of the cell.
    pub y: usize,
}

impl Coordinate2D {
    /// Construct a [`Coordinate2D`] from the given `x` and `y`.
    pub fn new(x: usize, y: usize) -> (coord: Self)
        ensures
            coord == (Coordinate2D { x, y }),
    {
        Self { x, y }
    }

}

impl Coordinate for Coordinate2D {
    fn same(&self, other: &Self) -> (r: bool) {
        self.x == other.x && self.y == other.y
    }
}

impl From<(usize, usize)> for Coordinate2D {
    /// Construct a [`Coordinate2D`] from the given `(x, y)` pair.
    fn from(pair: (usize, usize)) -> (coord: Self) {
        Self::new(pair.0, pair.1)
    }
}

impl FromSpecImpl<(usize, usize)> for Coordinate2D {
    open spec fn obeys_from_spec() -> bool {
        true
    }

    open spec fn from_spec(pair: (usize, usize)) -> Self {
        Coordinate2D { x: pair.0, y: pair.1 }
    }
}

impl From<Coordinate2D> for (usize, usize) {
    /// Convert the [`Coordinate2D`] into an `(x, y)` pair.
    fn from(coord: Coordinate2D) -> (pair: Self) {
        (coord.x, coord.y)
    }
}

impl FromSpecImpl<Coordinate2D> for (usize, usize) {
    open spec fn obeys_from_spec() -> bool {
        true
    }

    open spec fn from_spec(coord: Coordinate2D) -> Self {
        (coord.x, coord.y)
    }
}

} // verus!
