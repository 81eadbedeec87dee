//! The geometry of a board: bounds, linear indexes and adjacency.
use vstd::prelude::*;

verus! {

/// Identifies one cell of a geometry. Coordinates are small values that are
/// copied freely.
pub trait Coordinate: Copy {
    /// Whether two coordinates are the same cell.
    fn same(&self, other: &Self) -> (r: bool)
        ensures
            r == (*self == *other),
    ;
}

/// Dimensions of a board: which coordinates lie on it, how they are numbered,
/// and which cells touch.
///
/// The in-bounds coordinates and the indexes below `total_size` correspond one
/// to one; the three lemmas are the obligations of an implementation.
pub trait Dimensions: Sized {
    /// The type used to identify cells on the board.
    type Coordinate: Coordinate;

    /// Validity of the dimensions themselves.
    spec fn wf(&self) -> bool;

    /// Number of cells.
    spec fn spec_total_size(&self) -> nat;

    /// Linear index of a coordinate, `None` when it is out of bounds.
    spec fn spec_try_linearize(&self, coord: Self::Coordinate) -> Option<nat>;

    /// Coordinate of a linear index.
    spec fn spec_un_linearize(&self, idx: nat) -> Self::Coordinate;

    /// The neighbors of a coordinate, in the order in which they are visited.
    spec fn spec_neighbors(&self, coord: Self::Coordinate) -> Seq<Self::Coordinate>;

    /// An in-bounds coordinate has an index below the total size, and that
    /// index leads back to the coordinate.
    proof fn lemma_linearize_round_trip(&self, coord: Self::Coordinate)
        requires
            self.wf(),
            self.spec_try_linearize(coord) is Some,
        ensures
            self.spec_try_linearize(coord).unwrap() < self.spec_total_size(),
            self.spec_un_linearize(self.spec_try_linearize(coord).unwrap()) == coord,
    ;

    /// Every index below the total size belongs to an in-bounds coordinate
    /// that linearizes to it.
    proof fn lemma_un_linearize_round_trip(&self, idx: nat)
        requires
            self.wf(),
            idx < self.spec_total_size(),
        ensures
            self.spec_try_linearize(self.spec_un_linearize(idx)) == Some(idx),
    ;

    /// Only in-bounds coordinates have neighbors, and every neighbor is in
    /// bounds.
    proof fn lemma_neighbors_in_bounds(&self, coord: Self::Coordinate, k: int)
        requires
            self.wf(),
            0 <= k < self.spec_neighbors(coord).len(),
        ensures
            self.spec_try_linearize(coord) is Some,
            self.spec_try_linearize(self.spec_neighbors(coord)[k]) is Some,
    ;

    /// Compute the total size of the dimensions. Used to allocate storage for
    /// the board.
    fn total_size(&self) -> (n: usize)
        requires
            self.wf(),
        ensures
            n == self.spec_total_size(),
    ;

    /// Convert a coordinate to a linear index within this dimension. The
    /// coordinate must be in bounds.
    fn linearize(&self, coord: &Self::Coordinate) -> (idx: usize)
        requires
            self.wf(),
            self.spec_try_linearize(*coord) is Some,
        ensures
            self.spec_try_linearize(*coord) == Some(idx as nat),
            idx < self.spec_total_size(),
    {
        proof {
            self.lemma_linearize_round_trip(*coord);
        }
        self.try_linearize(coord).unwrap()
    }

    /// Convert a coordinate to a linear index within this dimension.
    /// Returns `None` if the coordinate is out of bounds for the dimension.
    fn try_linearize(&self, coord: &Self::Coordinate) -> (r: Option<usize>)
        requires
            self.wf(),
        ensures
            match r {
                Some(idx) => self.spec_try_linearize(*coord) == Some(idx as nat),
                None => self.spec_try_linearize(*coord) is None,
            },
    ;

    /// Get back a coordinate from a linearized index.
    fn un_linearize(&self, idx: usize) -> (coord: Self::Coordinate)
        requires
            self.wf(),
            idx < self.spec_total_size(),
        ensures
            coord == self.spec_un_linearize(idx as nat),
    ;
}

/// A coordinate that is off the board has no neighbors.
pub proof fn lemma_no_neighbors_off_board<D: Dimensions>(dim: &D, coord: D::Coordinate)
    requires
        dim.wf(),
        dim.spec_try_linearize(coord) is None,
    ensures
        dim.spec_neighbors(coord).len() == 0,
{
    if dim.spec_neighbors(coord).len() > 0 {
        dim.lemma_neighbors_in_bounds(coord, 0);
    }
}

/// Trait for [`Dimensions`] that support colinearity checks on their
/// coordinates.
pub trait ColinearCheck: Dimensions {
    /// Whether the three coordinates lie on one line.
    spec fn spec_is_colinear(
        &self,
        c1: Self::Coordinate,
        c2: Self::Coordinate,
        c3: Self::Coordinate,
    ) -> bool;

    /// A coordinate and one of its neighbors span a line on which the
    /// neighbor lies.
    proof fn lemma_neighbor_is_colinear(&self, coord: Self::Coordinate, k: int)
        requires
            self.wf(),
            0 <= k < self.spec_neighbors(coord).len(),
        ensures
            self.spec_is_colinear(
                coord,
                self.spec_neighbors(coord)[k],
                self.spec_neighbors(coord)[k],
            ),
    ;

    /// Returns true if the 3 coordinates are colinear.
    fn is_colinear(
        &self,
        c1: &Self::Coordinate,
        c2: &Self::Coordinate,
        c3: &Self::Coordinate,
    ) -> (r: bool)
        requires
            self.wf(),
        ensures
            r == self.spec_is_colinear(*c1, *c2, *c3),
    ;
}

/// State of a walk over the neighbors of one coordinate. The state says at
/// every moment which neighbors are still to come.
pub trait NeighborIterState<D: Dimensions>: Sized {
    /// Validity of the state for the given dimensions.
    spec fn wf(&self, dim: &D) -> bool;

    /// The neighbors that the walk has not handed out yet, in order.
    spec fn remaining(&self, dim: &D) -> Seq<D::Coordinate>;

    /// Begin a walk over the neighbors of `coord`.
    fn start(dim: &D, coord: D::Coordinate) -> (state: Self)
        requires
            dim.wf(),
        ensures
            state.wf(dim),
            state.remaining(dim) == dim.spec_neighbors(coord),
    ;

    /// Hand out the next neighbor, if one is left.
    fn next(&mut self, dim: &D) -> (r: Option<D::Coordinate>)
        requires
            dim.wf(),
            old(self).wf(dim),
        ensures
            final(self).wf(dim),
            r == if old(self).remaining(dim).len() > 0 {
                Some(old(self).remaining(dim)[0])
            } else {
                None
            },
            final(self).remaining(dim) == if old(self).remaining(dim).len() > 0 {
                old(self).remaining(dim).skip(1)
            } else {
                old(self).remaining(dim)
            },
    ;
}

/// Lazy sequence of the neighbors of a coordinate.
pub struct NeighborIter<'a, D: Dimensions, S: NeighborIterState<D>> {
    dim: &'a D,
    state: S,
}

impl<'a, D: Dimensions, S: NeighborIterState<D>> NeighborIter<'a, D, S> {
    /// Validity of the walk.
    pub closed spec fn wf(&self) -> bool {
        self.dim.wf() && self.state.wf(self.dim)
    }

    /// The dimensions that the walk runs in.
    pub closed spec fn dimensions(&self) -> D {
        *self.dim
    }

    /// The neighbors still to come.
    pub closed spec fn remaining(&self) -> Seq<D::Coordinate> {
        self.state.remaining(self.dim)
    }

    /// Begin a walk over the neighbors of `coord` in `dim`.
    pub fn new(dim: &'a D, coord: D::Coordinate) -> (it: Self)
        requires
            dim.wf(),
        ensures
            it.wf(),
            it.dimensions() == *dim,
            it.remaining() == dim.spec_neighbors(coord),
    {
        NeighborIter { dim, state: S::start(dim, coord) }
    }

    /// The next neighbor, or `None` when all have been handed out.
    pub fn next(&mut self) -> (r: Option<D::Coordinate>)
        requires
            old(self).wf(),
        ensures
            final(self).wf(),
            final(self).dimensions() == old(self).dimensions(),
            r == if old(self).remaining().len() > 0 {
                Some(old(self).remaining()[0])
            } else {
                None
            },
            final(self).remaining() == if old(self).remaining().len() > 0 {
                old(self).remaining().skip(1)
            } else {
                old(self).remaining()
            },
    {
        self.state.next(self.dim)
    }
}

/// [`Dimensions`] whose neighbors can be walked lazily.
pub trait Neighborhood: Dimensions {
    /// Type used in the neighbor iterator.
    type NeighborIterState: NeighborIterState<Self>;

    /// Iterate the neighbors of the given coordinate.
    fn neighbors(&self, coord: Self::Coordinate) -> (it: NeighborIter<'_, Self, Self::NeighborIterState>)
        requires
            self.wf(),
        ensures
            it.wf(),
            it.dimensions() == *self,
            it.remaining() == self.spec_neighbors(coord),
    {
        NeighborIter::new(self, coord)
    }

    /// Return true if the given coordinates are neighbors, that is if `c2` is
    /// among the neighbors of `c1`.
    fn is_neighbor(&self, c1: &Self::Coordinate, c2: &Self::Coordinate) -> (r: bool)
        requires
            self.wf(),
        ensures
            r == self.spec_neighbors(*c1).contains(*c2),
    {
        let mut it = self.neighbors(*c1);
        let ghost all = self.spec_neighbors(*c1);
        loop
            invariant
                it.wf(),
                all == self.spec_neighbors(*c1),
                it.remaining().len() <= all.len(),
                it.remaining() == all.skip(all.len() - it.remaining().len()),
                forall|j: int| 0 <= j < all.len() - it.remaining().len() ==> all[j] != *c2,
            decreases it.remaining().len(),
        {
            let ghost old_len = it.remaining().len();
            match it.next() {
                None => {
                    return false;
                },
                Some(n) => {
                    assert(n == all[all.len() - old_len]);
                    if n.same(c2) {
                        return true;
                    }
                },
            }
        }
    }
}

} // verus!
