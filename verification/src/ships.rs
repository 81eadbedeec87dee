//! Types used for defining ships and their shapes.
use vstd::prelude::*;

use crate::board::Dimensions;

pub use self::linear::{Line, LineProjectIterState};

pub mod linear;

verus! {

/// Trait for types that can be used as a ship's ID within a single player's
/// board. IDs are small values that are copied freely.
pub trait ShipId: Copy {
    /// Whether two IDs name the same ship.
    fn same(&self, other: &Self) -> (r: bool)
        ensures
            r == (*self == *other),
    ;
}

/// Projection of a shape onto a coordinate system relative to a particular
/// point: the cells that a ship occupies, in order. Projections retrieved from
/// a particular shape should not be modified, as shapes are free to reject any
/// projection that they did not generate.
pub type ShapeProjection<C> = Vec<C>;

/// Whether every coordinate of the projection lies on the board.
pub open spec fn all_in_bounds<D: Dimensions>(proj: Seq<D::Coordinate>, dim: &D) -> bool {
    forall|j: int| 0 <= j < proj.len() ==> dim.spec_try_linearize(#[trigger] proj[j]) is Some
}

/// What every projection that a board records has to be, whatever the shape:
/// it has at least one cell, no cell occurs in it twice, and every cell lies
/// on the board.
pub open spec fn sound_projection<D: Dimensions>(proj: Seq<D::Coordinate>, dim: &D) -> bool {
    proj.len() > 0 && proj.no_duplicates() && all_in_bounds(proj, dim)
}

/// The views of the projections, in order.
pub open spec fn projection_views<C>(projs: Seq<ShapeProjection<C>>) -> Seq<Seq<C>> {
    Seq::new(projs.len(), |k: int| projs[k]@)
}

/// Trait for shapes that a ship can be.
///
/// The lemma is the obligation of an implementation.
pub trait ShipShape<D: Dimensions>: Sized {
    /// Validity of the shape itself.
    spec fn wf(&self) -> bool;

    /// The possible placements of this shape whose first cell is `coord`, in
    /// the order in which they are enumerated. Occupied cells play no part.
    spec fn spec_project(&self, coord: D::Coordinate, dim: &D) -> Seq<Seq<D::Coordinate>>;

    /// Whether the projection is a placement of this shape.
    spec fn spec_is_valid_placement(&self, proj: Seq<D::Coordinate>, dim: &D) -> bool;

    /// Every enumerated placement starts at the anchor, is a valid placement,
    /// lies on the board and holds no cell twice.
    proof fn lemma_projections_are_valid(&self, coord: D::Coordinate, dim: &D, k: int)
        requires
            self.wf(),
            dim.wf(),
            0 <= k < self.spec_project(coord, dim).len(),
        ensures
            self.spec_project(coord, dim)[k][0] == coord,
            self.spec_is_valid_placement(self.spec_project(coord, dim)[k], dim),
            sound_projection(self.spec_project(coord, dim)[k], dim),
    ;

    /// Return true if the given shape projection is a valid placement of this
    /// ship in the specified dimensions. Does not account for whether cells
    /// are already occupied. Shapes are free to reject any placement that they
    /// did not generate.
    fn is_valid_placement(&self, proj: &ShapeProjection<D::Coordinate>, dim: &D) -> (r: bool)
        requires
            self.wf(),
            dim.wf(),
        ensures
            r == self.spec_is_valid_placement(proj@, dim),
    ;
}

/// A shape has no placements from an anchor that is off the board.
pub proof fn lemma_no_placements_off_board<D: Dimensions, S: ShipShape<D>>(
    shape: &S,
    anchor: D::Coordinate,
    dim: &D,
)
    requires
        shape.wf(),
        dim.wf(),
        dim.spec_try_linearize(anchor) is None,
    ensures
        shape.spec_project(anchor, dim).len() == 0,
{
    if shape.spec_project(anchor, dim).len() > 0 {
        shape.lemma_projections_are_valid(anchor, dim, 0);
        assert(dim.spec_try_linearize(shape.spec_project(anchor, dim)[0][0]) is Some);
    }
}

/// State of a walk over the placements of a shape from one anchor. The state
/// says at every moment which placements are still to come.
pub trait ProjectIterState<D: Dimensions, S: ShipShape<D>>: Sized {
    /// Validity of the state for the given shape and dimensions.
    spec fn wf(&self, shape: &S, dim: &D) -> bool;

    /// The placements that the walk has not handed out yet, in order.
    spec fn remaining(&self, shape: &S, dim: &D) -> Seq<Seq<D::Coordinate>>;

    /// Begin a walk over the placements of `shape` that start at `coord`.
    fn start(shape: &S, dim: &D, coord: D::Coordinate) -> (state: Self)
        requires
            shape.wf(),
            dim.wf(),
        ensures
            state.wf(shape, dim),
            state.remaining(shape, dim) == shape.spec_project(coord, dim),
    ;

    /// Get the next possible projection of the ship's shape.
    fn next(&mut self, shape: &S, dim: &D) -> (r: Option<ShapeProjection<D::Coordinate>>)
        requires
            shape.wf(),
            dim.wf(),
            old(self).wf(shape, dim),
        ensures
            final(self).wf(shape, dim),
            match r {
                Some(proj) => old(self).remaining(shape, dim).len() > 0 && proj@ == old(
                    self,
                ).remaining(shape, dim)[0] && final(self).remaining(shape, dim) == old(
                    self,
                ).remaining(shape, dim).skip(1),
                None => old(self).remaining(shape, dim).len() == 0 && final(self).remaining(
                    shape,
                    dim,
                ).len() == 0,
            },
    ;
}

/// Lazy sequence of the possible projections of a ship shape onto dimensions.
pub struct ProjectIter<'a, D: Dimensions, S: ShipShape<D>, T: ProjectIterState<D, S>> {
    shape: &'a S,
    dim: &'a D,
    state: T,
}

impl<'a, D: Dimensions, S: ShipShape<D>, T: ProjectIterState<D, S>> ProjectIter<'a, D, S, T> {
    /// Validity of the walk.
    pub closed spec fn wf(&self) -> bool {
        self.shape.wf() && self.dim.wf() && self.state.wf(self.shape, self.dim)
    }

    /// The placements still to come.
    pub closed spec fn remaining(&self) -> Seq<Seq<D::Coordinate>> {
        self.state.remaining(self.shape, self.dim)
    }

    /// Begin a walk over the placements of `shape` in `dim` that start at
    /// `coord`.
    pub fn new(shape: &'a S, dim: &'a D, coord: D::Coordinate) -> (it: Self)
        requires
            shape.wf(),
            dim.wf(),
        ensures
            it.wf(),
            it.remaining() == shape.spec_project(coord, dim),
    {
        ProjectIter { shape, dim, state: T::start(shape, dim, coord) }
    }

    /// The next placement, or `None` when all have been handed out.
    pub fn next(&mut self) -> (r: Option<ShapeProjection<D::Coordinate>>)
        requires
            old(self).wf(),
        ensures
            final(self).wf(),
            match r {
                Some(proj) => old(self).remaining().len() > 0 && proj@ == old(self).remaining()[0]
                    && final(self).remaining() == old(self).remaining().skip(1),
                None => old(self).remaining().len() == 0 && final(self).remaining().len() == 0,
            },
    {
        self.state.next(self.shape, self.dim)
    }

    /// All the placements still to come, in order.
    pub fn collect(self) -> (projs: Vec<ShapeProjection<D::Coordinate>>)
        requires
            self.wf(),
        ensures
            projection_views(projs@) == self.remaining(),
    {
        let mut it = self;
        let ghost all = it.remaining();
        let mut projs: Vec<ShapeProjection<D::Coordinate>> = Vec::new();
        loop
            invariant
                it.wf(),
                all == self.remaining(),
                projs.len() + it.remaining().len() == all.len(),
                it.remaining() == all.skip(projs.len() as int),
                forall|k: int| 0 <= k < projs.len() ==> (#[trigger] projs[k])@ == all[k],
            decreases it.remaining().len(),
        {
            match it.next() {
                Some(proj) => {
                    assert(proj@ == all[projs.len() as int]);
                    projs.push(proj);
                },
                None => {
                    assert(projection_views(projs@) =~= all);
                    return projs;
                },
            }
        }
    }
}

/// A [`ShipShape`] whose placements can be walked lazily.
pub trait ProjectShape<D: Dimensions>: ShipShape<D> {
    /// Type used in the projection iterator.
    type ProjectIterState: ProjectIterState<D, Self>;

    /// Get an iterator over possible placements of this ship shape in the
    /// given dimensions, all starting at `coord`. Does not in any way account
    /// for whether cells are already occupied or not.
    fn project<'a>(&'a self, coord: D::Coordinate, dim: &'a D) -> (it: ProjectIter<
        'a,
        D,
        Self,
        Self::ProjectIterState,
    >)
        requires
            self.wf(),
            dim.wf(),
        ensures
            it.wf(),
            it.remaining() == self.spec_project(coord, dim),
    {
        ProjectIter::new(self, dim, coord)
    }
}

} // verus!
