//! Defines the types that make up the grid. These are shared between the
//! board's setup and playing versions.
use vstd::prelude::*;

use crate::board::Dimensions;

verus! {

/// A single cell in the player's grid.
#[derive(Debug)]
pub struct GridCell<I> {
    /// The ID of the ship that occupies this cell, if any.
    pub ship: Option<I>,
    /// Whether this cell has been hit previously or not.
    pub hit: bool,
}

impl<I> GridCell<I> {
    /// An empty cell that was not shot at.
    pub open spec fn spec_default() -> Self {
        GridCell { ship: None, hit: false }
    }
}

impl<I> Default for GridCell<I> {
    fn default() -> (cell: Self)
        ensures
            cell == Self::spec_default(),
    {
        Self { ship: None, hit: false }
    }
}

/// Whether one of the coordinates of the projection is the cell with the
/// linear index `idx`.
pub open spec fn covers<D: Dimensions>(dim: &D, proj: Seq<D::Coordinate>, idx: int) -> bool {
    exists|j: int|
        0 <= j < proj.len() && dim.spec_try_linearize(#[trigger] proj[j]) == Some(idx as nat)
}

/// The cells in which those of the projection hold the given ship, or none,
/// and all other cells are as they were.
pub open spec fn with_ship<I, D: Dimensions>(
    dim: &D,
    cells: Seq<GridCell<I>>,
    proj: Seq<D::Coordinate>,
    ship: Option<I>,
) -> Seq<GridCell<I>> {
    Seq::new(
        cells.len(),
        |i: int|
            if covers(dim, proj, i) {
                GridCell { ship, hit: cells[i].hit }
            } else {
                cells[i]
            },
    )
}

/// Giving the cells of one more coordinate of a projection to a ship changes
/// the one cell of that coordinate.
pub proof fn lemma_with_ship_step<I, D: Dimensions>(
    dim: &D,
    cells: Seq<GridCell<I>>,
    proj: Seq<D::Coordinate>,
    done: int,
    ship: Option<I>,
)
    requires
        0 <= done < proj.len(),
        dim.spec_try_linearize(proj[done]) is Some,
        dim.spec_try_linearize(proj[done]).unwrap() < cells.len(),
    ensures
        with_ship(dim, cells, proj.take(done + 1), ship) == with_ship(
            dim,
            cells,
            proj.take(done),
            ship,
        ).update(
            dim.spec_try_linearize(proj[done]).unwrap() as int,
            GridCell { ship, hit: cells[dim.spec_try_linearize(proj[done]).unwrap() as int].hit },
        ),
{
    let idx = dim.spec_try_linearize(proj[done]).unwrap() as int;
    let shorter = proj.take(done);
    let longer = proj.take(done + 1);
    assert forall|i: int| 0 <= i < cells.len() implies (covers(dim, longer, i) <==> (covers(
        dim,
        shorter,
        i,
    ) || i == idx)) by {
        if covers(dim, shorter, i) {
            let j = choose|j: int|
                0 <= j < shorter.len() && dim.spec_try_linearize(#[trigger] shorter[j]) == Some(
                    i as nat,
                );
            assert(longer[j] == shorter[j]);
        }
        if i == idx {
            assert(longer[done] == proj[done]);
        }
        if covers(dim, longer, i) {
            let j = choose|j: int|
                0 <= j < longer.len() && dim.spec_try_linearize(#[trigger] longer[j]) == Some(
                    i as nat,
                );
            if j < done {
                assert(shorter[j] == longer[j]);
            }
        }
    }
    assert(with_ship(dim, cells, longer, ship) =~= with_ship(dim, cells, shorter, ship).update(
        idx,
        GridCell { ship, hit: cells[idx].hit },
    ));
}

/// Giving no cell to a ship changes nothing.
pub proof fn lemma_with_ship_none<I, D: Dimensions>(
    dim: &D,
    cells: Seq<GridCell<I>>,
    proj: Seq<D::Coordinate>,
    ship: Option<I>,
)
    ensures
        with_ship(dim, cells, proj.take(0), ship) == cells,
{
    assert(with_ship(dim, cells, proj.take(0), ship) =~= cells);
}

/// Grid structure shared between the setup and the play phase of a board:
/// one cell for each linear index of the dimensions.
pub struct Grid<I, D> {
    /// Dimensions of this board.
    pub dim: D,
    /// Cells that make up this board.
    pub cells: Vec<GridCell<I>>,
}

impl<I, D: Dimensions> Grid<I, D> {
    /// The dimensions are valid and there is one cell for each index.
    pub open spec fn wf(&self) -> bool {
        self.dim.wf() && self.cells.len() == self.dim.spec_total_size()
    }

    /// The cell at a coordinate, `None` when the coordinate is out of bounds.
    pub open spec fn spec_get(&self, coord: D::Coordinate) -> Option<GridCell<I>> {
        match self.dim.spec_try_linearize(coord) {
            Some(idx) => Some(self.cells[idx as int]),
            None => None,
        }
    }

    /// A grid of the given dimensions in which every cell is empty.
    pub fn new(dim: D) -> (grid: Self)
        requires
            dim.wf(),
        ensures
            grid.wf(),
            grid.dim == dim,
            forall|i: int| 0 <= i < grid.cells.len() ==> grid.cells[i] == GridCell::<I>::spec_default(),
    {
        let total = dim.total_size();
        let mut cells: Vec<GridCell<I>> = Vec::new();
        let mut i: usize = 0;
        while i < total
            invariant
                i <= total,
                cells.len() == i,
                forall|j: int| 0 <= j < cells.len() ==> cells[j] == GridCell::<I>::spec_default(),
            decreases total - i,
        {
            cells.push(GridCell::default());
            i += 1;
        }
        Self { dim, cells }
    }

    /// Get a reference to the cell at the given coordinate.
    pub fn get(&self, coord: &D::Coordinate) -> (r: Option<&GridCell<I>>)
        requires
            self.wf(),
        ensures
            match r {
                Some(cell) => self.spec_get(*coord) == Some(*cell),
                None => self.spec_get(*coord) is None,
            },
    {
        match self.dim.try_linearize(coord) {
            Some(i) => {
                proof {
                    self.dim.lemma_linearize_round_trip(*coord);
                }
                Some(&self.cells[i])
            },
            None => None,
        }
    }

    /// Get a mutable reference to the cell at the given coordinate.
    pub fn get_mut(&mut self, coord: &D::Coordinate) -> (r: Option<&mut GridCell<I>>)
        requires
            old(self).wf(),
        ensures
            final(self).dim == old(self).dim,
            match r {
                Some(cell) => old(self).dim.spec_try_linearize(*coord) matches Some(idx) && *cell
                    == old(self).cells[idx as int] && final(self).cells@ == old(
                    self,
                ).cells@.update(idx as int, *final(cell)),
                None => old(self).spec_get(*coord) is None && final(self).cells@ == old(
                    self,
                ).cells@,
            },
    {
        match self.dim.try_linearize(coord) {
            Some(i) => {
                proof {
                    self.dim.lemma_linearize_round_trip(*coord);
                }
                Some(&mut self.cells[i])
            },
            None => None,
        }
    }
}

} // verus!
