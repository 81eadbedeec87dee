//! Implements the setup phase of the board.
use vstd::pervasive::unreached;
use vstd::prelude::*;

use crate::board::{
    AddShipError, Board, BoardModel, CannotPlaceReason, Dimensions, Grid, GridCell, PlaceError,
    PlacedShip,
};
use crate::board::grid::{covers, lemma_with_ship_none, lemma_with_ship_step, with_ship};
use crate::board::Coordinate;
use crate::ships::{
    all_in_bounds, sound_projection, ProjectIter, ProjectShape, ShapeProjection, ShipId,
    ShipShape,
};

verus! {

/// The state of a board in its setup phase: the cells by linear index, and the
/// registered ships in the order in which they were added, each with its ID,
/// its shape and its placement, if it has one.
pub struct SetupModel<I, D: Dimensions, S> {
    /// Dimensions of the board.
    pub dim: D,
    /// The cells, by linear index.
    pub cells: Seq<GridCell<I>>,
    /// The IDs of the ships.
    pub ids: Seq<I>,
    /// The shapes of the ships.
    pub shapes: Seq<S>,
    /// The placements of the ships.
    pub placements: Seq<Option<Seq<D::Coordinate>>>,
}

impl<I, D: Dimensions, S: ShipShape<D>> SetupModel<I, D, S> {
    /// The board of the given dimensions without ships.
    pub open spec fn empty(dim: D) -> Self {
        SetupModel {
            dim,
            cells: Seq::new(dim.spec_total_size(), |i: int| GridCell::<I>::spec_default()),
            ids: Seq::empty(),
            shapes: Seq::empty(),
            placements: Seq::empty(),
        }
    }

    /// Whether the ship at `slot` is placed on the cell with index `idx`.
    pub open spec fn occupies(&self, slot: int, idx: int) -> bool {
        self.placements[slot] matches Some(proj) && covers(&self.dim, proj, idx)
    }

    /// Validity of the state. Every placement has at least one cell, lies on
    /// the board and holds no cell twice. The cells whose ship is a given
    /// registered ship are exactly the cells of its placement, and no cell
    /// holds anything else.
    pub open spec fn wf(&self) -> bool {
        &&& self.dim.wf()
        &&& self.cells.len() == self.dim.spec_total_size()
        &&& self.shapes.len() == self.ids.len()
        &&& self.placements.len() == self.ids.len()
        &&& self.ids.no_duplicates()
        &&& forall|k: int| 0 <= k < self.ids.len() ==> (#[trigger] self.shapes[k]).wf()
        &&& forall|i: int| 0 <= i < self.cells.len() ==> !(#[trigger] self.cells[i]).hit
        &&& forall|k: int|
            0 <= k < self.ids.len() ==> (#[trigger] self.placements[k] matches Some(proj)
                ==> sound_projection(proj, &self.dim))
        &&& forall|i: int|
            0 <= i < self.cells.len() ==> ((#[trigger] self.cells[i]).ship matches Some(id)
                ==> self.ids.contains(id))
        &&& forall|k: int, i: int|
            0 <= k < self.ids.len() && 0 <= i < self.cells.len() ==> (#[trigger] self.occupies(
                k,
                i,
            ) <==> self.cells[i].ship == Some(self.ids[k]))
    }

    /// The cell at a coordinate, `None` when the coordinate is out of bounds.
    pub open spec fn cell(&self, coord: D::Coordinate) -> Option<GridCell<I>> {
        match self.dim.spec_try_linearize(coord) {
            Some(idx) => Some(self.cells[idx as int]),
            None => None,
        }
    }

    /// Whether one of the coordinates is a cell that holds a ship.
    pub open spec fn any_occupied(&self, proj: Seq<D::Coordinate>) -> bool {
        exists|j: int|
            0 <= j < proj.len() && (#[trigger] self.cell(proj[j]) matches Some(cell)
                && cell.ship is Some)
    }

    /// Whether the ship at `slot` may be placed on `proj`, and if not, why. A
    /// ship that is placed cannot be placed again. A projection is invalid if
    /// the shape of the ship rejects it, if it is empty, if a coordinate
    /// occurs in it twice or if a coordinate is off the board. Only a valid
    /// projection is asked whether its cells are free.
    pub open spec fn check_placement(&self, slot: int, proj: Seq<D::Coordinate>) -> Result<
        (),
        CannotPlaceReason,
    > {
        if self.placements[slot] is Some {
            Err(CannotPlaceReason::AlreadyPlaced)
        } else if !self.shapes[slot].spec_is_valid_placement(proj, &self.dim)
            || !sound_projection(proj, &self.dim) {
            Err(CannotPlaceReason::InvalidProjection)
        } else if self.any_occupied(proj) {
            Err(CannotPlaceReason::AlreadyOccupied)
        } else {
            Ok(())
        }
    }

    /// The state after the ship at `slot` was placed on `proj`.
    pub open spec fn place(&self, slot: int, proj: Seq<D::Coordinate>) -> Self {
        SetupModel {
            cells: with_ship(&self.dim, self.cells, proj, Some(self.ids[slot])),
            placements: self.placements.update(slot, Some(proj)),
            ..*self
        }
    }

    /// The state after the placement of the ship at `slot` was cleared.
    pub open spec fn unplace(&self, slot: int) -> Self {
        match self.placements[slot] {
            Some(proj) => SetupModel {
                cells: with_ship(&self.dim, self.cells, proj, None),
                placements: self.placements.update(slot, None),
                ..*self
            },
            None => *self,
        }
    }

    /// The state after a ship was registered, unplaced.
    pub open spec fn add_ship(&self, id: I, shape: S) -> Self {
        SetupModel {
            ids: self.ids.push(id),
            shapes: self.shapes.push(shape),
            placements: self.placements.push(None),
            ..*self
        }
    }

    /// Whether at least one ship is registered and all ships are placed.
    pub open spec fn ready(&self) -> bool {
        self.ids.len() > 0 && forall|k: int|
            0 <= k < self.ids.len() ==> (#[trigger] self.placements[k]) is Some
    }

    /// The IDs among the first `n` ships that lack a placement, in order.
    pub open spec fn pending_among(&self, n: nat) -> Seq<I>
        decreases n,
    {
        if n == 0 {
            Seq::empty()
        } else if self.placements[n - 1] is None {
            self.pending_among((n - 1) as nat).push(self.ids[n - 1])
        } else {
            self.pending_among((n - 1) as nat)
        }
    }

    /// The IDs of the ships that lack a placement, in the order in which the
    /// ships were added.
    pub open spec fn pending(&self) -> Seq<I> {
        self.pending_among(self.ids.len())
    }

    /// The play phase of a board that is ready: the same cells and ships.
    pub open spec fn started(&self) -> BoardModel<I, D> {
        BoardModel {
            dim: self.dim,
            cells: self.cells,
            ids: self.ids,
            placements: Seq::new(self.ids.len(), |k: int| self.placements[k].unwrap()),
        }
    }

    /// The play phase of a valid board that is ready is a valid board.
    pub proof fn lemma_started_is_wf(&self)
        requires
            self.wf(),
            self.ready(),
        ensures
            self.started().wf(),
    {
        let board = self.started();
        assert forall|k: int| 0 <= k < board.ids.len() implies sound_projection(
            #[trigger] board.placements[k],
            &board.dim,
        ) by {
            assert(self.placements[k] is Some);
        }
        assert forall|k: int, i: int|
            0 <= k < board.ids.len() && 0 <= i < board.cells.len() implies (
        #[trigger] board.occupies(k, i) <==> board.cells[i].ship == Some(board.ids[k])) by {
            assert(self.placements[k] is Some);
            assert(self.occupies(k, i) <==> self.cells[i].ship == Some(self.ids[k]));
        }
    }

    /// A board that starts is not defeated: it has a ship, the ship has a
    /// cell, and nothing was shot at during setup.
    pub proof fn lemma_started_is_undefeated(&self)
        requires
            self.wf(),
            self.ready(),
        ensures
            !self.started().sunk(0),
            !self.started().defeated(),
    {
        let board = self.started();
        assert(self.placements[0] is Some);
        let proj = self.placements[0].unwrap();
        assert(sound_projection(proj, &self.dim));
        assert(self.dim.spec_try_linearize(proj[0]) is Some);
        self.dim.lemma_linearize_round_trip(proj[0]);
        assert(board.placements[0][0] == proj[0]);
        assert(!board.hit_at(board.placements[0][0]));
        assert(!board.sunk(0));
    }

    /// On a valid board the cells that hold a given ship are exactly the
    /// cells of its placement.
    pub proof fn lemma_cells_of_ship(&self, slot: int, idx: int)
        requires
            self.wf(),
            0 <= slot < self.ids.len(),
            0 <= idx < self.cells.len(),
        ensures
            self.cells[idx].ship == Some(self.ids[slot]) <==> (
            self.placements[slot] matches Some(proj) && covers(&self.dim, proj, idx)),
    {
        assert(self.occupies(slot, idx) <==> self.cells[idx].ship == Some(self.ids[slot]));
    }

    /// What a shape enumerates from an anchor starts at the anchor and is
    /// never an invalid projection for the ship of that shape: the check
    /// fails only where the ship is placed already or a cell is occupied.
    pub proof fn lemma_enumerated_placement(&self, slot: int, anchor: D::Coordinate, k: int)
        requires
            self.wf(),
            0 <= slot < self.ids.len(),
            0 <= k < self.shapes[slot].spec_project(anchor, &self.dim).len(),
        ensures
            self.shapes[slot].spec_project(anchor, &self.dim)[k][0] == anchor,
            sound_projection(self.shapes[slot].spec_project(anchor, &self.dim)[k], &self.dim),
            self.shapes[slot].spec_is_valid_placement(
                self.shapes[slot].spec_project(anchor, &self.dim)[k],
                &self.dim,
            ),
            self.check_placement(slot, self.shapes[slot].spec_project(anchor, &self.dim)[k])
                != Err::<(), CannotPlaceReason>(CannotPlaceReason::InvalidProjection),
    {
        assert(self.shapes[slot].wf());
        self.shapes[slot].lemma_projections_are_valid(anchor, &self.dim, k);
    }

    /// On a valid board only registered ships occupy cells, so a ship that
    /// is not placed occupies none.
    pub proof fn lemma_unplaced_ship_is_absent(&self, slot: int, idx: int)
        requires
            self.wf(),
            0 <= slot < self.ids.len(),
            0 <= idx < self.cells.len(),
            self.placements[slot] is None,
        ensures
            self.cells[idx].ship != Some(self.ids[slot]),
    {
        assert(!self.occupies(slot, idx));
    }

    /// Placing a ship where the check allows it keeps the board valid.
    pub proof fn lemma_place_keeps_wf(&self, slot: int, proj: Seq<D::Coordinate>)
        requires
            self.wf(),
            0 <= slot < self.ids.len(),
            self.check_placement(slot, proj) is Ok,
        ensures
            self.place(slot, proj).wf(),
    {
        let after = self.place(slot, proj);
        assert forall|i: int| 0 <= i < after.cells.len() implies ((
        #[trigger] after.cells[i]).ship matches Some(id) ==> after.ids.contains(id)) by {
            if covers(&self.dim, proj, i) {
                assert(after.ids[slot] == self.ids[slot]);
            } else {
                assert(after.cells[i] == self.cells[i]);
            }
        }
        assert forall|k: int, i: int|
            0 <= k < after.ids.len() && 0 <= i < after.cells.len() implies (
        #[trigger] after.occupies(k, i) <==> after.cells[i].ship == Some(after.ids[k])) by {
            if covers(&self.dim, proj, i) {
                let j = choose|j: int|
                    0 <= j < proj.len() && self.dim.spec_try_linearize(#[trigger] proj[j]) == Some(
                        i as nat,
                    );
                assert(self.cell(proj[j]) == Some(self.cells[i]));
                assert(self.cells[i].ship is None);
                if k != slot {
                    assert(self.occupies(k, i) <==> self.cells[i].ship == Some(self.ids[k]));
                    assert(after.occupies(k, i) == self.occupies(k, i));
                }
            } else {
                assert(after.cells[i] == self.cells[i]);
                if k != slot {
                    assert(self.occupies(k, i) <==> self.cells[i].ship == Some(self.ids[k]));
                    assert(after.occupies(k, i) == self.occupies(k, i));
                } else {
                    self.lemma_unplaced_ship_is_absent(slot, i);
                }
            }
        }
    }

    /// Clearing the placement of a ship keeps the board valid.
    pub proof fn lemma_unplace_keeps_wf(&self, slot: int)
        requires
            self.wf(),
            0 <= slot < self.ids.len(),
        ensures
            self.unplace(slot).wf(),
    {
        let after = self.unplace(slot);
        if let Some(proj) = self.placements[slot] {
            assert forall|i: int| 0 <= i < after.cells.len() implies ((
            #[trigger] after.cells[i]).ship matches Some(id) ==> after.ids.contains(id)) by {
                if !covers(&self.dim, proj, i) {
                    assert(after.cells[i] == self.cells[i]);
                }
            }
            assert forall|k: int, i: int|
                0 <= k < after.ids.len() && 0 <= i < after.cells.len() implies (
            #[trigger] after.occupies(k, i) <==> after.cells[i].ship == Some(after.ids[k])) by {
                assert(self.occupies(k, i) <==> self.cells[i].ship == Some(self.ids[k]));
                assert(self.occupies(slot, i) <==> self.cells[i].ship == Some(self.ids[slot]));
                if k != slot {
                    assert(after.occupies(k, i) == self.occupies(k, i));
                    assert(self.ids[k] != self.ids[slot]);
                }
            }
        }
    }

    /// Registering a ship under a new ID keeps the board valid.
    pub proof fn lemma_add_ship_keeps_wf(&self, id: I, shape: S)
        requires
            self.wf(),
            shape.wf(),
            !self.ids.contains(id),
        ensures
            self.add_ship(id, shape).wf(),
    {
        let after = self.add_ship(id, shape);
        let n = self.ids.len() as int;
        assert forall|i: int| 0 <= i < after.cells.len() implies ((
        #[trigger] after.cells[i]).ship matches Some(other) ==> after.ids.contains(other)) by {
            if let Some(other) = self.cells[i].ship {
                let k = choose|k: int| 0 <= k < self.ids.len() && self.ids[k] == other;
                assert(after.ids[k] == other);
            }
        }
        assert forall|k: int, i: int|
            0 <= k < after.ids.len() && 0 <= i < after.cells.len() implies (
        #[trigger] after.occupies(k, i) <==> after.cells[i].ship == Some(after.ids[k])) by {
            if k < n {
                assert(self.occupies(k, i) <==> self.cells[i].ship == Some(self.ids[k]));
                assert(after.occupies(k, i) == self.occupies(k, i));
            }
        }
    }

    /// Clearing a placement that was just made hands out that placement and
    /// gives back the board as it was before the placement; clearing once
    /// more finds no placement and changes nothing.
    pub proof fn lemma_unplace_undoes_place(&self, slot: int, proj: Seq<D::Coordinate>)
        requires
            self.wf(),
            0 <= slot < self.ids.len(),
            self.check_placement(slot, proj) is Ok,
        ensures
            self.place(slot, proj).placements[slot] == Some(proj),
            self.place(slot, proj).unplace(slot) == *self,
            self.place(slot, proj).unplace(slot).placements[slot] is None,
            self.place(slot, proj).unplace(slot).unplace(slot) == *self,
    {
        let placed = self.place(slot, proj);
        let back = placed.unplace(slot);
        assert forall|i: int| 0 <= i < self.cells.len() implies back.cells[i] == self.cells[i] by {
            if covers(&self.dim, proj, i) {
                let j = choose|j: int|
                    0 <= j < proj.len() && self.dim.spec_try_linearize(#[trigger] proj[j]) == Some(
                        i as nat,
                    );
                assert(self.cell(proj[j]) == Some(self.cells[i]));
                assert(!self.cells[i].hit);
            }
        }
        assert(back.cells =~= self.cells);
        assert(back.placements =~= self.placements);
    }
}

/// Whether the coordinate at `at` occurs among those before it.
fn seen_before<C: Coordinate>(placement: &ShapeProjection<C>, at: usize) -> (r: bool)
    requires
        at < placement.len(),
    ensures
        r == exists|n: int| 0 <= n < at && placement@[n] == placement@[at as int],
{
    let mut n: usize = 0;
    while n < at
        invariant
            n <= at,
            at < placement.len(),
            forall|m: int| 0 <= m < n ==> placement@[m] != placement@[at as int],
        decreases at - n,
    {
        if placement[n].same(&placement[at]) {
            return true;
        }
        n += 1;
    }
    false
}

/// Contains a ship's ID, its shape and its current placement status in the
/// grid.
pub struct ShipPlacementInfo<I, S, C> {
    /// ID of the ship.
    pub id: I,
    /// Shape being placed.
    pub shape: S,
    /// Placement of this ship, if it has been placed.
    pub placement: Option<ShapeProjection<C>>,
}

impl<I, S, C> ShipPlacementInfo<I, S, C> {
    /// The placement as a sequence of coordinates.
    pub open spec fn spec_placement(&self) -> Option<Seq<C>> {
        match self.placement {
            Some(proj) => Some(proj@),
            None => None,
        }
    }
}

/// Setup phase for a [`Board`](crate::board::Board). Allows placing ships and
/// does not allow shooting.
pub struct BoardSetup<I: ShipId, D: Dimensions, S: ShipShape<D>> {
    /// Grid for placement of ships.
    grid: Grid<I, D>,
    /// The added ships, in the order in which they were added.
    ships: Vec<ShipPlacementInfo<I, S, D::Coordinate>>,
}

impl<I: ShipId, D: Dimensions, S: ShipShape<D>> View for BoardSetup<I, D, S> {
    type V = SetupModel<I, D, S>;

    closed spec fn view(&self) -> SetupModel<I, D, S> {
        SetupModel {
            dim: self.grid.dim,
            cells: self.grid.cells@,
            ids: Seq::new(self.ships.len() as nat, |k: int| self.ships[k].id),
            shapes: Seq::new(self.ships.len() as nat, |k: int| self.ships[k].shape),
            placements: Seq::new(self.ships.len() as nat, |k: int| self.ships[k].spec_placement()),
        }
    }
}

impl<I: ShipId, D: Dimensions, S: ShipShape<D>> BoardSetup<I, D, S> {
    /// Validity of the board: that of its state.
    pub open spec fn wf(&self) -> bool {
        self@.wf()
    }

    /// Begin game setup by constructing a new board with the given
    /// [`Dimensions`].
    pub fn new(dim: D) -> (setup: Self)
        requires
            dim.wf(),
        ensures
            setup.wf(),
            setup@ == SetupModel::<I, D, S>::empty(dim),
    {
        let setup = Self { grid: Grid::new(dim), ships: Vec::new() };
        proof {
            let model = SetupModel::<I, D, S>::empty(dim);
            assert(setup@.cells =~= model.cells);
            assert(setup@.ids =~= model.ids);
            assert(setup@.shapes =~= model.shapes);
            assert(setup@.placements =~= model.placements);
            assert forall|k: int, i: int|
                0 <= k < model.ids.len() && 0 <= i < model.cells.len() implies (
            #[trigger] model.occupies(k, i) <==> model.cells[i].ship == Some(model.ids[k])) by {}
        }
        setup
    }

    /// Get the [`Dimensions`] of this board.
    pub fn dimensions(&self) -> (dim: &D)
        ensures
            *dim == self@.dim,
    {
        &self.grid.dim
    }

    /// Tries to start the game. If all ships are placed, returns a [`Board`]
    /// with the current placements. If no ships have been added or any ship
    /// has not been placed, returns self.
    pub fn start(self) -> (r: Result<Board<I, D>, Self>)
        requires
            self.wf(),
        ensures
            match r {
                Ok(board) => self@.ready() && board.wf() && board@ == self@.started(),
                Err(setup) => !self@.ready() && setup == self,
            },
    {
        if !self.ready() {
            Err(self)
        } else {
            let ghost model = self@;
            let grid = self.grid;
            let mut ships = self.ships;
            let mut placed: Vec<PlacedShip<I, D::Coordinate>> = Vec::new();
            let mut k: usize = 0;
            while k < ships.len()
                invariant
                    k <= ships.len(),
                    ships.len() == model.ids.len(),
                    placed.len() == k,
                    forall|j: int|
                        0 <= j < k ==> (#[trigger] placed[j]).id == model.ids[j] && Some(
                            placed[j].placement@,
                        ) == model.placements[j],
                    forall|j: int|
                        k <= j < ships.len() ==> (#[trigger] ships[j]).id == model.ids[j]
                            && ships[j].spec_placement() == model.placements[j],
                    forall|j: int|
                        0 <= j < model.ids.len() ==> (#[trigger] model.placements[j]) is Some,
                decreases ships.len() - k,
            {
                let id = ships[k].id;
                assert(model.placements[k as int] is Some);
                match ships[k].placement.take() {
                    Some(placement) => {
                        placed.push(PlacedShip { id, placement });
                    },
                    // A board that is ready has every ship placed.
                    None => unreached(),
                }
                k += 1;
            }
            let board = Board::from_parts(grid, placed);
            proof {
                model.lemma_started_is_wf();
                assert(board@.ids =~= model.started().ids);
                assert(board@.placements =~= model.started().placements);
            }
            Ok(board)
        }
    }

    /// Get the ship that occupies the cell at the given coordinate, if any.
    /// Returns `None` if the coordinate is out of bounds.
    pub fn get_coord(&self, coord: &D::Coordinate) -> (r: Option<&Option<I>>)
        requires
            self.wf(),
        ensures
            match r {
                Some(ship) => self@.cell(*coord) matches Some(cell) && cell.ship == *ship,
                None => self@.cell(*coord) is None,
            },
    {
        match self.grid.get(coord) {
            Some(cell) => Some(&cell.ship),
            None => None,
        }
    }

    /// Checks if this board is ready to start. Returns `true` if at least one
    /// ship has been added and all ships are placed.
    pub fn ready(&self) -> (r: bool)
        ensures
            r == self@.ready(),
    {
        if self.ships.len() == 0 {
            return false;
        }
        let mut k: usize = 0;
        while k < self.ships.len()
            invariant
                k <= self.ships.len(),
                forall|j: int| 0 <= j < k ==> (#[trigger] self@.placements[j]) is Some,
            decreases self.ships.len() - k,
        {
            if self.ships[k].placement.is_none() {
                assert(self@.placements[k as int] is None);
                return false;
            }
            k += 1;
        }
        true
    }

    /// The IDs of the ships that have not been placed yet, in the order in
    /// which the ships were added.
    pub fn pending_ships(&self) -> (pending: Vec<I>)
        ensures
            pending@ == self@.pending(),
    {
        let mut pending: Vec<I> = Vec::new();
        let mut k: usize = 0;
        while k < self.ships.len()
            invariant
                k <= self.ships.len(),
                self@.ids.len() == self.ships.len(),
                pending@ == self@.pending_among(k as nat),
            decreases self.ships.len() - k,
        {
            if self.ships[k].placement.is_none() {
                pending.push(self.ships[k].id);
            }
            k += 1;
        }
        pending
    }

    /// Where the ship with the given ID stands among the ships, if it was
    /// added.
    fn position(&self, id: &I) -> (r: Option<usize>)
        ensures
            match r {
                Some(slot) => slot < self@.ids.len() && self@.ids[slot as int] == *id,
                None => !self@.ids.contains(*id),
            },
    {
        let mut k: usize = 0;
        while k < self.ships.len()
            invariant
                k <= self.ships.len(),
                self@.ids.len() == self.ships.len(),
                forall|j: int| 0 <= j < k ==> self@.ids[j] != *id,
            decreases self.ships.len() - k,
        {
            if self.ships[k].id.same(id) {
                return Some(k);
            }
            k += 1;
        }
        None
    }

    /// Whether the ship at `slot` may be placed on `placement`, and if not,
    /// why.
    fn check_slot(&self, slot: usize, placement: &ShapeProjection<D::Coordinate>) -> (r: Result<
        (),
        CannotPlaceReason,
    >)
        requires
            self.wf(),
            slot < self@.ids.len(),
        ensures
            r == self@.check_placement(slot as int, placement@),
    {
        assert(self@.shapes[slot as int].wf());
        assert(self@.placements[slot as int] == self.ships[slot as int].spec_placement());
        if self.ships[slot].placement.is_some() {
            Err(CannotPlaceReason::AlreadyPlaced)
        } else if !self.ships[slot].shape.is_valid_placement(placement, &self.grid.dim) {
            Err(CannotPlaceReason::InvalidProjection)
        } else {
            if placement.len() == 0 {
                return Err(CannotPlaceReason::InvalidProjection);
            }
            let mut occupied = false;
            let mut j: usize = 0;
            while j < placement.len()
                invariant
                    self.wf(),
                    j <= placement.len(),
                    slot < self@.ids.len(),
                    self@.placements[slot as int] is None,
                    self@.shapes[slot as int].spec_is_valid_placement(placement@, &self@.dim),
                    forall|n: int|
                        0 <= n < j ==> self@.dim.spec_try_linearize(#[trigger] placement@[n])
                            is Some,
                    forall|a: int, b: int|
                        0 <= a < b < j ==> placement@[a] != placement@[b],
                    occupied <==> exists|n: int|
                        0 <= n < j && (#[trigger] self@.cell(placement@[n]) matches Some(cell)
                            && cell.ship is Some),
                decreases placement.len() - j,
            {
                if seen_before(placement, j) {
                    // No cell may be claimed twice.
                    return Err(CannotPlaceReason::InvalidProjection);
                }
                match self.grid.get(&placement[j]) {
                    None => {
                        // The shape should ensure that all coordinates are
                        // valid, but it is not trusted to.
                        return Err(CannotPlaceReason::InvalidProjection);
                    },
                    Some(cell) => {
                        assert(self@.cell(placement@[j as int]) == Some(*cell));
                        if cell.ship.is_some() {
                            occupied = true;
                        }
                    },
                }
                j += 1;
            }
            if occupied {
                Err(CannotPlaceReason::AlreadyOccupied)
            } else {
                Ok(())
            }
        }
    }

    /// Give the cells of the placement to the given ship, or to none.
    fn claim_cells(&mut self, placement: &ShapeProjection<D::Coordinate>, ship: Option<I>)
        requires
            old(self)@.dim.wf(),
            old(self)@.cells.len() == old(self)@.dim.spec_total_size(),
            all_in_bounds(placement@, &old(self)@.dim),
        ensures
            final(self)@ == (SetupModel {
                cells: with_ship(&old(self)@.dim, old(self)@.cells, placement@, ship),
                ..old(self)@
            }),
    {
        let ghost before = self@;
        let mut j: usize = 0;
        proof {
            lemma_with_ship_none(&before.dim, before.cells, placement@, ship);
        }
        while j < placement.len()
            invariant
                j <= placement.len(),
                before.dim.wf(),
                before.cells.len() == before.dim.spec_total_size(),
                all_in_bounds(placement@, &before.dim),
                self@ == (SetupModel {
                    cells: with_ship(&before.dim, before.cells, placement@.take(j as int), ship),
                    ..before
                }),
            decreases placement.len() - j,
        {
            proof {
                before.dim.lemma_linearize_round_trip(placement@[j as int]);
                lemma_with_ship_step(&before.dim, before.cells, placement@, j as int, ship);
            }
            match self.grid.get_mut(&placement[j]) {
                Some(cell) => {
                    cell.ship = ship;
                },
                // Every coordinate of the placement is on the board.
                None => unreached(),
            }
            j += 1;
        }
        assert(placement@.take(placement.len() as int) =~= placement@);
    }

    /// Place the ship at `slot` on the given coordinates, if the check allows
    /// it.
    fn place_slot(&mut self, slot: usize, placement: ShapeProjection<D::Coordinate>) -> (r: Result<
        (),
        PlaceError<ShapeProjection<D::Coordinate>>,
    >)
        requires
            old(self).wf(),
            slot < old(self)@.ids.len(),
        ensures
            final(self).wf(),
            match r {
                Ok(()) => old(self)@.check_placement(slot as int, placement@) is Ok && final(self)@
                    == old(self)@.place(slot as int, placement@),
                Err(err) => old(self)@.check_placement(slot as int, placement@) == Err::<
                    (),
                    CannotPlaceReason,
                >(err.spec_reason()) && err.spec_placement() == placement && final(self)@ == old(
                    self,
                )@,
            },
    {
        match self.check_slot(slot, &placement) {
            Err(reason) => Err(PlaceError::new(reason, placement)),
            Ok(()) => {
                let ghost before = self@;
                let id = self.ships[slot].id;
                // Already ensured that every position is valid and not occupied.
                self.claim_cells(&placement, Some(id));
                let ghost proj = placement@;
                self.ships[slot].placement = Some(placement);
                proof {
                    let after = before.place(slot as int, proj);
                    assert(self@.ids =~= after.ids);
                    assert(self@.shapes =~= after.shapes);
                    assert(self@.placements =~= after.placements);
                    before.lemma_place_keeps_wf(slot as int, proj);
                }
                Ok(())
            },
        }
    }

    /// Clear the placement of the ship at `slot` and hand it out, if there is
    /// one.
    fn unplace_slot(&mut self, slot: usize) -> (r: Option<ShapeProjection<D::Coordinate>>)
        requires
            old(self).wf(),
            slot < old(self)@.ids.len(),
        ensures
            final(self).wf(),
            final(self)@ == old(self)@.unplace(slot as int),
            match r {
                Some(proj) => old(self)@.placements[slot as int] == Some(proj@),
                None => old(self)@.placements[slot as int] is None,
            },
    {
        let ghost before = self@;
        assert(before.placements[slot as int] == self.ships[slot as int].spec_placement());
        match self.ships[slot].placement.take() {
            Some(placement) => {
                proof {
                    assert(self@.ids =~= before.ids);
                    assert(self@.shapes =~= before.shapes);
                    assert(self@.placements =~= before.placements.update(slot as int, None));
                }
                // Only valid cells are ever placed on.
                self.claim_cells(&placement, None);
                proof {
                    before.lemma_unplace_keeps_wf(slot as int);
                }
                Some(placement)
            },
            None => {
                proof {
                    assert(self@.ids =~= before.ids);
                    assert(self@.shapes =~= before.shapes);
                    assert(self@.placements =~= before.placements);
                }
                None
            },
        }
    }
}

/// Reference to a particular ship of a board in its setup phase, providing
/// access to the methods necessary to check its placement status.
pub struct ShipEntry<'a, I: ShipId, D: Dimensions, S: ShipShape<D>> {
    /// ID of this ship.
    id: I,
    /// The board that the ship belongs to.
    board: &'a BoardSetup<I, D, S>,
    /// Where the ship stands among the ships of the board.
    slot: usize,
}

impl<'a, I: ShipId, D: Dimensions, S: ShipShape<D>> ShipEntry<'a, I, D, S> {
    /// The state of the board that the ship belongs to.
    pub closed spec fn setup(&self) -> SetupModel<I, D, S> {
        self.board@
    }

    /// Where the ship stands among the ships of the board.
    pub closed spec fn slot(&self) -> int {
        self.slot as int
    }

    /// The ID of the ship.
    pub closed spec fn spec_id(&self) -> I {
        self.id
    }

    /// The board is valid and the entry names one of its ships.
    pub open spec fn wf(&self) -> bool {
        &&& self.setup().wf()
        &&& 0 <= self.slot() < self.setup().ids.len()
        &&& self.setup().ids[self.slot()] == self.spec_id()
    }

    /// Get the ID of this ship.
    pub fn id(&self) -> (id: &I)
        ensures
            *id == self.spec_id(),
    {
        &self.id
    }

    /// Returns true if this ship has been placed.
    pub fn placed(&self) -> (r: bool)
        requires
            self.wf(),
        ensures
            r == self.setup().placements[self.slot()] is Some,
    {
        assert(self.setup().placements[self.slot()] == self.board.ships[self.slot()].spec_placement());
        self.board.ships[self.slot].placement.is_some()
    }

    /// If the ship is placed, get the placement. Otherwise return `None`.
    pub fn placement(&self) -> (r: Option<&'a ShapeProjection<D::Coordinate>>)
        requires
            self.wf(),
        ensures
            match r {
                Some(proj) => self.setup().placements[self.slot()] == Some(proj@),
                None => self.setup().placements[self.slot()] is None,
            },
    {
        assert(self.setup().placements[self.slot()] == self.board.ships[self.slot()].spec_placement());
        self.board.ships[self.slot].placement.as_ref()
    }

    /// Check if the specified placement is valid for this ship: the ship is
    /// not placed yet, its shape accepts the placement, the placement has at
    /// least one cell, names no cell twice and lies on the board, and all its
    /// cells are free.
    pub fn check_placement(&self, placement: &ShapeProjection<D::Coordinate>) -> (r: Result<
        (),
        CannotPlaceReason,
    >)
        requires
            self.wf(),
        ensures
            r == self.setup().check_placement(self.slot(), placement@),
    {
        self.board.check_slot(self.slot, placement)
    }
}

impl<'a, I: ShipId, D: Dimensions, S: ProjectShape<D>> ShipEntry<'a, I, D, S> {
    /// Get an iterator over possible projections of the shape for this ship
    /// that start from the given coordinate. If there are no possible
    /// placements from the given coordinate, including if the coordinate is
    /// out of bounds, the resulting iterator will be empty.
    pub fn get_placements(&self, coord: D::Coordinate) -> (it: ProjectIter<
        '_,
        D,
        S,
        S::ProjectIterState,
    >)
        requires
            self.wf(),
        ensures
            it.wf(),
            it.remaining() == self.setup().shapes[self.slot()].spec_project(
                coord,
                &self.setup().dim,
            ),
    {
        assert(self.setup().shapes[self.slot()].wf());
        self.board.ships[self.slot].shape.project(coord, &self.board.grid.dim)
    }
}

/// Reference to a particular ship of a board in its setup phase, providing
/// access to the methods necessary to check its placement status and place or
/// unplace it.
///
/// The entry borrows the board. Its fields are public so that contracts can
/// say what the board is once the entry is let go of; entries are made by
/// [`BoardSetup::add_ship`] and [`BoardSetup::get_ship_mut`].
pub struct ShipEntryMut<'a, I: ShipId, D: Dimensions, S: ShipShape<D>> {
    /// ID of this ship.
    pub id: I,
    /// The board that the ship belongs to.
    pub board: &'a mut BoardSetup<I, D, S>,
    /// Where the ship stands among the ships of the board.
    pub slot: usize,
}

impl<'a, I: ShipId, D: Dimensions, S: ShipShape<D>> ShipEntryMut<'a, I, D, S> {
    /// The state of the board that the ship belongs to, as it is now.
    pub open spec fn setup(&self) -> SetupModel<I, D, S> {
        self.board@
    }

    /// Where the ship stands among the ships of the board.
    pub open spec fn slot(&self) -> int {
        self.slot as int
    }

    /// The ID of the ship.
    pub open spec fn spec_id(&self) -> I {
        self.id
    }

    /// The board is valid and the entry names one of its ships.
    pub open spec fn wf(&self) -> bool {
        &&& self.setup().wf()
        &&& 0 <= self.slot() < self.setup().ids.len()
        &&& self.setup().ids[self.slot()] == self.spec_id()
    }

    /// Get the ID of this ship.
    pub fn id(&self) -> (id: &I)
        ensures
            *id == self.spec_id(),
    {
        &self.id
    }

    /// Returns true if this ship has been placed.
    pub fn placed(&self) -> (r: bool)
        requires
            self.wf(),
        ensures
            r == self.setup().placements[self.slot()] is Some,
    {
        assert(self.setup().placements[self.slot()] == self.board.ships[self.slot()].spec_placement());
        self.board.ships[self.slot].placement.is_some()
    }

    /// If the ship is placed, get the placement. Otherwise return `None`.
    pub fn placement(&self) -> (r: Option<&ShapeProjection<D::Coordinate>>)
        requires
            self.wf(),
        ensures
            match r {
                Some(proj) => self.setup().placements[self.slot()] == Some(proj@),
                None => self.setup().placements[self.slot()] is None,
            },
    {
        assert(self.setup().placements[self.slot()] == self.board.ships[self.slot()].spec_placement());
        self.board.ships[self.slot].placement.as_ref()
    }

    /// Check if the specified placement is valid for this ship: the ship is
    /// not placed yet, its shape accepts the placement, the placement has at
    /// least one cell, names no cell twice and lies on the board, and all its
    /// cells are free.
    pub fn check_placement(&self, placement: &ShapeProjection<D::Coordinate>) -> (r: Result<
        (),
        CannotPlaceReason,
    >)
        requires
            self.wf(),
        ensures
            r == self.setup().check_placement(self.slot(), placement@),
    {
        self.board.check_slot(self.slot, placement)
    }

    /// Attempts to place the ship onto the given coordinates. Succeeds
    /// exactly when the check of the placement does. On failure nothing
    /// changes, and the error holds the reason and the attempted placement.
    pub fn place(&mut self, placement: ShapeProjection<D::Coordinate>) -> (r: Result<
        (),
        PlaceError<ShapeProjection<D::Coordinate>>,
    >)
        requires
            old(self).wf(),
        ensures
            final(self).wf(),
            final(self).slot() == old(self).slot(),
            final(self).spec_id() == old(self).spec_id(),
            *final(final(self).board) == *final(old(self).board),
            match r {
                Ok(()) => old(self).setup().check_placement(old(self).slot(), placement@) is Ok
                    && final(self).setup() == old(self).setup().place(old(self).slot(), placement@),
                Err(err) => old(self).setup().check_placement(old(self).slot(), placement@)
                    == Err::<(), CannotPlaceReason>(err.spec_reason()) && err.spec_placement()
                    == placement && final(self).setup() == old(self).setup(),
            },
    {
        self.board.place_slot(self.slot, placement)
    }

    /// Attempt to clear the placement of the ship. Returns the previous
    /// placement of the ship if any. Returns `None` if the ship has not been
    /// placed.
    pub fn unplace(&mut self) -> (r: Option<ShapeProjection<D::Coordinate>>)
        requires
            old(self).wf(),
        ensures
            final(self).wf(),
            final(self).slot() == old(self).slot(),
            final(self).spec_id() == old(self).spec_id(),
            *final(final(self).board) == *final(old(self).board),
            final(self).setup() == old(self).setup().unplace(old(self).slot()),
            match r {
                Some(proj) => old(self).setup().placements[old(self).slot()] == Some(proj@),
                None => old(self).setup().placements[old(self).slot()] is None,
            },
    {
        self.board.unplace_slot(self.slot)
    }
}

impl<'a, I: ShipId, D: Dimensions, S: ProjectShape<D>> ShipEntryMut<'a, I, D, S> {
    /// Get an iterator over possible projections of the shape for this ship
    /// that start from the given coordinate. If there are no possible
    /// placements from the given coordinate, including if the coordinate is
    /// out of bounds, the resulting iterator will be empty.
    pub fn get_placements(&self, coord: D::Coordinate) -> (it: ProjectIter<
        '_,
        D,
        S,
        S::ProjectIterState,
    >)
        requires
            self.wf(),
        ensures
            it.wf(),
            it.remaining() == self.setup().shapes[self.slot()].spec_project(
                coord,
                &self.setup().dim,
            ),
    {
        assert(self.setup().shapes[self.slot()].wf());
        self.board.ships[self.slot].shape.project(coord, &self.board.grid.dim)
    }
}

impl<I: ShipId, D: Dimensions, S: ShipShape<D>> BoardSetup<I, D, S> {
    /// Get the entries of the ships configured on this board, in the order in
    /// which the ships were added.
    pub fn iter_ships(&self) -> (entries: Vec<ShipEntry<'_, I, D, S>>)
        requires
            self.wf(),
        ensures
            entries.len() == self@.ids.len(),
            forall|k: int|
                0 <= k < entries.len() ==> (#[trigger] entries[k]).wf() && entries[k].setup()
                    == self@ && entries[k].slot() == k,
    {
        let mut entries: Vec<ShipEntry<'_, I, D, S>> = Vec::new();
        let mut k: usize = 0;
        while k < self.ships.len()
            invariant
                self.wf(),
                k <= self.ships.len(),
                self@.ids.len() == self.ships.len(),
                entries.len() == k,
                forall|j: int|
                    0 <= j < entries.len() ==> (#[trigger] entries[j]).wf() && entries[j].setup()
                        == self@ && entries[j].slot() == j,
            decreases self.ships.len() - k,
        {
            entries.push(ShipEntry { id: self.ships[k].id, board: self, slot: k });
            k += 1;
        }
        entries
    }

    /// Attempts to add a ship with the given ID. If the given ID is already
    /// used, returns an error that holds the ID and the shape passed to this
    /// function. Otherwise adds the shape, unplaced, and returns the
    /// [`ShipEntryMut`] for it to allow placement.
    pub fn add_ship(&mut self, id: I, shape: S) -> (r: Result<
        ShipEntryMut<'_, I, D, S>,
        AddShipError<I, S>,
    >)
        requires
            old(self).wf(),
            shape.wf(),
        ensures
            match r {
                Ok(entry) => !old(self)@.ids.contains(id) && entry.wf() && entry.setup() == old(
                    self,
                )@.add_ship(id, shape) && entry.slot() == old(self)@.ids.len() && entry.spec_id()
                    == id && *final(entry.board) == *final(self),
                Err(err) => old(self)@.ids.contains(id) && err.spec_id() == id && err.spec_shape()
                    == shape && *final(self) == *old(self),
            },
    {
        match self.position(&id) {
            Some(_) => Err(AddShipError::new(id, shape)),
            None => {
                let ghost before = self@;
                let slot = self.ships.len();
                self.ships.push(ShipPlacementInfo { id, shape, placement: None });
                proof {
                    let after = before.add_ship(id, shape);
                    assert(self@.ids =~= after.ids);
                    assert(self@.shapes =~= after.shapes);
                    assert(self@.placements =~= after.placements);
                    before.lemma_add_ship_keeps_wf(id, shape);
                }
                Ok(ShipEntryMut { id, board: self, slot })
            },
        }
    }

    /// Get the [`ShipEntry`] for the ship with the specified ID if such a
    /// ship exists.
    pub fn get_ship(&self, id: I) -> (r: Option<ShipEntry<'_, I, D, S>>)
        requires
            self.wf(),
        ensures
            match r {
                Some(entry) => entry.wf() && entry.setup() == self@ && entry.spec_id() == id,
                None => !self@.ids.contains(id),
            },
    {
        match self.position(&id) {
            Some(slot) => Some(ShipEntry { id, board: self, slot }),
            None => None,
        }
    }

    /// Get the [`ShipEntryMut`] for the ship with the specified ID if such a
    /// ship exists.
    pub fn get_ship_mut(&mut self, id: I) -> (r: Option<ShipEntryMut<'_, I, D, S>>)
        requires
            old(self).wf(),
        ensures
            match r {
                Some(entry) => entry.wf() && entry.setup() == old(self)@ && entry.spec_id() == id
                    && *final(entry.board) == *final(self),
                None => !old(self)@.ids.contains(id) && *final(self) == *old(self),
            },
    {
        match self.position(&id) {
            Some(slot) => Some(ShipEntryMut { id, board: self, slot }),
            None => None,
        }
    }
}

} // verus!
