//! Types that make up the game board.
use vstd::pervasive::unreached;
use vstd::prelude::*;

pub use self::dimensions::{
    ColinearCheck, Coordinate, Dimensions, NeighborIter, NeighborIterState, Neighborhood,
};
pub use self::errors::{AddShipError, CannotPlaceReason, CannotShootReason, PlaceError, ShotError};
pub use self::grid::{Grid, GridCell};
use self::grid::covers;
use crate::ships::{all_in_bounds, sound_projection, ShapeProjection, ShipId};
pub use self::setup::BoardSetup;

pub mod common;
pub mod dimensions;
pub mod errors;
pub mod grid;
pub mod rectangular;
pub mod setup;

verus! {

/// Result of a shot on a single player's board.
pub enum ShotOutcome<I> {
    /// The shot did not hit anything.
    Miss,
    /// The shot hit the ship with the given ID, but did not sink it.
    Hit(I),
    /// The shot sank the ship with the given ID, but the player has more
    /// ships left.
    Sunk(I),
    /// The shot hit the ship with the given ID, and all of the player's ships
    /// are now sunk.
    Defeated(I),
}

impl<I> ShotOutcome<I> {
    /// The id of the ship that was hit, if any.
    pub open spec fn spec_ship(&self) -> Option<I> {
        match *self {
            ShotOutcome::Miss => None,
            ShotOutcome::Hit(id) | ShotOutcome::Sunk(id) | ShotOutcome::Defeated(id) => Some(id),
        }
    }

    /// Get the id of the ship that was hit.
    pub fn ship(&self) -> (ship: Option<&I>)
        ensures
            match ship {
                Some(id) => self.spec_ship() == Some(*id),
                None => self.spec_ship() is None,
            },
    {
        match self {
            ShotOutcome::Miss => None,
            ShotOutcome::Hit(id) | ShotOutcome::Sunk(id) | ShotOutcome::Defeated(id) => Some(id),
        }
    }

    /// Extract the id of the ship that was hit from this result.
    pub fn into_ship(self) -> (ship: Option<I>)
        ensures
            ship == self.spec_ship(),
    {
        match self {
            ShotOutcome::Miss => None,
            ShotOutcome::Hit(id) | ShotOutcome::Sunk(id) | ShotOutcome::Defeated(id) => Some(id),
        }
    }
}

/// The state of a board in its play phase: the cells by linear index, and the
/// ships in the order in which they were added, each with its ID and its
/// placement.
pub struct BoardModel<I, D: Dimensions> {
    /// Dimensions of the board.
    pub dim: D,
    /// The cells, by linear index.
    pub cells: Seq<GridCell<I>>,
    /// The IDs of the ships.
    pub ids: Seq<I>,
    /// The placements of the ships.
    pub placements: Seq<Seq<D::Coordinate>>,
}

impl<I, D: Dimensions> BoardModel<I, D> {
    /// Whether the ship at `slot` is placed on the cell with index `idx`.
    pub open spec fn occupies(&self, slot: int, idx: int) -> bool {
        covers(&self.dim, self.placements[slot], idx)
    }

    /// Validity of the state. There is at least one ship, every placement has
    /// at least one cell, lies on the board and holds no cell twice, the cells
    /// whose ship is a given ship are exactly the cells of its placement, and
    /// no cell holds anything else.
    pub open spec fn wf(&self) -> bool {
        &&& self.dim.wf()
        &&& self.cells.len() == self.dim.spec_total_size()
        &&& self.placements.len() == self.ids.len()
        &&& self.ids.len() > 0
        &&& self.ids.no_duplicates()
        &&& forall|k: int|
            0 <= k < self.ids.len() ==> sound_projection(#[trigger] self.placements[k], &self.dim)
        &&& forall|i: int|
            0 <= i < self.cells.len() ==> ((#[trigger] self.cells[i]).ship matches Some(id)
                ==> self.ids.contains(id))
        &&& forall|k: int, i: int|
            0 <= k < self.ids.len() && 0 <= i < self.cells.len() ==> (#[trigger] self.occupies(
                k,
                i,
            ) <==> self.cells[i].ship == Some(self.ids[k]))
    }

    /// The cell at a coordinate, `None` when the coordinate is out of bounds.
    pub open spec fn cell(&self, coord: D::Coordinate) -> Option<GridCell<I>> {
        match self.dim.spec_try_linearize(coord) {
            Some(idx) => Some(self.cells[idx as int]),
            None => None,
        }
    }

    /// Whether the cell at the coordinate has been hit.
    pub open spec fn hit_at(&self, coord: D::Coordinate) -> bool {
        self.cell(coord) matches Some(cell) && cell.hit
    }

    /// A ship is sunk when every cell of its placement has been hit.
    pub open spec fn sunk(&self, slot: int) -> bool {
        forall|j: int|
            0 <= j < self.placements[slot].len() ==> self.hit_at(
                #[trigger] self.placements[slot][j],
            )
    }

    /// A board is defeated when every ship is sunk.
    pub open spec fn defeated(&self) -> bool {
        forall|k: int| 0 <= k < self.ids.len() ==> #[trigger] self.sunk(k)
    }

    /// The state in which the cell with index `idx` is hit.
    pub open spec fn with_hit(&self, idx: int) -> Self {
        BoardModel {
            cells: self.cells.update(idx, GridCell { ship: self.cells[idx].ship, hit: true }),
            ..*self
        }
    }

    /// What a shot at the coordinate gives: why it is refused, or what it
    /// does to the ships.
    pub open spec fn shot_result(&self, coord: D::Coordinate) -> Result<
        ShotOutcome<I>,
        CannotShootReason,
    > {
        if self.defeated() {
            Err(CannotShootReason::AlreadyDefeated)
        } else {
            match self.dim.spec_try_linearize(coord) {
                None => Err(CannotShootReason::OutOfBounds),
                Some(idx) => if self.cells[idx as int].hit {
                    Err(CannotShootReason::AlreadyShot)
                } else {
                    let after = self.with_hit(idx as int);
                    match self.cells[idx as int].ship {
                        None => Ok(ShotOutcome::Miss),
                        Some(id) => if after.defeated() {
                            Ok(ShotOutcome::Defeated(id))
                        } else if after.sunk(after.ids.index_of(id)) {
                            Ok(ShotOutcome::Sunk(id))
                        } else {
                            Ok(ShotOutcome::Hit(id))
                        },
                    }
                },
            }
        }
    }

    /// The state after a shot at the coordinate: the cell is hit if the shot
    /// is taken, and nothing changes if it is refused.
    pub open spec fn after_shot(&self, coord: D::Coordinate) -> Self {
        if self.shot_result(coord) is Ok {
            self.with_hit(self.dim.spec_try_linearize(coord).unwrap() as int)
        } else {
            *self
        }
    }

    /// A shot at a cell that was already shot at is refused, unless the board
    /// is defeated, and leaves the board as it is.
    pub proof fn lemma_shot_at_hit_cell(&self, coord: D::Coordinate)
        requires
            self.wf(),
            !self.defeated(),
            self.hit_at(coord),
        ensures
            self.shot_result(coord) == Err::<ShotOutcome<I>, CannotShootReason>(
                CannotShootReason::AlreadyShot,
            ),
            self.after_shot(coord) == *self,
    {
    }

    /// After a shot was taken, a second shot at the same cell is refused and
    /// leaves the board as it is: because the cell was already shot at, or,
    /// if the first shot defeated the board, because the board is defeated.
    pub proof fn lemma_second_shot_is_refused(&self, coord: D::Coordinate)
        requires
            self.wf(),
            self.shot_result(coord) is Ok,
        ensures
            self.after_shot(coord).hit_at(coord),
            self.after_shot(coord).shot_result(coord) == Err::<ShotOutcome<I>, CannotShootReason>(
                if self.after_shot(coord).defeated() {
                    CannotShootReason::AlreadyDefeated
                } else {
                    CannotShootReason::AlreadyShot
                },
            ),
            self.after_shot(coord).after_shot(coord) == self.after_shot(coord),
    {
        self.dim.lemma_linearize_round_trip(coord);
    }

    /// A refused shot leaves the board as it is.
    pub proof fn lemma_refused_shot_changes_nothing(&self, coord: D::Coordinate)
        requires
            self.shot_result(coord) is Err,
        ensures
            self.after_shot(coord) == *self,
    {
    }

    /// A ship that is sunk stays sunk, and a board that is defeated stays
    /// defeated, whatever is shot at.
    pub proof fn lemma_sunk_is_final(&self, coord: D::Coordinate)
        requires
            self.wf(),
        ensures
            forall|k: int|
                0 <= k < self.ids.len() && self.sunk(k) ==> #[trigger] self.after_shot(coord).sunk(
                    k,
                ),
            self.defeated() ==> self.after_shot(coord).defeated(),
    {
        let after = self.after_shot(coord);
        assert forall|k: int| 0 <= k < self.ids.len() && self.sunk(k) implies #[trigger] after.sunk(
            k,
        ) by {
            assert forall|j: int| 0 <= j < after.placements[k].len() implies after.hit_at(
                #[trigger] after.placements[k][j],
            ) by {
                assert(self.hit_at(self.placements[k][j]));
                self.dim.lemma_linearize_round_trip(self.placements[k][j]);
                if self.shot_result(coord) is Ok {
                    self.dim.lemma_linearize_round_trip(coord);
                }
            }
        }
    }

    /// Hitting a cell keeps the board valid.
    pub proof fn lemma_with_hit_keeps_wf(&self, idx: int)
        requires
            self.wf(),
            0 <= idx < self.cells.len(),
        ensures
            self.with_hit(idx).wf(),
    {
        let after = self.with_hit(idx);
        assert forall|i: int| 0 <= i < after.cells.len() implies ((
        #[trigger] after.cells[i]).ship matches Some(id) ==> after.ids.contains(id)) by {
            assert(after.cells[i].ship == self.cells[i].ship);
        }
        assert forall|k: int, i: int|
            0 <= k < after.ids.len() && 0 <= i < after.cells.len() implies (
        #[trigger] after.occupies(k, i) <==> after.cells[i].ship == Some(after.ids[k])) by {
            assert(self.occupies(k, i) <==> self.cells[i].ship == Some(self.ids[k]));
            assert(after.cells[i].ship == self.cells[i].ship);
        }
    }

    /// A shot, taken or refused, keeps the board valid.
    pub proof fn lemma_after_shot_keeps_wf(&self, coord: D::Coordinate)
        requires
            self.wf(),
        ensures
            self.after_shot(coord).wf(),
    {
        if self.shot_result(coord) is Ok {
            self.dim.lemma_linearize_round_trip(coord);
            self.lemma_with_hit_keeps_wf(self.dim.spec_try_linearize(coord).unwrap() as int);
        }
    }
}

/// A ship of a board in its play phase: its ID and where it lies.
pub struct PlacedShip<I, C> {
    /// ID of the ship.
    pub id: I,
    /// The cells that the ship occupies.
    pub placement: ShapeProjection<C>,
}

/// Represents a single player's board, including their ships and their side
/// of the ocean.
pub struct Board<I: ShipId, D: Dimensions> {
    /// Grid of cells occupied by ships.
    grid: Grid<I, D>,
    /// The ships with their projected positions in the grid, in the order in
    /// which they were added.
    ships: Vec<PlacedShip<I, D::Coordinate>>,
}

impl<I: ShipId, D: Dimensions> View for Board<I, D> {
    type V = BoardModel<I, D>;

    closed spec fn view(&self) -> BoardModel<I, D> {
        BoardModel {
            dim: self.grid.dim,
            cells: self.grid.cells@,
            ids: Seq::new(self.ships.len() as nat, |k: int| self.ships[k].id),
            placements: Seq::new(self.ships.len() as nat, |k: int| self.ships[k].placement@),
        }
    }
}

/// Handle to a ship that allows getting information about its status.
pub struct ShipRef<'a, I: ShipId, D: Dimensions> {
    /// ID of the ship.
    id: &'a I,
    /// The board that the ship belongs to.
    board: &'a Board<I, D>,
    /// Where the ship stands among the ships of the board.
    slot: usize,
}

impl<'a, I: ShipId, D: Dimensions> ShipRef<'a, I, D> {
    /// The state of the board that the ship belongs to.
    pub closed spec fn board(&self) -> BoardModel<I, D> {
        self.board@
    }

    /// Where the ship stands among the ships of the board.
    pub closed spec fn slot(&self) -> int {
        self.slot as int
    }

    /// The ID of the ship.
    pub closed spec fn spec_id(&self) -> I {
        *self.id
    }

    /// The board is valid and the handle names one of its ships.
    pub open spec fn wf(&self) -> bool {
        &&& self.board().wf()
        &&& 0 <= self.slot() < self.board().ids.len()
        &&& self.board().ids[self.slot()] == self.spec_id()
    }

    /// Get the ID of the ship.
    pub fn id(&self) -> (id: &'a I)
        ensures
            *id == self.spec_id(),
    {
        self.id
    }

    /// Check if this ship has been sunk.
    pub fn sunk(&self) -> (r: bool)
        requires
            self.wf(),
        ensures
            r == self.board().sunk(self.slot()),
    {
        self.board.sunk_slot(self.slot)
    }

    /// Get the coordinates of this ship: at least one, each on the board,
    /// none twice.
    pub fn coords(&self) -> (coords: &'a ShapeProjection<D::Coordinate>)
        requires
            self.wf(),
        ensures
            coords@ == self.board().placements[self.slot()],
            sound_projection(coords@, &self.board().dim),
    {
        assert(sound_projection(self.board().placements[self.slot()], &self.board().dim));
        &self.board.ships[self.slot].placement
    }

    /// Get the coordinates of this ship, each with whether it has been hit.
    pub fn hits(&self) -> (hits: Vec<(D::Coordinate, bool)>)
        requires
            self.wf(),
        ensures
            hits.len() == self.board().placements[self.slot()].len(),
            forall|j: int|
                0 <= j < hits.len() ==> (#[trigger] hits[j]).0 == self.board().placements[self.slot()][j]
                    && hits[j].1 == self.board().hit_at(hits[j].0),
    {
        let placement = &self.board.ships[self.slot].placement;
        let mut hits: Vec<(D::Coordinate, bool)> = Vec::new();
        let mut j: usize = 0;
        assert(all_in_bounds(self.board().placements[self.slot()], &self.board().dim));
        while j < placement.len()
            invariant
                self.wf(),
                j <= placement.len(),
                placement@ == self.board().placements[self.slot()],
                all_in_bounds(placement@, &self.board().dim),
                hits.len() == j,
                forall|n: int|
                    0 <= n < hits.len() ==> (#[trigger] hits[n]).0 == placement@[n] && hits[n].1
                        == self.board().hit_at(hits[n].0),
            decreases placement.len() - j,
        {
            let coord = placement[j];
            let hit = match self.board.grid.get(&coord) {
                Some(cell) => cell.hit,
                None => false,
            };
            hits.push((coord, hit));
            j += 1;
        }
        hits
    }
}

impl<I: ShipId, D: Dimensions> Clone for ShipRef<'_, I, D> {
    fn clone(&self) -> (copy: Self)
        ensures
            copy == *self,
    {
        Self { id: self.id, board: self.board, slot: self.slot }
    }
}

impl<I: ShipId, D: Dimensions> Copy for ShipRef<'_, I, D> {

}

/// Reference to a particular cell in the grid.
pub struct CellRef<'a, I: ShipId, D: Dimensions> {
    /// Coordinate of this cell.
    coord: D::Coordinate,
    /// Whether this cell was hit.
    hit: bool,
    /// Reference to the ship that occupies this cell if any.
    ship: Option<ShipRef<'a, I, D>>,
}

impl<'a, I: ShipId, D: Dimensions> CellRef<'a, I, D> {
    /// The coordinate of the cell.
    pub closed spec fn spec_coord(&self) -> D::Coordinate {
        self.coord
    }

    /// Whether the cell was hit.
    pub closed spec fn spec_hit(&self) -> bool {
        self.hit
    }

    /// The ship that occupies the cell, if any.
    pub closed spec fn spec_ship(&self) -> Option<ShipRef<'a, I, D>> {
        self.ship
    }

    /// Whether this is the reference to the cell of the board at the
    /// coordinate: the coordinate is on the board, the reference holds it and
    /// whether the cell was hit, and its ship is the handle of the ship in the
    /// cell, if there is one.
    pub open spec fn describes(&self, board: BoardModel<I, D>, coord: D::Coordinate) -> bool {
        &&& board.cell(coord) matches Some(cell)
        &&& self.spec_coord() == coord
        &&& self.spec_hit() == board.cell(coord).unwrap().hit
        &&& match self.spec_ship() {
            Some(handle) => handle.wf() && handle.board() == board && board.cell(
                coord,
            ).unwrap().ship == Some(handle.spec_id()),
            None => board.cell(coord).unwrap().ship is None,
        }
    }

    /// The grid coordinate of this cell.
    pub fn coord(&self) -> (coord: &D::Coordinate)
        ensures
            *coord == self.spec_coord(),
    {
        &self.coord
    }

    /// Whether this cell has been hit previously.
    pub fn hit(&self) -> (hit: bool)
        ensures
            hit == self.spec_hit(),
    {
        self.hit
    }

    /// The ship reference for the ship that occupies this cell, if any.
    pub fn ship(&self) -> (ship: Option<ShipRef<'a, I, D>>)
        ensures
            ship == self.spec_ship(),
    {
        self.ship
    }
}

/// In a sequence without duplicates, an entry is found where it stands.
pub proof fn lemma_index_of_unique<A>(s: Seq<A>, k: int)
    requires
        s.no_duplicates(),
        0 <= k < s.len(),
    ensures
        s.index_of(s[k]) == k,
{
    let j = s.index_of(s[k]);
    assert(0 <= j < s.len() && s[j] == s[k]);
}

impl<I: ShipId, D: Dimensions> Board<I, D> {
    /// Validity of the board: that of its state.
    pub open spec fn wf(&self) -> bool {
        self@.wf()
    }

    /// A board in its play phase, made of the grid and the ships of a board
    /// whose setup is complete.
    pub(crate) fn from_parts(grid: Grid<I, D>, ships: Vec<PlacedShip<I, D::Coordinate>>) -> (board:
        Self)
        ensures
            board@.dim == grid.dim,
            board@.cells == grid.cells@,
            board@.ids == Seq::new(ships.len() as nat, |k: int| ships[k].id),
            board@.placements == Seq::new(ships.len() as nat, |k: int| ships[k].placement@),
    {
        Board { grid, ships }
    }

    /// Get the [`Dimensions`] of this [`Board`].
    pub fn dimensions(&self) -> (dim: &D)
        ensures
            *dim == self@.dim,
    {
        &self.grid.dim
    }

    /// Whether every cell of the ship at `slot` has been hit.
    fn sunk_slot(&self, slot: usize) -> (r: bool)
        requires
            self.wf(),
            slot < self@.ids.len(),
        ensures
            r == self@.sunk(slot as int),
    {
        let placement = &self.ships[slot].placement;
        assert(placement@ == self@.placements[slot as int]);
        let mut j: usize = 0;
        while j < placement.len()
            invariant
                self.wf(),
                j <= placement.len(),
                slot < self@.ids.len(),
                placement@ == self@.placements[slot as int],
                forall|n: int| 0 <= n < j ==> self@.hit_at(#[trigger] placement@[n]),
            decreases placement.len() - j,
        {
            let hit = match self.grid.get(&placement[j]) {
                Some(cell) => cell.hit,
                None => false,
            };
            if !hit {
                assert(!self@.hit_at(placement@[j as int]));
                return false;
            }
            j += 1;
        }
        true
    }

    /// Returns true if all of this player's ships have been sunk.
    pub fn defeated(&self) -> (r: bool)
        requires
            self.wf(),
        ensures
            r == self@.defeated(),
    {
        let mut k: usize = 0;
        while k < self.ships.len()
            invariant
                self.wf(),
                k <= self.ships.len(),
                self@.ids.len() == self.ships.len(),
                forall|n: int| 0 <= n < k ==> #[trigger] self@.sunk(n),
            decreases self.ships.len() - k,
        {
            if !self.sunk_slot(k) {
                return false;
            }
            k += 1;
        }
        true
    }

    /// Get the handles of all ships on this board, in the order in which the
    /// ships were added.
    pub fn iter_ships(&self) -> (ships: Vec<ShipRef<'_, I, D>>)
        requires
            self.wf(),
        ensures
            ships.len() == self@.ids.len(),
            forall|k: int|
                0 <= k < ships.len() ==> (#[trigger] ships[k]).wf() && ships[k].board() == self@
                    && ships[k].slot() == k,
    {
        let mut ships: Vec<ShipRef<'_, I, D>> = Vec::new();
        let mut k: usize = 0;
        while k < self.ships.len()
            invariant
                self.wf(),
                k <= self.ships.len(),
                self@.ids.len() == self.ships.len(),
                ships.len() == k,
                forall|j: int|
                    0 <= j < ships.len() ==> (#[trigger] ships[j]).wf() && ships[j].board()
                        == self@ && ships[j].slot() == j,
            decreases self.ships.len() - k,
        {
            ships.push(ShipRef { id: &self.ships[k].id, board: self, slot: k });
            k += 1;
        }
        ships
    }

    /// Where the ship with the given ID stands among the ships, if there is
    /// such a ship.
    fn position(&self, id: &I) -> (r: Option<usize>)
        ensures
            match r {
                Some(slot) => slot < self@.ids.len() && self@.ids[slot as int] == *id,
                None => !self@.ids.contains(*id),
            },
    {
        let mut k: usize = 0;
        while k < self.ships.len()
            invariant
                k <= self.ships.len(),
                self@.ids.len() == self.ships.len(),
                forall|j: int| 0 <= j < k ==> self@.ids[j] != *id,
            decreases self.ships.len() - k,
        {
            if self.ships[k].id.same(id) {
                return Some(k);
            }
            k += 1;
        }
        None
    }

    /// Get the ship with the specified ID if it exists.
    pub fn get_ship(&self, ship: &I) -> (r: Option<ShipRef<'_, I, D>>)
        requires
            self.wf(),
        ensures
            match r {
                Some(handle) => handle.wf() && handle.board() == self@ && handle.spec_id()
                    == *ship,
                None => !self@.ids.contains(*ship),
            },
    {
        match self.position(ship) {
            Some(slot) => Some(ShipRef { id: &self.ships[slot].id, board: self, slot }),
            None => None,
        }
    }

    /// Get a reference to the cell at the given coordinate. Returns None if
    /// the coordinate is out of bounds.
    pub fn get_coord(&self, coord: D::Coordinate) -> (r: Option<CellRef<'_, I, D>>)
        requires
            self.wf(),
        ensures
            match r {
                Some(cell_ref) => cell_ref.describes(self@, coord),
                None => self@.cell(coord) is None,
            },
    {
        match self.grid.get(&coord) {
            Some(cell) => {
                proof {
                    self@.dim.lemma_linearize_round_trip(coord);
                    let idx = self@.dim.spec_try_linearize(coord).unwrap() as int;
                    assert(self@.cells[idx] == *cell);
                }
                let ship = match &cell.ship {
                    Some(id) => self.get_ship(id),
                    None => None,
                };
                Some(CellRef { coord, hit: cell.hit, ship })
            },
            None => None,
        }
    }

    /// Fire a shot at this player, returning a result indicating why the shot
    /// was aborted or the result of the shot on this player.
    pub fn shoot(&mut self, coord: D::Coordinate) -> (r: Result<
        ShotOutcome<I>,
        ShotError<D::Coordinate>,
    >)
        requires
            old(self).wf(),
        ensures
            final(self).wf(),
            final(self)@ == old(self)@.after_shot(coord),
            match r {
                Ok(outcome) => old(self)@.shot_result(coord) == Ok::<
                    ShotOutcome<I>,
                    CannotShootReason,
                >(outcome),
                Err(err) => old(self)@.shot_result(coord) == Err::<
                    ShotOutcome<I>,
                    CannotShootReason,
                >(err.spec_reason()) && err.spec_coord() == coord,
            },
    {
        if self.defeated() {
            return Err(ShotError::new(CannotShootReason::AlreadyDefeated, coord));
        }
        let ghost before = self@;
        proof {
            if before.dim.spec_try_linearize(coord) is Some {
                before.dim.lemma_linearize_round_trip(coord);
                before.lemma_with_hit_keeps_wf(before.dim.spec_try_linearize(coord).unwrap() as int);
            }
        }
        let (shot_before, hit_ship) = match self.grid.get_mut(&coord) {
            None => {
                return Err(ShotError::new(CannotShootReason::OutOfBounds, coord));
            },
            Some(cell) => {
                let shot_before = cell.hit;
                cell.hit = true;
                (shot_before, cell.ship)
            },
        };
        proof {
            assert(self@.ids =~= before.ids);
            assert(self@.placements =~= before.placements);
            assert(self@.cells =~= before.after_shot(coord).cells);
        }
        if shot_before {
            return Err(ShotError::new(CannotShootReason::AlreadyShot, coord));
        }
        Ok(
            match hit_ship {
                None => ShotOutcome::Miss,
                Some(ship) => {
                    if self.defeated() {
                        ShotOutcome::Defeated(ship)
                    } else {
                        match self.position(&ship) {
                            Some(slot) => {
                                proof {
                                    lemma_index_of_unique(self@.ids, slot as int);
                                }
                                if self.sunk_slot(slot) {
                                    ShotOutcome::Sunk(ship)
                                } else {
                                    ShotOutcome::Hit(ship)
                                }
                            },
                            // Every ship in a cell is a ship of the board.
                            None => unreached(),
                        }
                    }
                },
            },
        )
    }
}

} // verus!
