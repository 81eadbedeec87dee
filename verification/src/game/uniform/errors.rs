//! Errors of the game with uniform generic parameters.
use vstd::prelude::*;
use vstd::std_specs::convert::FromSpecImpl;

use crate::board::{CannotShootReason as BoardCannotShootReason, ShotError as BoardShotError};

verus! {

/// Error returned when trying to add a player that already existed.
#[derive(Debug)]
pub struct AddPlayerError<P, D> {
    /// ID of the player that was attempted to be added.
    id: P,
    /// The dimensions of the player grid that was not added because the
    /// player ID was already in use.
    dim: D,
}

impl<P, D> AddPlayerError<P, D> {
    /// The ID that the error carries.
    pub closed spec fn spec_id(&self) -> P {
        self.id
    }

    /// The dimensions that the error carries.
    pub closed spec fn spec_dimensions(&self) -> D {
        self.dim
    }

    /// Create an [`AddPlayerError`] for the player with the given ID and
    /// dimensions.
    pub fn new(id: P, dim: D) -> (err: Self)
        ensures
            err.spec_id() == id,
            err.spec_dimensions() == dim,
    {
        Self { id, dim }
    }

    /// The id of the player that was added.
    pub fn id(&self) -> (id: &P)
        ensures
            *id == self.spec_id(),
    {
        &self.id
    }

    /// The dimensions of the board that was attempted to be added.
    pub fn dimensions(&self) -> (dim: &D)
        ensures
            *dim == self.spec_dimensions(),
    {
        &self.dim
    }

    /// Extract the ID and dimensions from this error.
    pub fn into_inner(self) -> (pair: (P, D))
        ensures
            pair == (self.spec_id(), self.spec_dimensions()),
    {
        (self.id, self.dim)
    }
}

impl<P, D> From<AddPlayerError<P, D>> for (P, D) {
    /// Allows retrieving the inner id and dimensions from the error with
    /// into.
    fn from(err: AddPlayerError<P, D>) -> (pair: Self) {
        err.into_inner()
    }
}

impl<P, D> FromSpecImpl<AddPlayerError<P, D>> for (P, D) {
    open spec fn obeys_from_spec() -> bool {
        true
    }

    open spec fn from_spec(err: AddPlayerError<P, D>) -> Self {
        (err.spec_id(), err.spec_dimensions())
    }
}

/// Reason why a particular tile could not be shot.
#[derive(Debug, Copy, Clone, Eq, PartialEq, Structural)]
pub enum CannotShootReason {
    /// The game is already over.
    AlreadyOver,
    /// The player being attacked is the player whose turn it is.
    SelfShot,
    /// The player ID given is not known to the game.
    UnknownPlayer,
    /// The player being attacked is already defeated.
    AlreadyDefeated,
    /// The shot was out of bounds on the grid.
    OutOfBounds,
    /// The tile specified was already shot.
    AlreadyShot,
}

impl CannotShootReason {
    /// The reason of the game that stands for a reason of a board.
    pub open spec fn lift(reason: BoardCannotShootReason) -> Self {
        match reason {
            BoardCannotShootReason::AlreadyDefeated => CannotShootReason::AlreadyDefeated,
            BoardCannotShootReason::OutOfBounds => CannotShootReason::OutOfBounds,
            BoardCannotShootReason::AlreadyShot => CannotShootReason::AlreadyShot,
        }
    }
}

impl From<BoardCannotShootReason> for CannotShootReason {
    fn from(reason: BoardCannotShootReason) -> (lifted: Self) {
        match reason {
            BoardCannotShootReason::AlreadyDefeated => CannotShootReason::AlreadyDefeated,
            BoardCannotShootReason::OutOfBounds => CannotShootReason::OutOfBounds,
            BoardCannotShootReason::AlreadyShot => CannotShootReason::AlreadyShot,
        }
    }
}

impl FromSpecImpl<BoardCannotShootReason> for CannotShootReason {
    open spec fn obeys_from_spec() -> bool {
        true
    }

    open spec fn from_spec(reason: BoardCannotShootReason) -> Self {
        Self::lift(reason)
    }
}

/// Error returned when trying to shoot a cell.
#[derive(Debug)]
pub struct ShotError<P, C> {
    /// Reason why the cell could not be shot.
    reason: CannotShootReason,
    /// Id of the player that was attacked.
    player: P,
    /// Coordinates that were attacked.
    coord: C,
}

impl<P, C> ShotError<P, C> {
    /// The reason that the error carries.
    pub closed spec fn spec_reason(&self) -> CannotShootReason {
        self.reason
    }

    /// The player that the error carries.
    pub closed spec fn spec_player(&self) -> P {
        self.player
    }

    /// The coordinate that the error carries.
    pub closed spec fn spec_coord(&self) -> C {
        self.coord
    }

    /// Create a [`ShotError`] from a reason, player and coordinate.
    pub fn new(reason: CannotShootReason, player: P, coord: C) -> (err: Self)
        ensures
            err.spec_reason() == reason,
            err.spec_player() == player,
            err.spec_coord() == coord,
    {
        Self { reason, player, coord }
    }

    /// Create a [`ShotError`] by adding a player ID as context to a
    /// [`BoardShotError`].
    pub fn add_context(cause: BoardShotError<C>, player: P) -> (err: Self)
        ensures
            err.spec_reason() == CannotShootReason::lift(cause.spec_reason()),
            err.spec_player() == player,
            err.spec_coord() == cause.spec_coord(),
    {
        Self { reason: CannotShootReason::from(cause.reason()), player, coord: cause.into_coord() }
    }

    /// Get the reason the shot failed.
    pub fn reason(&self) -> (reason: CannotShootReason)
        ensures
            reason == self.spec_reason(),
    {
        self.reason
    }

    /// Get the ID of the player that was shot at.
    pub fn player(&self) -> (player: &P)
        ensures
            *player == self.spec_player(),
    {
        &self.player
    }

    /// Get the coordinate that was shot at.
    pub fn coord(&self) -> (coord: &C)
        ensures
            *coord == self.spec_coord(),
    {
        &self.coord
    }

    /// Extract the player ID and coordinates from the error.
    pub fn into_inner(self) -> (pair: (P, C))
        ensures
            pair == (self.spec_player(), self.spec_coord()),
    {
        (self.player, self.coord)
    }
}

} // verus!
