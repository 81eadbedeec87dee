//! Errors used by the `Board` and `BoardSetup`.
use vstd::prelude::*;
use vstd::std_specs::convert::FromSpecImpl;

verus! {

/// Error returned when trying to add a ship that already existed.
#[derive(Debug)]
pub struct AddShipError<I, S> {
    /// ID of the ship that was attempted to be added.
    id: I,
    /// The shape that was not added because another shape with the same ID
    /// already existed.
    shape: S,
}

impl<I, S> AddShipError<I, S> {
    /// The ID that the error carries.
    pub closed spec fn spec_id(&self) -> I {
        self.id
    }

    /// The shape that the error carries.
    pub closed spec fn spec_shape(&self) -> S {
        self.shape
    }

    /// Create an [`AddShipError`] for the ship with the given ID and shape.
    pub fn new(id: I, shape: S) -> (err: Self)
        ensures
            err.spec_id() == id,
            err.spec_shape() == shape,
    {
        Self { id, shape }
    }

    /// The id that was added.
    pub fn id(&self) -> (id: &I)
        ensures
            *id == self.spec_id(),
    {
        &self.id
    }

    /// The shape that was added.
    pub fn shape(&self) -> (shape: &S)
        ensures
            *shape == self.spec_shape(),
    {
        &self.shape
    }

    /// Extract the ID and shape from this error.
    pub fn into_inner(self) -> (pair: (I, S))
        ensures
            pair == (self.spec_id(), self.spec_shape()),
    {
        (self.id, self.shape)
    }
}

impl<I, S> From<AddShipError<I, S>> for (I, S) {
    /// Allows retrieving the inner id and shape from the error with into.
    fn from(err: AddShipError<I, S>) -> (pair: Self) {
        err.into_inner()
    }
}

impl<I, S> FromSpecImpl<AddShipError<I, S>> for (I, S) {
    open spec fn obeys_from_spec() -> bool {
        true
    }

    open spec fn from_spec(err: AddShipError<I, S>) -> Self {
        (err.spec_id(), err.spec_shape())
    }
}

/// Reason why a ship could not be placed with a given projection.
#[derive(Debug, Copy, Clone, Eq, PartialEq, Structural)]
pub enum CannotPlaceReason {
    /// The given ship was already placed.
    AlreadyPlaced,
    /// The projection provided was not a valid projection of the specified
    /// ship.
    InvalidProjection,
    /// One or more of the cells in the projection was already occupied.
    AlreadyOccupied,
}

impl CannotPlaceReason {
    /// What the reason says, for a reader.
    pub fn message(&self) -> (text: &'static str)
        ensures
            text@ == match self {
                CannotPlaceReason::AlreadyPlaced => "ship was already placed"@,
                CannotPlaceReason::InvalidProjection => "the projection provided was not valid"@,
                CannotPlaceReason::AlreadyOccupied => "the requested position was already occupied"@,
            },
    {
        match self {
            CannotPlaceReason::AlreadyPlaced => "ship was already placed",
            CannotPlaceReason::InvalidProjection => "the projection provided was not valid",
            CannotPlaceReason::AlreadyOccupied => "the requested position was already occupied",
        }
    }
}

/// Error caused when attempting to place a ship in an invalid position.
#[derive(Debug)]
pub struct PlaceError<P> {
    reason: CannotPlaceReason,
    placement: P,
}

impl<P> PlaceError<P> {
    /// The reason that the error carries.
    pub closed spec fn spec_reason(&self) -> CannotPlaceReason {
        self.reason
    }

    /// The placement that the error carries.
    pub closed spec fn spec_placement(&self) -> P {
        self.placement
    }

    /// Construct a placement error from a reason and placement.
    pub fn new(reason: CannotPlaceReason, placement: P) -> (err: Self)
        ensures
            err.spec_reason() == reason,
            err.spec_placement() == placement,
    {
        Self { reason, placement }
    }

    /// Get the reason placement was aborted.
    pub fn reason(&self) -> (reason: CannotPlaceReason)
        ensures
            reason == self.spec_reason(),
    {
        self.reason
    }

    /// Get a reference to the placement that was attempted.
    pub fn placement(&self) -> (placement: &P)
        ensures
            *placement == self.spec_placement(),
    {
        &self.placement
    }

    /// Extract the placement from this error.
    pub fn into_placement(self) -> (placement: P)
        ensures
            placement == self.spec_placement(),
    {
        self.placement
    }
}

/// Reason why a particular tile could not be shot.
#[derive(Debug, Copy, Clone, Eq, PartialEq, Structural)]
pub enum CannotShootReason {
    /// The player being attacked was already defeated.
    AlreadyDefeated,
    /// The cell selected was out of bounds on the board.
    OutOfBounds,
    /// A shot has already been fired at that cell.
    AlreadyShot,
}

/// Error returned when trying to shoot a cell.
#[derive(Debug)]
pub struct ShotError<C> {
    /// Reason why the cell could not be shot.
    reason: CannotShootReason,
    /// The coordinates of the cell.
    coord: C,
}

impl<C> ShotError<C> {
    /// The reason that the error carries.
    pub closed spec fn spec_reason(&self) -> CannotShootReason {
        self.reason
    }

    /// The coordinate that the error carries.
    pub closed spec fn spec_coord(&self) -> C {
        self.coord
    }

    /// Construct a shot error with the given reason for the specified cell.
    pub fn new(reason: CannotShootReason, coord: C) -> (err: Self)
        ensures
            err.spec_reason() == reason,
            err.spec_coord() == coord,
    {
        Self { reason, coord }
    }

    /// Get the reason the shot failed.
    pub fn reason(&self) -> (reason: CannotShootReason)
        ensures
            reason == self.spec_reason(),
    {
        self.reason
    }

    /// Get the coordinate of the shot cell.
    pub fn coord(&self) -> (coord: &C)
        ensures
            *coord == self.spec_coord(),
    {
        &self.coord
    }

    /// Extract the coordinate of the shot cell.
    pub fn into_coord(self) -> (coord: C)
        ensures
            coord == self.spec_coord(),
    {
        self.coord
    }
}

} // verus!
