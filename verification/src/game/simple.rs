//! Implementation of the basic game of battleship with two players and five
//! ships on a 10x10 grid.
use vstd::pervasive::unreached;
use vstd::prelude::*;

use crate::board::rectangular::{Coordinate, RectDimensions};
use crate::board::setup::SetupModel;
use crate::board::{self, lemma_index_of_unique, BoardSetup, Dimensions};
use crate::game::uniform::{self, GameModel, GameSetupModel, PlayerId};
use crate::ships::linear::{optional_view, LineProjectIterState};
use crate::ships::{Line, ProjectIter, ShapeProjection, ShipId, ShipShape};

use self::straight::{cell_at, fits, lemma_routes_are_lines, line_cells, line_option, plain};

pub mod straight;

verus! {

/// Alias to ShipRef with fixed generic types.
pub type ShipRef<'a> = board::ShipRef<'a, Ship, RectDimensions>;

/// Alias to CellRef with fixed generic types.
pub type CellRef<'a> = board::CellRef<'a, Ship, RectDimensions>;

/// Player ID for the simple game. Either `P1` or `P2`.
#[derive(Debug, Copy, Clone, Eq, PartialEq, Hash, Structural)]
pub enum Player {
    P1,
    P2,
}

impl Player {
    /// The opponent of this player.
    pub open spec fn spec_opponent(self) -> Self {
        match self {
            Player::P1 => Player::P2,
            Player::P2 => Player::P1,
        }
    }

    /// The place of the player in the turn order.
    pub open spec fn slot(self) -> int {
        match self {
            Player::P1 => 0,
            Player::P2 => 1,
        }
    }

    /// Get the opponent of this player.
    pub fn opponent(self) -> (other: Self)
        ensures
            other == self.spec_opponent(),
    {
        match self {
            Player::P1 => Player::P2,
            Player::P2 => Player::P1,
        }
    }

    /// Get the opponent of this player.
    pub fn oponent(self) -> (other: Self)
        ensures
            other == self.spec_opponent(),
    {
        self.opponent()
    }
}

impl PlayerId for Player {
    fn same(&self, other: &Self) -> (r: bool) {
        match (self, other) {
            (Player::P1, Player::P1) | (Player::P2, Player::P2) => true,
            _ => false,
        }
    }
}

/// Ship ID for the simple game.
#[derive(Debug, Copy, Clone, Eq, PartialEq, Hash, Structural)]
pub enum Ship {
    /// Carrier: length 5.
    Carrier,
    /// Battleship: length 4.
    Battleship,
    /// Cruiser: length 3.
    Cruiser,
    /// Submarine: length 3.
    Submarine,
    /// Destroyer: length 2.
    Destroyer,
}

impl Ship {
    /// The length of this ship type.
    pub open spec fn spec_len(self) -> nat {
        match self {
            Ship::Carrier => 5,
            Ship::Battleship => 4,
            Ship::Cruiser => 3,
            Ship::Submarine => 3,
            Ship::Destroyer => 2,
        }
    }

    /// The place of the ship among the ships of a player.
    pub open spec fn slot(self) -> int {
        match self {
            Ship::Carrier => 0,
            Ship::Battleship => 1,
            Ship::Cruiser => 2,
            Ship::Submarine => 3,
            Ship::Destroyer => 4,
        }
    }

    /// The ships of a player, in the order in which they are added.
    pub open spec fn all() -> Seq<Ship> {
        seq![Ship::Carrier, Ship::Battleship, Ship::Cruiser, Ship::Submarine, Ship::Destroyer]
    }

    /// Get the shape corresponding to this ship ID.
    pub fn get_shape(self) -> (shape: Line)
        ensures
            shape.spec_len() == self.spec_len(),
    {
        Line::new(self.len())
    }

    /// Get the length of this ship type.
    pub fn len(self) -> (len: usize)
        ensures
            len == self.spec_len(),
    {
        match self {
            Ship::Carrier => 5,
            Ship::Battleship => 4,
            Ship::Cruiser => 3,
            Ship::Submarine => 3,
            Ship::Destroyer => 2,
        }
    }
}

impl ShipId for Ship {
    fn same(&self, other: &Self) -> (r: bool) {
        match (self, other) {
            (Ship::Carrier, Ship::Carrier)
            | (Ship::Battleship, Ship::Battleship)
            | (Ship::Cruiser, Ship::Cruiser)
            | (Ship::Submarine, Ship::Submarine)
            | (Ship::Destroyer, Ship::Destroyer) => true,
            _ => false,
        }
    }
}

/// Reason why a ship could not be placed at a given position.
#[derive(Debug, Copy, Clone, Eq, PartialEq, Structural)]
pub enum CannotPlaceReason {
    /// The ship did not fit in the given direction.
    InsufficientSpace,
    /// The ship was already placed.
    AlreadyPlaced,
    /// The space selected overlaps a ship that was already placed.
    AlreadyOccupied,
}

impl CannotPlaceReason {
    /// What the reason says, for a reader.
    pub fn message(&self) -> (text: &'static str)
        ensures
            text@ == match self {
                CannotPlaceReason::InsufficientSpace => "insufficient space for the ship at the specified position"@,
                CannotPlaceReason::AlreadyPlaced => "specified ship was already placed"@,
                CannotPlaceReason::AlreadyOccupied => "the specified position was already occupied"@,
            },
    {
        match self {
            CannotPlaceReason::InsufficientSpace => "insufficient space for the ship at the specified position",
            CannotPlaceReason::AlreadyPlaced => "specified ship was already placed",
            CannotPlaceReason::AlreadyOccupied => "the specified position was already occupied",
        }
    }
}

/// Placement orientation of a ship.
#[derive(Debug, Copy, Clone, Eq, PartialEq, Structural)]
pub enum Orientation {
    /// Towards smaller `y`.
    Up,
    /// Towards larger `y`.
    Down,
    /// Towards smaller `x`.
    Left,
    /// Towards larger `x`.
    Right,
}

impl Orientation {
    /// Whether the second cell of the projection lies in this direction from
    /// the first. A projection of fewer than two cells points along every
    /// orientation.
    pub open spec fn spec_check_dir(self, proj: Seq<Coordinate>) -> bool {
        proj.len() < 2 || match self {
            Orientation::Up => proj[0].x == proj[1].x && proj[1].y < proj[0].y,
            Orientation::Down => proj[0].x == proj[1].x && proj[1].y > proj[0].y,
            Orientation::Left => proj[1].x < proj[0].x && proj[0].y == proj[1].y,
            Orientation::Right => proj[1].x > proj[0].x && proj[0].y == proj[1].y,
        }
    }

    /// Check if the given projection is pointed along this orientation.
    pub fn check_dir(self, proj: &ShapeProjection<Coordinate>) -> (r: bool)
        ensures
            r == self.spec_check_dir(proj@),
    {
        if proj.len() < 2 {
            // None of the current ships has length 1, but it is supported
            // here anyway.
            true
        } else {
            let first = proj[0];
            let second = proj[1];
            match self {
                Orientation::Up => first.x == second.x && second.y < first.y,
                Orientation::Down => first.x == second.x && second.y > first.y,
                Orientation::Left => second.x < first.x && first.y == second.y,
                Orientation::Right => second.x > first.x && first.y == second.y,
            }
        }
    }
}

/// The first of the projections that points along the orientation.
pub open spec fn first_along(projs: Seq<Seq<Coordinate>>, dir: Orientation) -> Option<
    Seq<Coordinate>,
>
    decreases projs.len(),
{
    if projs.len() == 0 {
        None
    } else if dir.spec_check_dir(projs[0]) {
        Some(projs[0])
    } else {
        first_along(projs.skip(1), dir)
    }
}

/// The first of the placements still to come that points along the
/// orientation.
fn select_placement(
    placements: ProjectIter<'_, RectDimensions, Line, LineProjectIterState<Coordinate>>,
    dir: Orientation,
) -> (r: Option<ShapeProjection<Coordinate>>)
    requires
        placements.wf(),
    ensures
        optional_view(r) == first_along(placements.remaining(), dir),
{
    let mut it = placements;
    loop
        invariant
            it.wf(),
            first_along(it.remaining(), dir) == first_along(placements.remaining(), dir),
        decreases it.remaining().len(),
    {
        match it.next() {
            Some(proj) => {
                if dir.check_dir(&proj) {
                    return Some(proj);
                }
            },
            None => {
                return None;
            },
        }
    }
}

/// Among an optional straight line and further placements, the first that
/// points along an orientation.
proof fn lemma_first_along_front(
    dim: &RectDimensions,
    start: Coordinate,
    way: Orientation,
    len: nat,
    rest: Seq<Seq<Coordinate>>,
    dir: Orientation,
)
    requires
        len >= 2,
        plain(dim),
    ensures
        first_along(line_option(dim, start, way, len) + rest, dir) == if way == dir && fits(
            dim,
            start,
            way,
            len,
        ) {
            Some(line_cells(start, way, len))
        } else {
            first_along(rest, dir)
        },
{
    dim.lemma_sides_fit();
    let option = line_option(dim, start, way, len);
    if fits(dim, start, way, len) {
        let line = line_cells(start, way, len);
        assert((option + rest).skip(1) =~= rest);
        assert((option + rest)[0] == line);
        assert(line[0] == cell_at(start, way, 0));
        assert(line[1] == cell_at(start, way, 1));
    } else {
        assert(option + rest =~= rest);
    }
}

/// On a board that does not wrap, the first placement of a line from a cell
/// that points along an orientation is the straight line in that direction,
/// if it lies on the board.
pub proof fn lemma_first_along_is_line(
    dim: &RectDimensions,
    start: Coordinate,
    len: nat,
    dir: Orientation,
)
    requires
        len >= 2,
        plain(dim),
    ensures
        first_along(Line::spec_project_from(len, start, dim), dir) == if fits(
            dim,
            start,
            dir,
            len,
        ) {
            Some(line_cells(start, dir, len))
        } else {
            None
        },
{
    if dim.in_bounds(start) {
        lemma_routes_are_lines(dim, start, len);
        let r = line_option(dim, start, Orientation::Right, len);
        let l = line_option(dim, start, Orientation::Left, len);
        let d = line_option(dim, start, Orientation::Down, len);
        let none = Seq::<Seq<Coordinate>>::empty();
        assert(r + none =~= r);
        lemma_first_along_front(dim, start, Orientation::Up, len, d + (l + r), dir);
        lemma_first_along_front(dim, start, Orientation::Down, len, l + r, dir);
        lemma_first_along_front(dim, start, Orientation::Left, len, r, dir);
        lemma_first_along_front(dim, start, Orientation::Right, len, none, dir);
    }
}

/// Whether the projection is a straight line of `len` cells on the board.
pub open spec fn is_line(dim: &RectDimensions, proj: Seq<Coordinate>, len: nat) -> bool {
    exists|start: Coordinate, dir: Orientation|
        fits(dim, start, dir, len) && proj == #[trigger] line_cells(start, dir, len)
}

/// Whether the dimensions are those of the simple game: ten by ten, without
/// wrapping.
pub open spec fn standard_dimensions(dim: &RectDimensions) -> bool {
    plain(dim) && dim.spec_width() == 10 && dim.spec_height() == 10
}

/// A board of the simple game in its setup phase: a valid board of the
/// standard dimensions with the five ships, each a line of its length, and
/// each placed, if at all, on a straight line of its length.
pub open spec fn standard_board(board: SetupModel<Ship, RectDimensions, Line>) -> bool {
    &&& board.wf()
    &&& standard_dimensions(&board.dim)
    &&& board.ids == Ship::all()
    &&& forall|k: int|
        0 <= k < 5 ==> (#[trigger] board.shapes[k]).spec_len() == Ship::all()[k].spec_len()
    &&& forall|k: int|
        0 <= k < 5 ==> (#[trigger] board.placements[k] matches Some(proj) ==> is_line(
            &board.dim,
            proj,
            Ship::all()[k].spec_len(),
        ))
}

/// A setup of the simple game: the two players in order, each with a board of
/// the simple game.
pub open spec fn standard_setup(setup: GameSetupModel<Player, Ship, RectDimensions, Line>) -> bool {
    &&& setup.wf()
    &&& setup.players == seq![Player::P1, Player::P2]
    &&& forall|k: int| 0 <= k < 2 ==> standard_board(#[trigger] setup.boards[k])
}

/// What the attempt to place a ship on a board, from `start` in the direction
/// `dir`, comes to.
pub open spec fn place_result(
    board: SetupModel<Ship, RectDimensions, Line>,
    ship: Ship,
    start: Coordinate,
    dir: Orientation,
) -> Result<(), CannotPlaceReason> {
    if !fits(&board.dim, start, dir, ship.spec_len()) {
        Err(CannotPlaceReason::InsufficientSpace)
    } else if board.placements[ship.slot()] is Some {
        Err(CannotPlaceReason::AlreadyPlaced)
    } else if board.any_occupied(line_cells(start, dir, ship.spec_len())) {
        Err(CannotPlaceReason::AlreadyOccupied)
    } else {
        Ok(())
    }
}

/// The setup in which the board of a player is replaced.
pub open spec fn with_board(
    setup: GameSetupModel<Player, Ship, RectDimensions, Line>,
    player: Player,
    board: SetupModel<Ship, RectDimensions, Line>,
) -> GameSetupModel<Player, Ship, RectDimensions, Line> {
    GameSetupModel { boards: setup.boards.update(player.slot(), board), ..setup }
}

/// Each player stands in the turn order at their place.
pub proof fn lemma_player_slot(player: Player)
    ensures
        seq![Player::P1, Player::P2].contains(player),
        seq![Player::P1, Player::P2].index_of(player) == player.slot(),
        0 <= player.slot() < 2,
        seq![Player::P1, Player::P2][player.slot()] == player,
{
    let players = seq![Player::P1, Player::P2];
    assert(players[0] == Player::P1);
    assert(players[1] == Player::P2);
    assert(players.no_duplicates());
    lemma_index_of_unique(players, player.slot());
}

/// Each ship stands among the ships of a player at its place.
pub proof fn lemma_ship_slot(ship: Ship)
    ensures
        Ship::all().contains(ship),
        Ship::all().index_of(ship) == ship.slot(),
        0 <= ship.slot() < 5,
        Ship::all()[ship.slot()] == ship,
        Ship::all().len() == 5,
        Ship::all().no_duplicates(),
{
    let ships = Ship::all();
    assert(ships[0] == Ship::Carrier);
    assert(ships[1] == Ship::Battleship);
    assert(ships[2] == Ship::Cruiser);
    assert(ships[3] == Ship::Submarine);
    assert(ships[4] == Ship::Destroyer);
    assert(ships.no_duplicates());
    lemma_index_of_unique(ships, ship.slot());
}

/// On a board of the simple game, the check of a straight line that lies on
/// the board fails only for a ship that is placed or a cell that is occupied.
pub proof fn lemma_check_of_line(
    board: SetupModel<Ship, RectDimensions, Line>,
    ship: Ship,
    start: Coordinate,
    dir: Orientation,
)
    requires
        standard_board(board),
        fits(&board.dim, start, dir, ship.spec_len()),
    ensures
        board.check_placement(ship.slot(), line_cells(start, dir, ship.spec_len())) == match place_result(
            board,
            ship,
            start,
            dir,
        ) {
            Ok(()) => Ok::<(), board::CannotPlaceReason>(()),
            Err(CannotPlaceReason::AlreadyPlaced) => Err(board::CannotPlaceReason::AlreadyPlaced),
            Err(_) => Err(board::CannotPlaceReason::AlreadyOccupied),
        },
        first_along(board.shapes[ship.slot()].spec_project(start, &board.dim), dir) == Some(
            line_cells(start, dir, ship.spec_len()),
        ),
{
    lemma_ship_slot(ship);
    let shape = board.shapes[ship.slot()];
    let len = ship.spec_len();
    assert(shape.spec_len() == len);
    assert(ShipShape::<RectDimensions>::wf(&shape));
    lemma_first_along_is_line(&board.dim, start, len, dir);
    lemma_first_along_member(shape.spec_project(start, &board.dim), dir);
    let k = choose|k: int|
        0 <= k < shape.spec_project(start, &board.dim).len() && shape.spec_project(
            start,
            &board.dim,
        )[k] == line_cells(start, dir, len);
    shape.lemma_projections_are_valid(start, &board.dim, k);
}

/// The first projection that points along an orientation is one of the
/// projections, and it points along the orientation.
pub proof fn lemma_first_along_member(projs: Seq<Seq<Coordinate>>, dir: Orientation)
    ensures
        first_along(projs, dir) matches Some(proj) ==> dir.spec_check_dir(proj) && exists|k: int|
            0 <= k < projs.len() && projs[k] == proj,
    decreases projs.len(),
{
    if projs.len() > 0 && !dir.spec_check_dir(projs[0]) {
        lemma_first_along_member(projs.skip(1), dir);
        if let Some(proj) = first_along(projs.skip(1), dir) {
            let k = choose|k: int| 0 <= k < projs.skip(1).len() && projs.skip(1)[k] == proj;
            assert(projs[k + 1] == proj);
        }
    }
}

/// Placing a ship on a straight line where the check allows it keeps a board
/// of the simple game one.
pub proof fn lemma_place_keeps_standard(
    board: SetupModel<Ship, RectDimensions, Line>,
    ship: Ship,
    start: Coordinate,
    dir: Orientation,
)
    requires
        standard_board(board),
        place_result(board, ship, start, dir) is Ok,
    ensures
        standard_board(board.place(ship.slot(), line_cells(start, dir, ship.spec_len()))),
{
    lemma_ship_slot(ship);
    lemma_check_of_line(board, ship, start, dir);
    let line = line_cells(start, dir, ship.spec_len());
    board.lemma_place_keeps_wf(ship.slot(), line);
    let after = board.place(ship.slot(), line);
    assert forall|k: int| 0 <= k < 5 implies (#[trigger] after.placements[k] matches Some(proj)
        ==> is_line(&after.dim, proj, Ship::all()[k].spec_len())) by {
        if k != ship.slot() {
            assert(after.placements[k] == board.placements[k]);
        }
    }
}

/// Clearing the placement of a ship keeps a board of the simple game one.
pub proof fn lemma_unplace_keeps_standard(board: SetupModel<Ship, RectDimensions, Line>, ship: Ship)
    requires
        standard_board(board),
    ensures
        standard_board(board.unplace(ship.slot())),
{
    lemma_ship_slot(ship);
    board.lemma_unplace_keeps_wf(ship.slot());
    let after = board.unplace(ship.slot());
    assert forall|k: int| 0 <= k < 5 implies (#[trigger] after.placements[k] matches Some(proj)
        ==> is_line(&after.dim, proj, Ship::all()[k].spec_len())) by {
        if k != ship.slot() {
            assert(after.placements[k] == board.placements[k]);
        }
    }
}

/// Represents a placement of a ship. Allows extracting the orientation and
/// start, as well as reading the coordinates.
pub struct Placement<'a> {
    coords: &'a ShapeProjection<Coordinate>,
}

impl<'a> View for Placement<'a> {
    type V = Seq<Coordinate>;

    closed spec fn view(&self) -> Seq<Coordinate> {
        self.coords@
    }
}

impl<'a> Placement<'a> {
    /// The direction in which the second cell lies from the first; up for a
    /// placement of fewer than two cells.
    pub open spec fn spec_orientation(&self) -> Orientation {
        if self@.len() < 2 || self@[1].y < self@[0].y {
            Orientation::Up
        } else if self@[1].y > self@[0].y {
            Orientation::Down
        } else if self@[1].x < self@[0].x {
            Orientation::Left
        } else {
            Orientation::Right
        }
    }

    /// The placement is the straight line of its cells from its first cell
    /// along its orientation.
    pub open spec fn wf(&self) -> bool {
        self@.len() >= 1 && self@ == line_cells(self@[0], self.spec_orientation(), self@.len())
    }

    /// The direction in which the placement runs from its start.
    pub fn orientation(&self) -> (dir: Orientation)
        requires
            self.wf(),
        ensures
            dir == self.spec_orientation(),
    {
        if self.coords.len() < 2 {
            // None of the current ships has fewer than two cells, but this is
            // handled anyway.
            Orientation::Up
        } else {
            let first = self.coords[0];
            let second = self.coords[1];
            if second.y < first.y {
                Orientation::Up
            } else if second.y > first.y {
                Orientation::Down
            } else if second.x < first.x {
                Orientation::Left
            } else {
                Orientation::Right
            }
        }
    }

    /// Get the coordinate where this placement starts.
    pub fn start(&self) -> (start: &Coordinate)
        requires
            self.wf(),
        ensures
            *start == self@[0],
    {
        &self.coords[0]
    }

    /// The coordinates of the placement, from its start on.
    pub fn coords(&self) -> (coords: &'a ShapeProjection<Coordinate>)
        ensures
            coords@ == self@,
    {
        self.coords
    }
}

/// A straight line on a board that does not wrap is the line from its first
/// cell along the direction in which its second cell lies.
pub proof fn lemma_line_orientation(
    dim: &RectDimensions,
    start: Coordinate,
    dir: Orientation,
    len: nat,
)
    requires
        dim.wf(),
        len >= 2,
        fits(dim, start, dir, len),
    ensures
        line_cells(start, dir, len)[0] == start,
        dir.spec_check_dir(line_cells(start, dir, len)),
        line_cells(start, dir, len)[1].y < start.y <==> dir == Orientation::Up,
        line_cells(start, dir, len)[1].y > start.y <==> dir == Orientation::Down,
        line_cells(start, dir, len)[1].x < start.x <==> dir == Orientation::Left,
        line_cells(start, dir, len)[1].x > start.x <==> dir == Orientation::Right,
{
    dim.lemma_sides_fit();
    assert(line_cells(start, dir, len)[0] == cell_at(start, dir, 0));
    assert(line_cells(start, dir, len)[1] == cell_at(start, dir, 1));
}

/// Struct used to setup the simple game.
pub struct GameSetup(uniform::GameSetup<Player, Ship, RectDimensions, Line>);

impl View for GameSetup {
    type V = GameSetupModel<Player, Ship, RectDimensions, Line>;

    closed spec fn view(&self) -> GameSetupModel<Player, Ship, RectDimensions, Line> {
        self.0@
    }
}

impl GameSetup {
    /// Validity of the setup: it is one of the simple game.
    pub open spec fn wf(&self) -> bool {
        standard_setup(self@)
    }

    /// Create a [`GameSetup`] for the game, including two players with one of
    /// each ship. No ship is placed.
    pub fn new() -> (setup: Self)
        ensures
            setup.wf(),
            forall|k: int, n: int|
                0 <= k < 2 && 0 <= n < 5 ==> (#[trigger] setup@.boards[k].placements[n]) is None,
            forall|k: int, i: int|
                0 <= k < 2 && 0 <= i < 100 ==> (#[trigger] setup@.boards[k].cells[i]).ship is None,
    {
        let mut setup = uniform::GameSetup::new();
        Self::add_ships(setup.add_player(Player::P1, RectDimensions::new(10, 10)).unwrap());
        Self::add_ships(setup.add_player(Player::P2, RectDimensions::new(10, 10)).unwrap());
        assert(setup@.players =~= seq![Player::P1, Player::P2]);
        GameSetup(setup)
    }

    /// Add the initial ships for the player.
    fn add_ships(board: &mut BoardSetup<Ship, RectDimensions, Line>)
        requires
            old(board).wf(),
            old(board)@.ids.len() == 0,
            standard_dimensions(&old(board)@.dim),
            forall|i: int| 0 <= i < old(board)@.cells.len() ==> (#[trigger] old(board)@.cells[i]).ship is None,
        ensures
            standard_board(final(board)@),
            forall|n: int| 0 <= n < 5 ==> (#[trigger] final(board)@.placements[n]) is None,
            final(board)@.cells == old(board)@.cells,
    {
        Self::add_ship(Ship::Carrier, board);
        Self::add_ship(Ship::Battleship, board);
        Self::add_ship(Ship::Cruiser, board);
        Self::add_ship(Ship::Submarine, board);
        Self::add_ship(Ship::Destroyer, board);
        assert(board@.ids =~= Ship::all());
    }

    /// Add the given ship to the board.
    fn add_ship(ship: Ship, board: &mut BoardSetup<Ship, RectDimensions, Line>)
        requires
            old(board).wf(),
            !old(board)@.ids.contains(ship),
        ensures
            final(board).wf(),
            final(board)@ == old(board)@.add_ship(ship, final(board)@.shapes.last()),
            final(board)@.shapes.last().spec_len() == ship.spec_len(),
    {
        board.add_ship(ship, ship.get_shape()).unwrap();
    }

    /// Return true if both players are ready to start the game.
    pub fn ready(&self) -> (r: bool)
        requires
            self.wf(),
        ensures
            r == self@.ready(),
    {
        self.0.ready()
    }

    /// Check if the specified player is ready.
    pub fn is_player_ready(&self, player: Player) -> (r: bool)
        requires
            self.wf(),
        ensures
            r == self@.boards[player.slot()].ready(),
    {
        proof {
            lemma_player_slot(player);
        }
        self.0.get_board(&player).unwrap().ready()
    }

    /// Check if the given placement would be valid, without attempting to
    /// actually place the ship.
    pub fn check_placement(&self, player: Player, ship: Ship, start: Coordinate, dir: Orientation) -> (r:
        Result<(), CannotPlaceReason>)
        requires
            self.wf(),
        ensures
            r == place_result(self@.boards[player.slot()], ship, start, dir),
    {
        proof {
            lemma_player_slot(player);
            lemma_ship_slot(ship);
        }
        let board = self.0.get_board(&player).unwrap();
        let entry = board.get_ship(ship).unwrap();
        proof {
            lemma_index_of_unique(board@.ids, entry.slot());
            let model = self@.boards[player.slot()];
            assert(standard_board(model));
            assert(model.shapes[ship.slot()].spec_len() == ship.spec_len());
            lemma_first_along_is_line(&model.dim, start, ship.spec_len(), dir);
            if fits(&model.dim, start, dir, ship.spec_len()) {
                lemma_check_of_line(model, ship, start, dir);
            }
        }
        let proj = match select_placement(entry.get_placements(start), dir) {
            Some(proj) => proj,
            None => {
                return Err(CannotPlaceReason::InsufficientSpace);
            },
        };
        match entry.check_placement(&proj) {
            Ok(()) => Ok(()),
            Err(board::CannotPlaceReason::AlreadyOccupied) => Err(
                CannotPlaceReason::AlreadyOccupied,
            ),
            Err(board::CannotPlaceReason::AlreadyPlaced) => Err(CannotPlaceReason::AlreadyPlaced),
            // A projection that the shape handed out is never invalid.
            Err(board::CannotPlaceReason::InvalidProjection) => unreached(),
        }
    }

    /// Tries to start the game. If all players are ready, returns a [`Game`],
    /// otherwise returns self.
    pub fn start(self) -> (r: Result<Game, Self>)
        requires
            self.wf(),
        ensures
            match r {
                Ok(game) => self@.ready() && game.wf() && game@ == self@.started(),
                Err(setup) => !self@.ready() && setup == self,
            },
    {
        let ghost model = self@;
        match self.0.start() {
            Ok(game) => {
                proof {
                    lemma_started_is_standard(model);
                }
                Ok(Game(game))
            },
            Err(setup) => Err(GameSetup(setup)),
        }
    }

    /// Get all the ship IDs for the given player, in the order in which the
    /// ships were added, each with the coordinates where that ship is placed,
    /// if any.
    pub fn get_ships(&self, player: Player) -> (ships: Vec<(Ship, Option<Placement<'_>>)>)
        requires
            self.wf(),
        ensures
            ships.len() == 5,
            forall|k: int|
                0 <= k < 5 ==> (#[trigger] ships[k]).0 == Ship::all()[k] && match ships[k].1 {
                    Some(placement) => self@.boards[player.slot()].placements[k] == Some(
                        placement@,
                    ) && placement.wf(),
                    None => self@.boards[player.slot()].placements[k] is None,
                },
    {
        proof {
            lemma_player_slot(player);
            lemma_ship_slot(Ship::Carrier);
        }
        let ghost model = self@.boards[player.slot()];
        let mut ships: Vec<(Ship, Option<Placement<'_>>)> = Vec::new();
        let board = self.0.get_board(&player).unwrap();
        let entries = board.iter_ships();
        let mut k: usize = 0;
        while k < entries.len()
            invariant
                standard_board(model),
                entries.len() == 5,
                k <= entries.len(),
                ships.len() == k,
                forall|j: int|
                    0 <= j < entries.len() ==> (#[trigger] entries[j]).wf() && entries[j].setup()
                        == model && entries[j].slot() == j,
                forall|j: int|
                    0 <= j < k ==> (#[trigger] ships[j]).0 == Ship::all()[j] && match ships[j].1 {
                        Some(placement) => model.placements[j] == Some(placement@)
                            && placement.wf(),
                        None => model.placements[j] is None,
                    },
            decreases entries.len() - k,
        {
            let entry = &entries[k];
            let placement = match entry.placement() {
                Some(coords) => {
                    proof {
                        lemma_stored_line(model, k as int);
                    }
                    Some(Placement { coords })
                },
                None => None,
            };
            ships.push((*entry.id(), placement));
            k += 1;
        }
        ships
    }

    /// Get the ships for the specified player which still need to be placed.
    pub fn get_pending_ships(&self, player: Player) -> (ships: Vec<Ship>)
        requires
            self.wf(),
        ensures
            ships@ == self@.boards[player.slot()].pending(),
    {
        proof {
            lemma_player_slot(player);
        }
        self.0.get_board(&player).unwrap().pending_ships()
    }

    /// Get the coordinates where the given ship is placed, if any.
    pub fn get_placement(&self, player: Player, ship: Ship) -> (r: Option<Placement<'_>>)
        requires
            self.wf(),
        ensures
            match r {
                Some(placement) => self@.boards[player.slot()].placements[ship.slot()] == Some(
                    placement@,
                ) && placement.wf(),
                None => self@.boards[player.slot()].placements[ship.slot()] is None,
            },
    {
        proof {
            lemma_player_slot(player);
            lemma_ship_slot(ship);
        }
        let board = self.0.get_board(&player).unwrap();
        let entry = board.get_ship(ship).unwrap();
        proof {
            lemma_index_of_unique(board@.ids, entry.slot());
        }
        match entry.placement() {
            Some(coords) => {
                proof {
                    lemma_stored_line(self@.boards[player.slot()], ship.slot());
                }
                Some(Placement { coords })
            },
            None => None,
        }
    }

    /// Try to place the specified ship at the specified position, returning
    /// an error if placement is not possible. The ship then lies on the
    /// straight line of its length that runs from `start` in the direction
    /// `dir`.
    pub fn place_ship(&mut self, player: Player, ship: Ship, start: Coordinate, dir: Orientation) -> (r:
        Result<(), CannotPlaceReason>)
        requires
            old(self).wf(),
        ensures
            final(self).wf(),
            r == place_result(old(self)@.boards[player.slot()], ship, start, dir),
            final(self)@ == if r is Ok {
                with_board(
                    old(self)@,
                    player,
                    old(self)@.boards[player.slot()].place(
                        ship.slot(),
                        line_cells(start, dir, ship.spec_len()),
                    ),
                )
            } else {
                old(self)@
            },
    {
        let ghost before = self@;
        let ghost model = before.boards[player.slot()];
        proof {
            lemma_player_slot(player);
            lemma_ship_slot(ship);
            assert(standard_board(model));
            assert(model.shapes[ship.slot()].spec_len() == ship.spec_len());
            lemma_first_along_is_line(&model.dim, start, ship.spec_len(), dir);
            if fits(&model.dim, start, dir, ship.spec_len()) {
                lemma_check_of_line(model, ship, start, dir);
                if place_result(model, ship, start, dir) is Ok {
                    lemma_place_keeps_standard(model, ship, start, dir);
                }
            }
            assert(before.boards.update(player.slot(), model) =~= before.boards);
        }
        let board = self.0.get_board_mut(&player).unwrap();
        let mut entry = board.get_ship_mut(ship).unwrap();
        proof {
            lemma_index_of_unique(model.ids, entry.slot());
        }
        let proj = match select_placement(entry.get_placements(start), dir) {
            Some(proj) => proj,
            None => {
                return Err(CannotPlaceReason::InsufficientSpace);
            },
        };
        match entry.place(proj) {
            Ok(()) => Ok(()),
            Err(err) => Err(
                match err.reason() {
                    board::CannotPlaceReason::AlreadyOccupied => CannotPlaceReason::AlreadyOccupied,
                    board::CannotPlaceReason::AlreadyPlaced => CannotPlaceReason::AlreadyPlaced,
                    // A projection that the shape handed out is never invalid.
                    board::CannotPlaceReason::InvalidProjection => unreached(),
                },
            ),
        }
    }

    /// Clear the placement of the specified ship. Return true if the ship was
    /// previously placed.
    pub fn unplace_ship(&mut self, player: Player, ship: Ship) -> (r: bool)
        requires
            old(self).wf(),
        ensures
            final(self).wf(),
            r == old(self)@.boards[player.slot()].placements[ship.slot()] is Some,
            final(self)@ == with_board(
                old(self)@,
                player,
                old(self)@.boards[player.slot()].unplace(ship.slot()),
            ),
    {
        let ghost before = self@;
        let ghost model = before.boards[player.slot()];
        proof {
            lemma_player_slot(player);
            lemma_ship_slot(ship);
            lemma_unplace_keeps_standard(model, ship);
            assert(before.boards.update(player.slot(), model) =~= before.boards);
        }
        let board = self.0.get_board_mut(&player).unwrap();
        let mut entry = board.get_ship_mut(ship).unwrap();
        proof {
            lemma_index_of_unique(model.ids, entry.slot());
        }
        entry.unplace().is_some()
    }

    /// Get the rows of the specified player's board, from the first row on.
    /// Each row holds, from left to right, the ship in each cell, if any.
    pub fn iter_board(&self, player: Player) -> (rows: Vec<Vec<Option<Ship>>>)
        requires
            self.wf(),
        ensures
            rows.len() == 10,
            forall|y: int| 0 <= y < 10 ==> (#[trigger] rows[y]).len() == 10,
            forall|y: int, x: int|
                0 <= y < 10 && 0 <= x < 10 ==> holds_ship(
                    self@.boards[player.slot()],
                    Coordinate { x: x as usize, y: y as usize },
                    #[trigger] rows[y][x],
                ),
    {
        proof {
            lemma_player_slot(player);
        }
        let ghost model = self@.boards[player.slot()];
        let mut rows: Vec<Vec<Option<Ship>>> = Vec::new();
        let board = self.0.get_board(&player).unwrap();
        let coordinates = board.dimensions().iter_coordinates();
        let mut y: usize = 0;
        while y < coordinates.len()
            invariant
                board.wf(),
                board@ == model,
                standard_board(model),
                coordinates.len() == 10,
                forall|j: int| 0 <= j < 10 ==> (#[trigger] coordinates[j]).len() == 10,
                forall|j: int, i: int|
                    0 <= j < 10 && 0 <= i < 10 ==> #[trigger] coordinates[j][i] == (Coordinate {
                        x: i as usize,
                        y: j as usize,
                    }),
                y <= 10,
                rows.len() == y,
                forall|j: int| 0 <= j < y ==> (#[trigger] rows[j]).len() == 10,
                forall|j: int, i: int|
                    0 <= j < y && 0 <= i < 10 ==> holds_ship(
                        model,
                        Coordinate { x: i as usize, y: j as usize },
                        #[trigger] rows[j][i],
                    ),
            decreases coordinates.len() - y,
        {
            let mut row: Vec<Option<Ship>> = Vec::new();
            let mut x: usize = 0;
            while x < coordinates[y].len()
                invariant
                    board.wf(),
                    board@ == model,
                    standard_board(model),
                    y < 10,
                    coordinates.len() == 10,
                    coordinates[y as int].len() == 10,
                    forall|i: int|
                        0 <= i < 10 ==> #[trigger] coordinates[y as int][i] == (Coordinate {
                            x: i as usize,
                            y,
                        }),
                    x <= 10,
                    row.len() == x,
                    forall|i: int|
                        0 <= i < x ==> holds_ship(
                            model,
                            Coordinate { x: i as usize, y },
                            #[trigger] row[i],
                        ),
                decreases coordinates[y as int].len() - x,
            {
                row.push(*board.get_coord(&coordinates[y][x]).unwrap());
                x += 1;
            }
            rows.push(row);
            y += 1;
        }
        rows
    }
}

/// Whether the coordinate is a cell of the board that holds the given ship,
/// or none.
pub open spec fn holds_ship(
    board: SetupModel<Ship, RectDimensions, Line>,
    coord: Coordinate,
    ship: Option<Ship>,
) -> bool {
    board.cell(coord) matches Some(cell) && cell.ship == ship
}

/// A placement that is stored on a board of the simple game is the straight
/// line from its first cell along the direction of its second cell.
pub proof fn lemma_stored_line(board: SetupModel<Ship, RectDimensions, Line>, k: int)
    requires
        standard_board(board),
        0 <= k < 5,
        board.placements[k] is Some,
    ensures
        ({
            let proj = board.placements[k].unwrap();
            &&& proj.len() >= 2
            &&& exists|dir: Orientation|
                proj == line_cells(proj[0], dir, proj.len()) && fits(
                    &board.dim,
                    proj[0],
                    dir,
                    proj.len(),
                ) && dir.spec_check_dir(proj) && (proj[1].y < proj[0].y <==> dir == Orientation::Up)
                    && (proj[1].y > proj[0].y <==> dir == Orientation::Down) && (proj[1].x
                    < proj[0].x <==> dir == Orientation::Left)
        }),
{
    let proj = board.placements[k].unwrap();
    let len = Ship::all()[k].spec_len();
    assert(is_line(&board.dim, proj, len));
    let (start, dir) = choose|start: Coordinate, dir: Orientation|
        fits(&board.dim, start, dir, len) && proj == #[trigger] line_cells(start, dir, len);
    lemma_line_orientation(&board.dim, start, dir, len);
}

/// Reason why a shot at the board failed.
#[derive(Debug, Copy, Clone, Eq, PartialEq, Structural)]
pub enum CannotShootReason {
    /// The game is already over.
    AlreadyOver,
    /// The target player is the player whose turn it is.
    OutOfTurn,
    /// The specified cell is out of bounds for the grid.
    OutOfBounds,
    /// The specified cell has already been shot.
    AlreadyShot,
}

impl CannotShootReason {
    /// What the reason says, for a reader.
    pub fn message(&self) -> (text: &'static str)
        ensures
            text@ == match self {
                CannotShootReason::AlreadyOver => "the game is already over"@,
                CannotShootReason::OutOfTurn => "player attempted to shoot out of turn"@,
                CannotShootReason::OutOfBounds => "the target coordinate is out of bounds"@,
                CannotShootReason::AlreadyShot => "the target cell was already shot"@,
            },
    {
        match self {
            CannotShootReason::AlreadyOver => "the game is already over",
            CannotShootReason::OutOfTurn => "player attempted to shoot out of turn",
            CannotShootReason::OutOfBounds => "the target coordinate is out of bounds",
            CannotShootReason::AlreadyShot => "the target cell was already shot",
        }
    }
}

/// Outcome of a successfully-fired shot.
#[derive(Debug, Copy, Clone, Eq, PartialEq, Structural)]
pub enum ShotOutcome {
    /// Nothing was hit.
    Miss,
    /// The given ship was hit but it was not sunk.
    Hit(Ship),
    /// The given ship was hit and it was sunk but the player still had other
    /// ships.
    Sunk(Ship),
    /// The given ship was hit and sunk, and the target player has no
    /// remaining ships.
    Victory(Ship),
}

/// A game of the simple game: the two players in order, each with a valid
/// board of the standard dimensions that holds the five ships, and not both
/// defeated.
pub open spec fn standard_game(game: GameModel<Player, Ship, RectDimensions>) -> bool {
    &&& game.wf()
    &&& game.players == seq![Player::P1, Player::P2]
    &&& forall|k: int|
        0 <= k < 2 ==> standard_dimensions(&(#[trigger] game.boards[k]).dim) && game.boards[k].ids
            == Ship::all()
    &&& !(game.boards[0].defeated() && game.boards[1].defeated())
}

/// What a shot at the target comes to in the simple game: why it is refused,
/// or what it does to the ships of the target.
pub open spec fn shot_result(
    game: GameModel<Player, Ship, RectDimensions>,
    target: Player,
    coord: Coordinate,
) -> Result<ShotOutcome, CannotShootReason> {
    let board = game.boards[target.slot()];
    if game.winner() is Some {
        Err(CannotShootReason::AlreadyOver)
    } else if target == game.current_player() {
        Err(CannotShootReason::OutOfTurn)
    } else {
        match board.cell(coord) {
            None => Err(CannotShootReason::OutOfBounds),
            Some(cell) => if cell.hit {
                Err(CannotShootReason::AlreadyShot)
            } else {
                let after = board.with_hit(board.dim.spec_try_linearize(coord).unwrap() as int);
                match cell.ship {
                    None => Ok(ShotOutcome::Miss),
                    Some(ship) => if after.defeated() {
                        Ok(ShotOutcome::Victory(ship))
                    } else if after.sunk(ship.slot()) {
                        Ok(ShotOutcome::Sunk(ship))
                    } else {
                        Ok(ShotOutcome::Hit(ship))
                    },
                }
            },
        }
    }
}

/// The game that starts from a setup of the simple game that is ready is a
/// game of the simple game.
pub proof fn lemma_started_is_standard(setup: GameSetupModel<Player, Ship, RectDimensions, Line>)
    requires
        standard_setup(setup),
        setup.ready(),
    ensures
        standard_game(setup.started()),
{
    setup.lemma_started_is_wf();
    let game = setup.started();
    assert forall|k: int| 0 <= k < 2 implies !(#[trigger] game.boards[k]).defeated() by {
        assert(standard_board(setup.boards[k]));
        assert(setup.boards[k].ready());
        setup.boards[k].lemma_started_is_undefeated();
    }
}

/// While a game of two players has no winner and not both are defeated,
/// neither is defeated.
pub proof fn lemma_no_winner_yet(game: GameModel<Player, Ship, RectDimensions>)
    requires
        standard_game(game),
        game.winner() is None,
    ensures
        !game.boards[0].defeated(),
        !game.boards[1].defeated(),
{
    if game.boards[0].defeated() {
        assert(game.sole_survivor(1));
        game.lemma_winner_is_sole_survivor(1);
    }
    if game.boards[1].defeated() {
        assert(game.sole_survivor(0));
        game.lemma_winner_is_sole_survivor(0);
    }
}

/// In the simple game a shot comes to what the game of many players makes of
/// it, where the defeat of the target is the victory of the other player; and
/// the game stays a game of the simple game.
pub proof fn lemma_shot_in_simple_game(
    game: GameModel<Player, Ship, RectDimensions>,
    target: Player,
    coord: Coordinate,
)
    requires
        standard_game(game),
    ensures
        standard_game(game.after_shot(target, coord)),
        match game.shot_result(target, coord) {
            Ok(uniform::ShotOutcome::Miss) => shot_result(game, target, coord) == Ok::<
                ShotOutcome,
                CannotShootReason,
            >(ShotOutcome::Miss),
            Ok(uniform::ShotOutcome::Hit(ship)) => shot_result(game, target, coord) == Ok::<
                ShotOutcome,
                CannotShootReason,
            >(ShotOutcome::Hit(ship)),
            Ok(uniform::ShotOutcome::Sunk(ship)) => shot_result(game, target, coord) == Ok::<
                ShotOutcome,
                CannotShootReason,
            >(ShotOutcome::Sunk(ship)),
            Ok(uniform::ShotOutcome::Victory(ship)) => shot_result(game, target, coord) == Ok::<
                ShotOutcome,
                CannotShootReason,
            >(ShotOutcome::Victory(ship)),
            Ok(uniform::ShotOutcome::Defeated(_)) => false,
            Err(uniform::CannotShootReason::AlreadyOver) => shot_result(game, target, coord)
                == Err::<ShotOutcome, CannotShootReason>(CannotShootReason::AlreadyOver),
            Err(uniform::CannotShootReason::SelfShot) => shot_result(game, target, coord) == Err::<
                ShotOutcome,
                CannotShootReason,
            >(CannotShootReason::OutOfTurn),
            Err(uniform::CannotShootReason::OutOfBounds) => shot_result(game, target, coord)
                == Err::<ShotOutcome, CannotShootReason>(CannotShootReason::OutOfBounds),
            Err(uniform::CannotShootReason::AlreadyShot) => shot_result(game, target, coord)
                == Err::<ShotOutcome, CannotShootReason>(CannotShootReason::AlreadyShot),
            Err(uniform::CannotShootReason::UnknownPlayer) => false,
            Err(uniform::CannotShootReason::AlreadyDefeated) => false,
        },
{
    lemma_player_slot(target);
    game.lemma_after_shot_keeps_wf(target, coord);
    let after = game.after_shot(target, coord);
    if game.winner() is None {
        lemma_no_winner_yet(game);
        if target != game.current_player() {
            let k = target.slot();
            let other = 1 - k;
            let board = game.boards[k];
            assert(board.wf());
            assert(after.boards[other] == game.boards[other]);
            assert(after.boards[k] == board.after_shot(coord));
            if let Some(idx) = board.dim.spec_try_linearize(coord) {
                board.dim.lemma_linearize_round_trip(coord);
                if let Some(ship) = board.cells[idx as int].ship {
                    lemma_ship_slot(ship);
                    if board.with_hit(idx as int).defeated() && !board.cells[idx as int].hit {
                        assert(after.sole_survivor(other));
                        after.lemma_winner_is_sole_survivor(other);
                    }
                }
            }
        }
    }
}

/// Simplified game that uses a fixed set of ships and players.
pub struct Game(uniform::Game<Player, Ship, RectDimensions>);

impl View for Game {
    type V = GameModel<Player, Ship, RectDimensions>;

    closed spec fn view(&self) -> GameModel<Player, Ship, RectDimensions> {
        self.0@
    }
}

impl Game {
    /// Validity of the game: it is one of the simple game.
    pub open spec fn wf(&self) -> bool {
        standard_game(self@)
    }

    /// Get the player whose turn it currently is.
    pub fn current(&self) -> (player: Player)
        requires
            self.wf(),
        ensures
            player == self@.current_player(),
    {
        *self.0.current()
    }

    /// Get the status of the game. Returns `None` if the game is in progress,
    /// otherwise returns the winner.
    pub fn winner(&self) -> (r: Option<Player>)
        requires
            self.wf(),
        ensures
            r == self@.winner(),
    {
        match self.0.winner() {
            Some(player) => Some(*player),
            None => None,
        }
    }

    /// Get the rows of the specified player's board, from the first row on.
    /// Each row holds, from left to right, the references to its cells.
    pub fn iter_board(&self, player: Player) -> (rows: Vec<Vec<CellRef<'_>>>)
        requires
            self.wf(),
        ensures
            rows.len() == 10,
            forall|y: int| 0 <= y < 10 ==> (#[trigger] rows[y]).len() == 10,
            forall|y: int, x: int|
                0 <= y < 10 && 0 <= x < 10 ==> (#[trigger] rows[y][x]).describes(
                    self@.boards[player.slot()],
                    Coordinate { x: x as usize, y: y as usize },
                ),
    {
        proof {
            lemma_player_slot(player);
        }
        let ghost model = self@.boards[player.slot()];
        let mut rows: Vec<Vec<CellRef<'_>>> = Vec::new();
        let board = self.0.get_board(&player).unwrap();
        let coordinates = board.dimensions().iter_coordinates();
        let mut y: usize = 0;
        while y < coordinates.len()
            invariant
                board.wf(),
                board@ == model,
                standard_dimensions(&model.dim),
                coordinates.len() == 10,
                forall|j: int| 0 <= j < 10 ==> (#[trigger] coordinates[j]).len() == 10,
                forall|j: int, i: int|
                    0 <= j < 10 && 0 <= i < 10 ==> #[trigger] coordinates[j][i] == (Coordinate {
                        x: i as usize,
                        y: j as usize,
                    }),
                y <= 10,
                rows.len() == y,
                forall|j: int| 0 <= j < y ==> (#[trigger] rows[j]).len() == 10,
                forall|j: int, i: int|
                    0 <= j < y && 0 <= i < 10 ==> (#[trigger] rows[j][i]).describes(
                        model,
                        Coordinate { x: i as usize, y: j as usize },
                    ),
            decreases coordinates.len() - y,
        {
            let mut row: Vec<CellRef<'_>> = Vec::new();
            let mut x: usize = 0;
            while x < coordinates[y].len()
                invariant
                    board.wf(),
                    board@ == model,
                    standard_dimensions(&model.dim),
                    y < 10,
                    coordinates.len() == 10,
                    coordinates[y as int].len() == 10,
                    forall|i: int|
                        0 <= i < 10 ==> #[trigger] coordinates[y as int][i] == (Coordinate {
                            x: i as usize,
                            y,
                        }),
                    x <= 10,
                    row.len() == x,
                    forall|i: int|
                        0 <= i < x ==> (#[trigger] row[i]).describes(
                            model,
                            Coordinate { x: i as usize, y },
                        ),
                decreases coordinates[y as int].len() - x,
            {
                row.push(board.get_coord(coordinates[y][x]).unwrap());
                x += 1;
            }
            rows.push(row);
            y += 1;
        }
        rows
    }

    /// Get the handles of the specified player's ships, in the order in which
    /// the ships were added.
    pub fn iter_ships(&self, player: Player) -> (ships: Vec<ShipRef<'_>>)
        requires
            self.wf(),
        ensures
            ships.len() == 5,
            forall|k: int|
                0 <= k < 5 ==> (#[trigger] ships[k]).wf() && ships[k].board()
                    == self@.boards[player.slot()] && ships[k].slot() == k,
    {
        proof {
            lemma_player_slot(player);
            lemma_ship_slot(Ship::Carrier);
        }
        self.0.get_board(&player).unwrap().iter_ships()
    }

    /// Get a reference to the cell with the specified coordinate in the
    /// specified player's board. Return None if the coord is out of bounds.
    pub fn get_coord(&self, player: Player, coord: Coordinate) -> (r: Option<CellRef<'_>>)
        requires
            self.wf(),
        ensures
            match r {
                Some(cell) => cell.describes(self@.boards[player.slot()], coord),
                None => self@.boards[player.slot()].cell(coord) is None,
            },
    {
        proof {
            lemma_player_slot(player);
        }
        self.0.get_board(&player).unwrap().get_coord(coord)
    }

    /// Get a reference to the specified ship from the specified player's
    /// board.
    pub fn get_ship(&self, player: Player, ship: Ship) -> (handle: ShipRef<'_>)
        requires
            self.wf(),
        ensures
            handle.wf(),
            handle.board() == self@.boards[player.slot()],
            handle.spec_id() == ship,
            handle.slot() == ship.slot(),
    {
        proof {
            lemma_player_slot(player);
            lemma_ship_slot(ship);
        }
        let board = self.0.get_board(&player).unwrap();
        let handle = board.get_ship(&ship).unwrap();
        proof {
            lemma_index_of_unique(board@.ids, handle.slot());
        }
        handle
    }

    /// Fire at the specified player on the specified coordinate. The turn
    /// does not pass on.
    pub fn shoot(&mut self, target: Player, coord: Coordinate) -> (r: Result<
        ShotOutcome,
        CannotShootReason,
    >)
        requires
            old(self).wf(),
        ensures
            final(self).wf(),
            r == shot_result(old(self)@, target, coord),
            final(self)@ == old(self)@.after_shot(target, coord),
    {
        proof {
            lemma_shot_in_simple_game(self@, target, coord);
        }
        match self.0.shoot(target, coord) {
            Ok(outcome) => Ok(
                match outcome {
                    uniform::ShotOutcome::Miss => ShotOutcome::Miss,
                    uniform::ShotOutcome::Hit(ship) => ShotOutcome::Hit(ship),
                    uniform::ShotOutcome::Sunk(ship) => ShotOutcome::Sunk(ship),
                    // There are only two players, so the defeat of one is
                    // the victory of the other and is never reported as a
                    // mere defeat.
                    uniform::ShotOutcome::Defeated(ship) => ShotOutcome::Victory(ship),
                    uniform::ShotOutcome::Victory(ship) => ShotOutcome::Victory(ship),
                },
            ),
            Err(err) => Err(
                match err.reason() {
                    uniform::CannotShootReason::AlreadyOver => CannotShootReason::AlreadyOver,
                    uniform::CannotShootReason::SelfShot => CannotShootReason::OutOfTurn,
                    uniform::CannotShootReason::OutOfBounds => CannotShootReason::OutOfBounds,
                    uniform::CannotShootReason::AlreadyShot => CannotShootReason::AlreadyShot,
                    // There are always exactly two players, so the player is
                    // never unknown.
                    uniform::CannotShootReason::UnknownPlayer => unreached(),
                    // Once one of two players is defeated the game is over.
                    uniform::CannotShootReason::AlreadyDefeated => unreached(),
                },
            ),
        }
    }

    /// Pass the turn to the other player.
    pub fn advance_turn(&mut self)
        requires
            old(self).wf(),
        ensures
            final(self).wf(),
            final(self)@ == old(self)@.advanced(),
    {
        self.0.advance_turn()
    }
}

} // verus!
