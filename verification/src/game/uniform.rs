//! Implementation of Battleship with uniform generic parameters, if not
//! uniform board setups.
use vstd::pervasive::unreached;
use vstd::prelude::*;
use vstd::std_specs::convert::FromSpecImpl;

use crate::board::{
    Board, BoardModel, BoardSetup, Dimensions, ShotOutcome as BoardShotOutcome,
};
use crate::board::setup::SetupModel;
use crate::board::lemma_index_of_unique;
use crate::ships::{ShipId, ShipShape};

pub use self::errors::{AddPlayerError, CannotShootReason, ShotError};

pub mod errors;

verus! {

/// Types used for the ID of a player. IDs are small values that are copied
/// freely.
pub trait PlayerId: Copy {
    /// Whether two IDs name the same player.
    fn same(&self, other: &Self) -> (r: bool)
        ensures
            r == (*self == *other),
    ;
}

/// Result of a shot in a game.
pub enum ShotOutcome<I> {
    /// The shot did not hit anything.
    Miss,
    /// The shot hit the ship with the given ID, but did not sink it.
    Hit(I),
    /// The shot sank the ship with the given ID, but the player has more
    /// ships left.
    Sunk(I),
    /// The shot hit the ship with the given ID, and all of the player's ships
    /// are now sunk. However, there are additional players left who still
    /// have ships.
    Defeated(I),
    /// The shot hit the ship with the given ID and all players but one are
    /// now defeated. The game has a winner.
    Victory(I),
}

impl<I> ShotOutcome<I> {
    /// The id of the ship that was hit, if any.
    pub open spec fn spec_ship(&self) -> Option<I> {
        match *self {
            ShotOutcome::Miss => None,
            ShotOutcome::Hit(id)
            | ShotOutcome::Sunk(id)
            | ShotOutcome::Defeated(id)
            | ShotOutcome::Victory(id) => Some(id),
        }
    }

    /// The outcome in a game that stands for an outcome on a board.
    pub open spec fn lift(shot: BoardShotOutcome<I>) -> Self {
        match shot {
            BoardShotOutcome::Miss => ShotOutcome::Miss,
            BoardShotOutcome::Hit(id) => ShotOutcome::Hit(id),
            BoardShotOutcome::Sunk(id) => ShotOutcome::Sunk(id),
            BoardShotOutcome::Defeated(id) => ShotOutcome::Defeated(id),
        }
    }

    /// Get the id of the ship that was hit.
    pub fn ship(&self) -> (ship: Option<&I>)
        ensures
            match ship {
                Some(id) => self.spec_ship() == Some(*id),
                None => self.spec_ship() is None,
            },
    {
        match self {
            ShotOutcome::Miss => None,
            ShotOutcome::Hit(id)
            | ShotOutcome::Sunk(id)
            | ShotOutcome::Defeated(id)
            | ShotOutcome::Victory(id) => Some(id),
        }
    }

    /// Extract the id of the ship that was hit from this result.
    pub fn into_ship(self) -> (ship: Option<I>)
        ensures
            ship == self.spec_ship(),
    {
        match self {
            ShotOutcome::Miss => None,
            ShotOutcome::Hit(id)
            | ShotOutcome::Sunk(id)
            | ShotOutcome::Defeated(id)
            | ShotOutcome::Victory(id) => Some(id),
        }
    }
}

impl<I> From<BoardShotOutcome<I>> for ShotOutcome<I> {
    fn from(shot: BoardShotOutcome<I>) -> (lifted: Self) {
        match shot {
            BoardShotOutcome::Miss => ShotOutcome::Miss,
            BoardShotOutcome::Hit(id) => ShotOutcome::Hit(id),
            BoardShotOutcome::Sunk(id) => ShotOutcome::Sunk(id),
            BoardShotOutcome::Defeated(id) => ShotOutcome::Defeated(id),
        }
    }
}

impl<I> FromSpecImpl<BoardShotOutcome<I>> for ShotOutcome<I> {
    open spec fn obeys_from_spec() -> bool {
        true
    }

    open spec fn from_spec(shot: BoardShotOutcome<I>) -> Self {
        Self::lift(shot)
    }
}

/// The state of a game in its setup phase: the players in the order in which
/// they were added, each with the state of their board.
pub struct GameSetupModel<P, I, D: Dimensions, S> {
    /// The IDs of the players, in turn order.
    pub players: Seq<P>,
    /// The boards of the players.
    pub boards: Seq<SetupModel<I, D, S>>,
}

impl<P, I, D: Dimensions, S: ShipShape<D>> GameSetupModel<P, I, D, S> {
    /// The game without players.
    pub open spec fn empty() -> Self {
        GameSetupModel { players: Seq::empty(), boards: Seq::empty() }
    }

    /// Validity of the state: each player occurs once and has a valid board.
    pub open spec fn wf(&self) -> bool {
        &&& self.boards.len() == self.players.len()
        &&& self.players.no_duplicates()
        &&& forall|k: int| 0 <= k < self.players.len() ==> (#[trigger] self.boards[k]).wf()
    }

    /// Whether there are at least two players and every board is ready.
    pub open spec fn ready(&self) -> bool {
        self.players.len() >= 2 && forall|k: int|
            0 <= k < self.players.len() ==> (#[trigger] self.boards[k]).ready()
    }

    /// The state after a player with an empty board was added.
    pub open spec fn add_player(&self, pid: P, dim: D) -> Self {
        GameSetupModel {
            players: self.players.push(pid),
            boards: self.boards.push(SetupModel::empty(dim)),
        }
    }

    /// The game that starts from a setup that is ready: the same players in
    /// the same order, their boards in the play phase, and the first player
    /// to move.
    pub open spec fn started(&self) -> GameModel<P, I, D> {
        GameModel {
            players: self.players,
            boards: Seq::new(self.players.len(), |k: int| self.boards[k].started()),
            current: 0,
        }
    }

    /// The game that starts from a valid setup that is ready is valid.
    pub proof fn lemma_started_is_wf(&self)
        requires
            self.wf(),
            self.ready(),
        ensures
            self.started().wf(),
    {
        let game = self.started();
        assert forall|k: int| 0 <= k < game.players.len() implies (#[trigger] game.boards[k]).wf() by {
            assert(self.boards[k].wf());
            assert(self.boards[k].ready());
            self.boards[k].lemma_started_is_wf();
        }
    }
}

/// The state of a game in its play phase: the players in turn order, each
/// with the state of their board, and whose turn it is.
pub struct GameModel<P, I, D: Dimensions> {
    /// The IDs of the players, in turn order.
    pub players: Seq<P>,
    /// The boards of the players.
    pub boards: Seq<BoardModel<I, D>>,
    /// The place in the turn order of the player whose turn it is.
    pub current: int,
}

impl<P, I, D: Dimensions> GameModel<P, I, D> {
    /// Validity of the state: at least two players, each once and with a
    /// valid board, and the turn is that of one of them.
    pub open spec fn wf(&self) -> bool {
        &&& self.boards.len() == self.players.len()
        &&& self.players.len() >= 2
        &&& 0 <= self.current < self.players.len()
        &&& self.players.no_duplicates()
        &&& forall|k: int| 0 <= k < self.players.len() ==> (#[trigger] self.boards[k]).wf()
    }

    /// The player whose turn it is.
    pub open spec fn current_player(&self) -> P {
        self.players[self.current]
    }

    /// Whether the player at `k` is the only one who is not defeated.
    pub open spec fn sole_survivor(&self, k: int) -> bool {
        &&& 0 <= k < self.players.len()
        &&& !self.boards[k].defeated()
        &&& forall|j: int|
            0 <= j < self.players.len() && j != k ==> (#[trigger] self.boards[j]).defeated()
    }

    /// The winner: the single player who is not defeated, if exactly one
    /// remains.
    pub open spec fn winner(&self) -> Option<P> {
        if exists|k: int| self.sole_survivor(k) {
            Some(self.players[choose|k: int| self.sole_survivor(k)])
        } else {
            None
        }
    }

    /// The state in which the board of the player at `k` is replaced.
    pub open spec fn with_board(&self, k: int, board: BoardModel<I, D>) -> Self {
        GameModel { boards: self.boards.update(k, board), ..*self }
    }

    /// Whether a shot at the target reaches the board of the target: the game
    /// is not over, and the target is a player other than the one whose turn
    /// it is.
    pub open spec fn reaches_board(&self, target: P) -> bool {
        self.winner() is None && target != self.current_player() && self.players.contains(target)
    }

    /// The state after a shot at the target's board: the shot is handed to
    /// that board if it reaches it, and nothing changes if it does not. The
    /// turn stays where it is.
    pub open spec fn after_shot(&self, target: P, coord: D::Coordinate) -> Self {
        if self.reaches_board(target) {
            let k = self.players.index_of(target);
            self.with_board(k, self.boards[k].after_shot(coord))
        } else {
            *self
        }
    }

    /// What a shot at the target's board gives: why it is refused, or what it
    /// does to the ships and to the game.
    pub open spec fn shot_result(&self, target: P, coord: D::Coordinate) -> Result<
        ShotOutcome<I>,
        CannotShootReason,
    > {
        if self.winner() is Some {
            Err(CannotShootReason::AlreadyOver)
        } else if target == self.current_player() {
            Err(CannotShootReason::SelfShot)
        } else if !self.players.contains(target) {
            Err(CannotShootReason::UnknownPlayer)
        } else {
            let k = self.players.index_of(target);
            match self.boards[k].shot_result(coord) {
                Err(reason) => Err(CannotShootReason::lift(reason)),
                Ok(BoardShotOutcome::Defeated(id)) => if self.after_shot(target, coord).winner()
                    is Some {
                    Ok(ShotOutcome::Victory(id))
                } else {
                    Ok(ShotOutcome::Defeated(id))
                },
                Ok(outcome) => Ok(ShotOutcome::lift(outcome)),
            }
        }
    }

    /// The state in which the turn has passed to the next player in turn
    /// order, the first following the last.
    pub open spec fn advanced(&self) -> Self {
        GameModel {
            current: if self.current + 1 < self.players.len() {
                self.current + 1
            } else {
                0
            },
            ..*self
        }
    }

    /// A sole survivor is the only one: the winner is that player.
    pub proof fn lemma_winner_is_sole_survivor(&self, k: int)
        requires
            self.sole_survivor(k),
        ensures
            self.winner() == Some(self.players[k]),
    {
        let c = choose|c: int| self.sole_survivor(c);
        if c != k {
            assert(self.boards[c].defeated());
        }
    }

    /// Once the game has a winner, every shot is refused because the game is
    /// over, nothing changes any more, and the winner stays the winner also
    /// when the turn passes on.
    pub proof fn lemma_winner_is_final(&self, target: P, coord: D::Coordinate)
        requires
            self.wf(),
            self.winner() is Some,
        ensures
            self.shot_result(target, coord) == Err::<ShotOutcome<I>, CannotShootReason>(
                CannotShootReason::AlreadyOver,
            ),
            self.after_shot(target, coord) == *self,
            self.after_shot(target, coord).winner() == self.winner(),
            self.advanced().winner() == self.winner(),
    {
        self.lemma_turn_keeps_winner();
    }

    /// Who has won does not depend on whose turn it is.
    pub proof fn lemma_turn_keeps_winner(&self)
        ensures
            self.advanced().winner() == self.winner(),
            self.advanced().advanced().players == self.players,
            self.advanced().boards == self.boards,
    {
        let next = self.advanced();
        assert forall|k: int| next.sole_survivor(k) == self.sole_survivor(k) by {}
        if exists|k: int| self.sole_survivor(k) {
            let k = choose|k: int| self.sole_survivor(k);
            assert(next.sole_survivor(k));
            self.lemma_winner_is_sole_survivor(k);
            next.lemma_winner_is_sole_survivor(k);
        }
    }

    /// A shot, taken or refused, keeps the game valid.
    pub proof fn lemma_after_shot_keeps_wf(&self, target: P, coord: D::Coordinate)
        requires
            self.wf(),
        ensures
            self.after_shot(target, coord).wf(),
    {
        if self.reaches_board(target) {
            let k = self.players.index_of(target);
            let after = self.after_shot(target, coord);
            self.boards[k].lemma_after_shot_keeps_wf(coord);
            assert forall|j: int| 0 <= j < after.players.len() implies (
            #[trigger] after.boards[j]).wf() by {
                if j != k {
                    assert(after.boards[j] == self.boards[j]);
                }
            }
        }
    }
}

/// Handles setup for the game. Acts as a builder for [`Game`].
pub struct GameSetup<P: PlayerId, I: ShipId, D: Dimensions, S: ShipShape<D>> {
    /// Setup boards of the players, in turn order.
    boards: Vec<BoardSetup<I, D, S>>,
    /// Records the turn order for players.
    turn_order: Vec<P>,
}

impl<P: PlayerId, I: ShipId, D: Dimensions, S: ShipShape<D>> View for GameSetup<P, I, D, S> {
    type V = GameSetupModel<P, I, D, S>;

    closed spec fn view(&self) -> GameSetupModel<P, I, D, S> {
        GameSetupModel {
            players: self.turn_order@,
            boards: Seq::new(self.boards.len() as nat, |k: int| self.boards[k]@),
        }
    }
}

impl<P: PlayerId, I: ShipId, D: Dimensions, S: ShipShape<D>> GameSetup<P, I, D, S> {
    /// Validity of the setup: that of its state.
    pub open spec fn wf(&self) -> bool {
        self@.wf()
    }

    /// Construct a new [`GameSetup`] to build a game.
    pub fn new() -> (setup: Self)
        ensures
            setup.wf(),
            setup@ == GameSetupModel::<P, I, D, S>::empty(),
    {
        let setup = Self { boards: Vec::new(), turn_order: Vec::new() };
        assert(setup@.boards =~= GameSetupModel::<P, I, D, S>::empty().boards);
        assert(setup@.players =~= GameSetupModel::<P, I, D, S>::empty().players);
        setup
    }

    /// Where the player with the given ID stands in the turn order, if the
    /// player was added.
    fn position(&self, pid: &P) -> (r: Option<usize>)
        ensures
            match r {
                Some(k) => k < self@.players.len() && self@.players[k as int] == *pid,
                None => !self@.players.contains(*pid),
            },
    {
        let mut k: usize = 0;
        while k < self.turn_order.len()
            invariant
                k <= self.turn_order.len(),
                forall|j: int| 0 <= j < k ==> self.turn_order@[j] != *pid,
            decreases self.turn_order.len() - k,
        {
            if self.turn_order[k].same(pid) {
                return Some(k);
            }
            k += 1;
        }
        None
    }

    /// Tries to start the game. If all players are ready, returns a [`Game`]
    /// with the current setup, the same turn order, and the first player to
    /// move. If fewer than 2 players have been added, or any player has not
    /// placed all of their ships, returns `self`.
    pub fn start(self) -> (r: Result<Game<P, I, D>, Self>)
        requires
            self.wf(),
        ensures
            match r {
                Ok(game) => self@.ready() && game.wf() && game@ == self@.started(),
                Err(setup) => !self@.ready() && setup == self,
            },
    {
        if !self.ready() {
            Err(self)
        } else {
            let ghost model = self@;
            let turn_order = self.turn_order;
            let mut setups = self.boards;
            let mut boards: Vec<Board<I, D>> = Vec::new();
            while setups.len() > 0
                invariant
                    model.wf(),
                    model.ready(),
                    boards.len() + setups.len() == model.players.len(),
                    forall|j: int|
                        0 <= j < boards.len() ==> (#[trigger] boards[j])@
                            == model.boards[j].started(),
                    forall|j: int|
                        0 <= j < setups.len() ==> (#[trigger] setups[j])@ == model.boards[boards.len()
                            + j],
                decreases setups.len(),
            {
                let setup = setups.remove(0);
                assert(setup@ == model.boards[boards.len() as int]);
                assert(model.boards[boards.len() as int].wf());
                assert(model.boards[boards.len() as int].ready());
                match setup.start() {
                    Ok(board) => {
                        boards.push(board);
                    },
                    // The boards of a setup that is ready are ready.
                    Err(_) => unreached(),
                }
            }
            let game = Game { boards, turn_order, current: 0 };
            proof {
                model.lemma_started_is_wf();
                assert(game@.boards =~= model.started().boards);
            }
            Ok(game)
        }
    }

    /// Add a player to the game, specifying their ID and the dimensions of
    /// their board. The player moves after all players added before.
    pub fn add_player(&mut self, pid: P, dim: D) -> (r: Result<
        &mut BoardSetup<I, D, S>,
        AddPlayerError<P, D>,
    >)
        requires
            old(self).wf(),
            dim.wf(),
        ensures
            match r {
                Ok(board) => !old(self)@.players.contains(pid) && board@ == SetupModel::<
                    I,
                    D,
                    S,
                >::empty(dim) && board.wf() && final(self)@.players == old(self)@.players.push(pid)
                    && final(self)@.boards == old(self)@.boards.push(final(board)@),
                Err(err) => old(self)@.players.contains(pid) && err.spec_id() == pid
                    && err.spec_dimensions() == dim && *final(self) == *old(self),
            },
    {
        match self.position(&pid) {
            Some(_) => Err(AddPlayerError::new(pid, dim)),
            None => {
                let ghost before = self@;
                self.turn_order.push(pid);
                self.boards.push(BoardSetup::new(dim));
                let k = self.boards.len() - 1;
                assert(k == before.boards.len());
                Ok(&mut self.boards[k])
            },
        }
    }

    /// Checks if at least two players have been added to the game and all
    /// players are ready.
    pub fn ready(&self) -> (r: bool)
        requires
            self.wf(),
        ensures
            r == self@.ready(),
    {
        if self.turn_order.len() < 2 {
            return false;
        }
        let mut k: usize = 0;
        while k < self.boards.len()
            invariant
                self.wf(),
                k <= self.boards.len(),
                forall|j: int| 0 <= j < k ==> (#[trigger] self@.boards[j]).ready(),
            decreases self.boards.len() - k,
        {
            if !self.boards[k].ready() {
                assert(!self@.boards[k as int].ready());
                return false;
            }
            k += 1;
        }
        true
    }

    /// Get the board for the player with the specified ID.
    pub fn get_board(&self, pid: &P) -> (r: Option<&BoardSetup<I, D, S>>)
        requires
            self.wf(),
        ensures
            match r {
                Some(board) => self@.players.contains(*pid) && board@
                    == self@.boards[self@.players.index_of(*pid)] && board.wf(),
                None => !self@.players.contains(*pid),
            },
    {
        match self.position(pid) {
            Some(k) => {
                proof {
                    lemma_index_of_unique(self@.players, k as int);
                    assert(self@.boards[k as int].wf());
                }
                Some(&self.boards[k])
            },
            None => None,
        }
    }

    /// Mutably get the board for the player with the specified ID.
    pub fn get_board_mut(&mut self, pid: &P) -> (r: Option<&mut BoardSetup<I, D, S>>)
        requires
            old(self).wf(),
        ensures
            final(self)@.players == old(self)@.players,
            match r {
                Some(board) => old(self)@.players.contains(*pid) && board@ == old(
                    self,
                )@.boards[old(self)@.players.index_of(*pid)] && board.wf() && final(self)@.boards
                    == old(self)@.boards.update(
                    old(self)@.players.index_of(*pid),
                    final(board)@,
                ),
                None => !old(self)@.players.contains(*pid) && *final(self) == *old(self),
            },
    {
        match self.position(pid) {
            Some(k) => {
                let ghost before = self@;
                proof {
                    lemma_index_of_unique(self@.players, k as int);
                    assert(self@.boards[k as int].wf());
                }
                Some(&mut self.boards[k])
            },
            None => None,
        }
    }
}

impl<P: PlayerId, I: ShipId, D: Dimensions, S: ShipShape<D>> Default for GameSetup<P, I, D, S> {
    fn default() -> (setup: Self)
        ensures
            setup.wf(),
            setup@ == GameSetupModel::<P, I, D, S>::empty(),
    {
        Self::new()
    }
}

/// Handles gameplay.
pub struct Game<P: PlayerId, I: ShipId, D: Dimensions> {
    /// Gameplay boards for the players, in turn order.
    boards: Vec<Board<I, D>>,
    /// Records the turn order for players.
    turn_order: Vec<P>,
    /// Counter for the current player turn as an index in `turn_order`.
    current: usize,
}

impl<P: PlayerId, I: ShipId, D: Dimensions> View for Game<P, I, D> {
    type V = GameModel<P, I, D>;

    closed spec fn view(&self) -> GameModel<P, I, D> {
        GameModel {
            players: self.turn_order@,
            boards: Seq::new(self.boards.len() as nat, |k: int| self.boards[k]@),
            current: self.current as int,
        }
    }
}

impl<P: PlayerId, I: ShipId, D: Dimensions> Game<P, I, D> {
    /// Validity of the game: that of its state.
    pub open spec fn wf(&self) -> bool {
        self@.wf()
    }

    /// Get the ID of the player whose turn it is.
    pub fn current(&self) -> (pid: &P)
        requires
            self.wf(),
        ensures
            *pid == self@.current_player(),
    {
        &self.turn_order[self.current]
    }

    /// Get the status of the game. Returns `None` if the game is in progress,
    /// otherwise returns the winner: the one player who is not defeated.
    pub fn winner(&self) -> (r: Option<&P>)
        requires
            self.wf(),
        ensures
            match r {
                Some(pid) => self@.winner() == Some(*pid),
                None => self@.winner() is None,
            },
    {
        let mut survivor: Option<usize> = None;
        let mut k: usize = 0;
        while k < self.boards.len()
            invariant
                self.wf(),
                k <= self.boards.len(),
                match survivor {
                    Some(s) => s < k && !self@.boards[s as int].defeated() && forall|j: int|
                        0 <= j < k && j != s ==> (#[trigger] self@.boards[j]).defeated(),
                    None => forall|j: int| 0 <= j < k ==> (#[trigger] self@.boards[j]).defeated(),
                },
            decreases self.boards.len() - k,
        {
            assert(self@.boards[k as int].wf());
            if !self.boards[k].defeated() {
                match survivor {
                    Some(s) => {
                        proof {
                            assert forall|c: int| !self@.sole_survivor(c) by {
                                if self@.sole_survivor(c) {
                                    if c != s as int {
                                        assert(self@.boards[s as int].defeated());
                                    } else {
                                        assert(self@.boards[k as int].defeated());
                                    }
                                }
                            }
                        }
                        return None;
                    },
                    None => {
                        survivor = Some(k);
                    },
                }
            }
            k += 1;
        }
        match survivor {
            Some(s) => {
                proof {
                    self@.lemma_winner_is_sole_survivor(s as int);
                }
                Some(&self.turn_order[s])
            },
            None => {
                proof {
                    assert forall|c: int| !self@.sole_survivor(c) by {
                        if self@.sole_survivor(c) {
                            assert(self@.boards[c].defeated());
                        }
                    }
                }
                None
            },
        }
    }

    /// Where the player with the given ID stands in the turn order, if the
    /// player takes part.
    fn position(&self, pid: &P) -> (r: Option<usize>)
        ensures
            match r {
                Some(k) => k < self@.players.len() && self@.players[k as int] == *pid,
                None => !self@.players.contains(*pid),
            },
    {
        let mut k: usize = 0;
        while k < self.turn_order.len()
            invariant
                k <= self.turn_order.len(),
                forall|j: int| 0 <= j < k ==> self.turn_order@[j] != *pid,
            decreases self.turn_order.len() - k,
        {
            if self.turn_order[k].same(pid) {
                return Some(k);
            }
            k += 1;
        }
        None
    }

    /// Get a reference to the board for the specified player.
    pub fn get_board(&self, pid: &P) -> (r: Option<&Board<I, D>>)
        requires
            self.wf(),
        ensures
            match r {
                Some(board) => self@.players.contains(*pid) && board@
                    == self@.boards[self@.players.index_of(*pid)] && board.wf(),
                None => !self@.players.contains(*pid),
            },
    {
        match self.position(pid) {
            Some(k) => {
                proof {
                    lemma_index_of_unique(self@.players, k as int);
                    assert(self@.boards[k as int].wf());
                }
                Some(&self.boards[k])
            },
            None => None,
        }
    }

    /// The player ids and boards in turn-order.
    pub fn iter_boards(&self) -> (pairs: Vec<(&P, &Board<I, D>)>)
        requires
            self.wf(),
        ensures
            pairs.len() == self@.players.len(),
            forall|k: int|
                0 <= k < pairs.len() ==> *(#[trigger] pairs[k]).0 == self@.players[k]
                    && pairs[k].1@ == self@.boards[k] && pairs[k].1.wf(),
    {
        let mut pairs: Vec<(&P, &Board<I, D>)> = Vec::new();
        let mut k: usize = 0;
        while k < self.turn_order.len()
            invariant
                self.wf(),
                k <= self.turn_order.len(),
                pairs.len() == k,
                forall|j: int|
                    0 <= j < pairs.len() ==> *(#[trigger] pairs[j]).0 == self@.players[j]
                        && pairs[j].1@ == self@.boards[j] && pairs[j].1.wf(),
            decreases self.turn_order.len() - k,
        {
            assert(self@.boards[k as int].wf());
            pairs.push((&self.turn_order[k], &self.boards[k]));
            k += 1;
        }
        pairs
    }

    /// Fire a shot at the specified player, returning the result of the shot
    /// or an error if the shot was invalid. The turn does not pass on.
    pub fn shoot(&mut self, target: P, coord: D::Coordinate) -> (r: Result<
        ShotOutcome<I>,
        ShotError<P, D::Coordinate>,
    >)
        requires
            old(self).wf(),
        ensures
            final(self).wf(),
            final(self)@ == old(self)@.after_shot(target, coord),
            match r {
                Ok(outcome) => old(self)@.shot_result(target, coord) == Ok::<
                    ShotOutcome<I>,
                    CannotShootReason,
                >(outcome),
                Err(err) => old(self)@.shot_result(target, coord) == Err::<
                    ShotOutcome<I>,
                    CannotShootReason,
                >(err.spec_reason()) && err.spec_player() == target && err.spec_coord() == coord,
            },
    {
        let ghost before = self@;
        if self.winner().is_some() {
            Err(ShotError::new(CannotShootReason::AlreadyOver, target, coord))
        } else if self.current().same(&target) {
            Err(ShotError::new(CannotShootReason::SelfShot, target, coord))
        } else {
            match self.position(&target) {
                Some(k) => {
                    proof {
                        lemma_index_of_unique(before.players, k as int);
                        assert(before.boards[k as int].wf());
                        before.lemma_after_shot_keeps_wf(target, coord);
                    }
                    let shot = self.boards[k].shoot(coord);
                    proof {
                        assert(self@.boards =~= before.after_shot(target, coord).boards);
                    }
                    match shot {
                        Ok(BoardShotOutcome::Defeated(id)) => {
                            if self.winner().is_some() {
                                Ok(ShotOutcome::Victory(id))
                            } else {
                                Ok(ShotOutcome::Defeated(id))
                            }
                        },
                        Ok(res) => Ok(ShotOutcome::from(res)),
                        Err(err) => Err(ShotError::add_context(err, target)),
                    }
                },
                None => Err(ShotError::new(CannotShootReason::UnknownPlayer, target, coord)),
            }
        }
    }

    /// Pass the turn to the next player in turn order; after the last player
    /// the first moves again.
    pub fn advance_turn(&mut self)
        requires
            old(self).wf(),
        ensures
            final(self).wf(),
            final(self)@ == old(self)@.advanced(),
    {
        let ghost before = self@;
        if self.current + 1 < self.turn_order.len() {
            self.current += 1;
        } else {
            self.current = 0;
        }
        proof {
            assert(self@.boards =~= before.boards);
        }
    }
}

} // verus!
