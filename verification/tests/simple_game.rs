use spacebattleship::board::rectangular::Coordinate;
use spacebattleship::game::simple::{
    CannotPlaceReason, CannotShootReason, Game, GameSetup, Orientation, Player, Ship, ShotOutcome,
};

fn at(x: usize, y: usize) -> Coordinate {
    Coordinate::new(x, y)
}

fn line_of(cells: &[(usize, usize)]) -> Vec<Coordinate> {
    cells.iter().map(|&(x, y)| Coordinate::new(x, y)).collect()
}

fn all_ships() -> [Ship; 5] {
    [Ship::Carrier, Ship::Battleship, Ship::Cruiser, Ship::Submarine, Ship::Destroyer]
}

fn place_all(setup: &mut GameSetup, player: Player) {
    for (row, ship) in all_ships().iter().enumerate() {
        assert_eq!(setup.place_ship(player, *ship, at(0, row), Orientation::Right), Ok(()));
    }
}

fn started() -> Game {
    let mut setup = GameSetup::new();
    place_all(&mut setup, Player::P1);
    place_all(&mut setup, Player::P2);
    match setup.start() {
        Ok(game) => game,
        Err(_) => panic!("did not start"),
    }
}

#[test]
fn players_are_opponents_of_each_other() {
    assert_eq!(Player::P1.opponent(), Player::P2);
    assert_eq!(Player::P2.opponent(), Player::P1);
    assert_eq!(Player::P1.oponent(), Player::P2);
    assert_eq!(Player::P2.oponent(), Player::P1);
}

#[test]
fn ships_have_their_lengths() {
    assert_eq!(Ship::Carrier.len(), 5);
    assert_eq!(Ship::Battleship.len(), 4);
    assert_eq!(Ship::Cruiser.len(), 3);
    assert_eq!(Ship::Submarine.len(), 3);
    assert_eq!(Ship::Destroyer.len(), 2);
    for ship in all_ships() {
        assert_eq!(ship.get_shape().len(), ship.len());
    }
}

#[test]
fn orientation_is_the_direction_of_the_second_cell() {
    let right = line_of(&[(3, 3), (4, 3), (5, 3)]);
    let left = line_of(&[(3, 3), (2, 3)]);
    let up = line_of(&[(3, 3), (3, 2)]);
    let down = line_of(&[(3, 3), (3, 4)]);
    let all = [Orientation::Up, Orientation::Down, Orientation::Left, Orientation::Right];
    for dir in all {
        assert_eq!(dir.check_dir(&right), dir == Orientation::Right);
        assert_eq!(dir.check_dir(&left), dir == Orientation::Left);
        assert_eq!(dir.check_dir(&up), dir == Orientation::Up);
        assert_eq!(dir.check_dir(&down), dir == Orientation::Down);
        assert!(dir.check_dir(&line_of(&[(3, 3)])));
        assert!(dir.check_dir(&line_of(&[])));
        assert!(!dir.check_dir(&line_of(&[(3, 3), (4, 4)])));
        assert!(!dir.check_dir(&line_of(&[(3, 3), (3, 3)])));
    }
}

#[test]
fn new_setup_has_all_ships_pending() {
    let setup = GameSetup::new();
    assert!(!setup.ready());
    for player in [Player::P1, Player::P2] {
        assert!(!setup.is_player_ready(player));
        assert_eq!(setup.get_pending_ships(player), all_ships().to_vec());
        let ships = setup.get_ships(player);
        assert_eq!(ships.len(), 5);
        for (k, (ship, placement)) in ships.iter().enumerate() {
            assert_eq!(*ship, all_ships()[k]);
            assert!(placement.is_none());
        }
        let rows = setup.iter_board(player);
        assert_eq!(rows.len(), 10);
        for row in rows {
            assert_eq!(row, vec![None; 10]);
        }
    }
}

#[test]
fn placement_success_on_ten_by_ten() {
    let mut setup = GameSetup::new();
    assert_eq!(
        setup.check_placement(Player::P1, Ship::Carrier, at(0, 0), Orientation::Right),
        Ok(())
    );
    assert!(setup.get_placement(Player::P1, Ship::Carrier).is_none());
    assert_eq!(setup.place_ship(Player::P1, Ship::Carrier, at(0, 0), Orientation::Right), Ok(()));
    let placement = setup.get_placement(Player::P1, Ship::Carrier).unwrap();
    assert_eq!(*placement.coords(), line_of(&[(0, 0), (1, 0), (2, 0), (3, 0), (4, 0)]));
    assert_eq!(placement.orientation(), Orientation::Right);
    assert_eq!(*placement.start(), at(0, 0));
    assert!(setup.get_placement(Player::P2, Ship::Carrier).is_none());
}

#[test]
fn placement_off_the_edge() {
    let mut setup = GameSetup::new();
    assert_eq!(
        setup.check_placement(Player::P1, Ship::Carrier, at(7, 0), Orientation::Right),
        Err(CannotPlaceReason::InsufficientSpace)
    );
    assert_eq!(
        setup.place_ship(Player::P1, Ship::Carrier, at(7, 0), Orientation::Right),
        Err(CannotPlaceReason::InsufficientSpace)
    );
    assert!(setup.get_placement(Player::P1, Ship::Carrier).is_none());
    assert!(setup.iter_board(Player::P1).iter().all(|row| row.iter().all(|c| c.is_none())));
    assert_eq!(
        setup.place_ship(Player::P1, Ship::Carrier, at(6, 0), Orientation::Right),
        Err(CannotPlaceReason::InsufficientSpace)
    );
    assert_eq!(setup.place_ship(Player::P1, Ship::Carrier, at(5, 0), Orientation::Right), Ok(()));
}

#[test]
fn overlap_rejection() {
    let mut setup = GameSetup::new();
    assert_eq!(setup.place_ship(Player::P1, Ship::Carrier, at(0, 0), Orientation::Right), Ok(()));
    assert_eq!(
        setup.check_placement(Player::P1, Ship::Battleship, at(2, 0), Orientation::Down),
        Err(CannotPlaceReason::AlreadyOccupied)
    );
    assert_eq!(
        setup.place_ship(Player::P1, Ship::Battleship, at(2, 0), Orientation::Down),
        Err(CannotPlaceReason::AlreadyOccupied)
    );
    let rows = setup.iter_board(Player::P1);
    assert_eq!(rows[1][2], None);
    assert_eq!(rows[0][2], Some(Ship::Carrier));
    assert!(setup.get_placement(Player::P1, Ship::Battleship).is_none());
    assert_eq!(
        setup.place_ship(Player::P2, Ship::Battleship, at(2, 0), Orientation::Down),
        Ok(())
    );
}

#[test]
fn placement_in_every_direction() {
    let mut setup = GameSetup::new();
    assert_eq!(setup.place_ship(Player::P1, Ship::Cruiser, at(5, 5), Orientation::Up), Ok(()));
    assert_eq!(setup.place_ship(Player::P1, Ship::Submarine, at(6, 5), Orientation::Down), Ok(()));
    assert_eq!(setup.place_ship(Player::P1, Ship::Destroyer, at(4, 5), Orientation::Left), Ok(()));
    assert_eq!(
        setup.place_ship(Player::P1, Ship::Battleship, at(6, 0), Orientation::Right),
        Ok(())
    );
    let cruiser = setup.get_placement(Player::P1, Ship::Cruiser).unwrap();
    assert_eq!(*cruiser.coords(), line_of(&[(5, 5), (5, 4), (5, 3)]));
    assert_eq!(cruiser.orientation(), Orientation::Up);
    let submarine = setup.get_placement(Player::P1, Ship::Submarine).unwrap();
    assert_eq!(*submarine.coords(), line_of(&[(6, 5), (6, 6), (6, 7)]));
    assert_eq!(submarine.orientation(), Orientation::Down);
    let destroyer = setup.get_placement(Player::P1, Ship::Destroyer).unwrap();
    assert_eq!(*destroyer.coords(), line_of(&[(4, 5), (3, 5)]));
    assert_eq!(destroyer.orientation(), Orientation::Left);
    assert_eq!(*destroyer.start(), at(4, 5));
    let battleship = setup.get_placement(Player::P1, Ship::Battleship).unwrap();
    assert_eq!(*battleship.coords(), line_of(&[(6, 0), (7, 0), (8, 0), (9, 0)]));
    assert_eq!(battleship.orientation(), Orientation::Right);
    assert_eq!(setup.get_pending_ships(Player::P1), vec![Ship::Carrier]);
    let ships = setup.get_ships(Player::P1);
    assert!(ships[0].1.is_none());
    assert_eq!(*ships[1].1.as_ref().unwrap().coords(), line_of(&[(6, 0), (7, 0), (8, 0), (9, 0)]));
}

#[test]
fn placement_needs_space_in_its_direction() {
    let mut setup = GameSetup::new();
    let no_space = Err(CannotPlaceReason::InsufficientSpace);
    assert_eq!(setup.place_ship(Player::P1, Ship::Destroyer, at(0, 0), Orientation::Up), no_space);
    assert_eq!(
        setup.place_ship(Player::P1, Ship::Destroyer, at(0, 0), Orientation::Left),
        no_space
    );
    assert_eq!(
        setup.place_ship(Player::P1, Ship::Destroyer, at(9, 9), Orientation::Down),
        no_space
    );
    assert_eq!(
        setup.place_ship(Player::P1, Ship::Destroyer, at(9, 9), Orientation::Right),
        no_space
    );
    assert_eq!(
        setup.place_ship(Player::P1, Ship::Destroyer, at(10, 5), Orientation::Left),
        no_space
    );
    assert_eq!(setup.place_ship(Player::P1, Ship::Carrier, at(3, 3), Orientation::Up), no_space);
    assert_eq!(setup.place_ship(Player::P1, Ship::Carrier, at(3, 4), Orientation::Up), Ok(()));
}

#[test]
fn placed_ship_cannot_be_placed_again() {
    let mut setup = GameSetup::new();
    assert_eq!(setup.place_ship(Player::P1, Ship::Cruiser, at(0, 0), Orientation::Down), Ok(()));
    assert_eq!(
        setup.place_ship(Player::P1, Ship::Cruiser, at(5, 5), Orientation::Down),
        Err(CannotPlaceReason::AlreadyPlaced)
    );
    assert_eq!(
        setup.check_placement(Player::P1, Ship::Cruiser, at(0, 0), Orientation::Down),
        Err(CannotPlaceReason::AlreadyPlaced)
    );
    assert_eq!(
        setup.place_ship(Player::P1, Ship::Cruiser, at(9, 9), Orientation::Down),
        Err(CannotPlaceReason::InsufficientSpace)
    );
    assert_eq!(
        *setup.get_placement(Player::P1, Ship::Cruiser).unwrap().coords(),
        line_of(&[(0, 0), (0, 1), (0, 2)])
    );
}

#[test]
fn unplace_ship_says_whether_the_ship_was_placed() {
    let mut setup = GameSetup::new();
    assert!(!setup.unplace_ship(Player::P1, Ship::Cruiser));
    assert_eq!(setup.place_ship(Player::P1, Ship::Cruiser, at(0, 0), Orientation::Down), Ok(()));
    assert_eq!(setup.place_ship(Player::P1, Ship::Destroyer, at(1, 0), Orientation::Down), Ok(()));
    assert!(setup.unplace_ship(Player::P1, Ship::Cruiser));
    assert!(!setup.unplace_ship(Player::P1, Ship::Cruiser));
    assert!(setup.get_placement(Player::P1, Ship::Cruiser).is_none());
    let rows = setup.iter_board(Player::P1);
    assert_eq!(rows[0][0], None);
    assert_eq!(rows[1][0], None);
    assert_eq!(rows[0][1], Some(Ship::Destroyer));
    assert_eq!(rows[1][1], Some(Ship::Destroyer));
    assert_eq!(setup.place_ship(Player::P1, Ship::Cruiser, at(0, 0), Orientation::Down), Ok(()));
}

#[test]
fn place_ship_succeeds_exactly_when_the_check_does() {
    let dirs = [Orientation::Up, Orientation::Down, Orientation::Left, Orientation::Right];
    for y in 0..11 {
        for x in 0..11 {
            for dir in dirs {
                let mut setup = GameSetup::new();
                assert_eq!(
                    setup.place_ship(Player::P1, Ship::Carrier, at(2, 2), Orientation::Right),
                    Ok(())
                );
                let before = setup.iter_board(Player::P1);
                let checked = setup.check_placement(Player::P1, Ship::Cruiser, at(x, y), dir);
                assert_eq!(setup.iter_board(Player::P1), before);
                let placed = setup.place_ship(Player::P1, Ship::Cruiser, at(x, y), dir);
                assert_eq!(placed, checked);
                if placed.is_err() {
                    assert_eq!(setup.iter_board(Player::P1), before);
                    assert!(setup.get_placement(Player::P1, Ship::Cruiser).is_none());
                } else {
                    let placement = setup.get_placement(Player::P1, Ship::Cruiser).unwrap();
                    assert_eq!(*placement.start(), at(x, y));
                    assert_eq!(placement.orientation(), dir);
                    assert_eq!(placement.coords().len(), 3);
                    assert!(setup.unplace_ship(Player::P1, Ship::Cruiser));
                    assert_eq!(setup.iter_board(Player::P1), before);
                }
            }
        }
    }
}

#[test]
fn setup_starts_when_both_players_are_ready() {
    let mut setup = GameSetup::new();
    place_all(&mut setup, Player::P1);
    assert!(setup.is_player_ready(Player::P1));
    assert!(!setup.is_player_ready(Player::P2));
    assert!(!setup.ready());
    let mut setup = match setup.start() {
        Ok(_) => panic!("started with one player ready"),
        Err(setup) => setup,
    };
    assert!(setup.is_player_ready(Player::P1));
    assert_eq!(
        *setup.get_placement(Player::P1, Ship::Destroyer).unwrap().coords(),
        line_of(&[(0, 4), (1, 4)])
    );
    place_all(&mut setup, Player::P2);
    assert!(setup.ready());
    let game = match setup.start() {
        Ok(game) => game,
        Err(_) => panic!("did not start"),
    };
    assert_eq!(game.current(), Player::P1);
    assert_eq!(game.winner(), None);
    assert_eq!(*game.get_ship(Player::P2, Ship::Cruiser).coords(), line_of(&[(0, 2), (1, 2), (2, 2)]));
}

#[test]
fn out_of_turn() {
    let mut game = started();
    assert_eq!(game.current(), Player::P1);
    for coord in [at(0, 0), at(5, 5), at(10, 10)] {
        assert_eq!(game.shoot(Player::P1, coord), Err(CannotShootReason::OutOfTurn));
    }
    assert!(!game.get_coord(Player::P1, at(0, 0)).unwrap().hit());
    game.advance_turn();
    assert_eq!(game.current(), Player::P2);
    assert_eq!(game.shoot(Player::P2, at(0, 0)), Err(CannotShootReason::OutOfTurn));
    assert_eq!(game.shoot(Player::P1, at(0, 0)), Ok(ShotOutcome::Hit(Ship::Carrier)));
}

#[test]
fn simple_game_runs_to_victory() {
    let mut game = started();
    assert_eq!(game.shoot(Player::P2, at(10, 0)), Err(CannotShootReason::OutOfBounds));
    assert_eq!(game.shoot(Player::P2, at(9, 9)), Ok(ShotOutcome::Miss));
    assert_eq!(game.shoot(Player::P2, at(9, 9)), Err(CannotShootReason::AlreadyShot));
    for (row, ship) in all_ships().iter().enumerate() {
        for x in 0..ship.len() {
            let outcome = game.shoot(Player::P2, at(x, row));
            let last_cell = x + 1 == ship.len();
            let expected = if last_cell && row == 4 {
                ShotOutcome::Victory(*ship)
            } else if last_cell {
                ShotOutcome::Sunk(*ship)
            } else {
                ShotOutcome::Hit(*ship)
            };
            assert_eq!(outcome, Ok(expected));
            assert_eq!(game.get_ship(Player::P2, *ship).sunk(), last_cell);
        }
    }
    assert_eq!(game.winner(), Some(Player::P1));
    assert_eq!(game.shoot(Player::P2, at(5, 5)), Err(CannotShootReason::AlreadyOver));
    assert_eq!(game.shoot(Player::P2, at(0, 0)), Err(CannotShootReason::AlreadyOver));
    game.advance_turn();
    assert_eq!(game.current(), Player::P2);
    assert_eq!(game.winner(), Some(Player::P1));
    assert_eq!(game.shoot(Player::P1, at(5, 5)), Err(CannotShootReason::AlreadyOver));
    assert!(!game.get_coord(Player::P1, at(5, 5)).unwrap().hit());
}

#[test]
fn second_player_can_win() {
    let mut game = started();
    game.advance_turn();
    for (row, ship) in all_ships().iter().enumerate() {
        for x in 0..ship.len() {
            assert!(game.shoot(Player::P1, at(x, row)).is_ok());
        }
    }
    assert_eq!(game.winner(), Some(Player::P2));
    game.advance_turn();
    assert_eq!(game.winner(), Some(Player::P2));
}

#[test]
fn game_boards_show_ships_and_hits() {
    let mut game = started();
    assert_eq!(game.shoot(Player::P2, at(1, 1)), Ok(ShotOutcome::Hit(Ship::Battleship)));
    assert_eq!(game.shoot(Player::P2, at(7, 7)), Ok(ShotOutcome::Miss));
    let rows = game.iter_board(Player::P2);
    assert_eq!(rows.len(), 10);
    for (y, row) in rows.iter().enumerate() {
        assert_eq!(row.len(), 10);
        for (x, cell) in row.iter().enumerate() {
            assert_eq!(*cell.coord(), at(x, y));
            assert_eq!(cell.hit(), (x, y) == (1, 1) || (x, y) == (7, 7));
            let expected = if y < 5 && x < all_ships()[y].len() {
                Some(all_ships()[y])
            } else {
                None
            };
            assert_eq!(cell.ship().map(|ship| *ship.id()), expected);
        }
    }
    let untouched = game.iter_board(Player::P1);
    assert!(untouched.iter().all(|row| row.iter().all(|cell| !cell.hit())));
    let ships = game.iter_ships(Player::P2);
    assert_eq!(ships.len(), 5);
    for (k, ship) in ships.iter().enumerate() {
        assert_eq!(*ship.id(), all_ships()[k]);
        assert!(!ship.sunk());
    }
    assert_eq!(
        game.get_ship(Player::P2, Ship::Battleship).hits(),
        vec![(at(0, 1), false), (at(1, 1), true), (at(2, 1), false), (at(3, 1), false)]
    );
    assert!(game.get_coord(Player::P2, at(10, 1)).is_none());
}

#[test]
fn reasons_say_what_went_wrong() {
    assert_eq!(
        CannotPlaceReason::InsufficientSpace.message(),
        "insufficient space for the ship at the specified position"
    );
    assert_eq!(CannotPlaceReason::AlreadyPlaced.message(), "specified ship was already placed");
    assert_eq!(
        CannotPlaceReason::AlreadyOccupied.message(),
        "the specified position was already occupied"
    );
    assert_eq!(CannotShootReason::AlreadyOver.message(), "the game is already over");
    assert_eq!(CannotShootReason::OutOfTurn.message(), "player attempted to shoot out of turn");
    assert_eq!(CannotShootReason::OutOfBounds.message(), "the target coordinate is out of bounds");
    assert_eq!(CannotShootReason::AlreadyShot.message(), "the target cell was already shot");
}
