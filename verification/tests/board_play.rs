use spacebattleship::board::rectangular::{Coordinate, RectDimensions};
use spacebattleship::board::setup::BoardSetup;
use spacebattleship::board::{Board, CannotShootReason, ShotError, ShotOutcome};
use spacebattleship::game::simple::Ship;
use spacebattleship::ships::Line;

fn line_of(cells: &[(usize, usize)]) -> Vec<Coordinate> {
    cells.iter().map(|&(x, y)| Coordinate::new(x, y)).collect()
}

fn at(x: usize, y: usize) -> Coordinate {
    Coordinate::new(x, y)
}

fn board() -> Board<Ship, RectDimensions> {
    let mut setup: BoardSetup<Ship, RectDimensions, Line> =
        BoardSetup::new(RectDimensions::new(10, 10));
    assert!(setup
        .add_ship(Ship::Destroyer, Line::new(2))
        .unwrap()
        .place(line_of(&[(0, 0), (1, 0)]))
        .is_ok());
    assert!(setup
        .add_ship(Ship::Cruiser, Line::new(3))
        .unwrap()
        .place(line_of(&[(0, 1), (1, 1), (2, 1)]))
        .is_ok());
    match setup.start() {
        Ok(board) => board,
        Err(_) => panic!("did not start"),
    }
}

fn hit_flags(board: &Board<Ship, RectDimensions>) -> Vec<bool> {
    let mut flags = Vec::new();
    for y in 0..10 {
        for x in 0..10 {
            flags.push(board.get_coord(at(x, y)).unwrap().hit());
        }
    }
    flags
}

#[test]
fn shot_at_water_is_a_miss() {
    let mut board = board();
    assert!(matches!(board.shoot(at(5, 5)), Ok(ShotOutcome::Miss)));
    let cell = board.get_coord(at(5, 5)).unwrap();
    assert!(cell.hit());
    assert!(cell.ship().is_none());
    assert_eq!(*cell.coord(), at(5, 5));
    assert_eq!(hit_flags(&board).iter().filter(|hit| **hit).count(), 1);
}

#[test]
fn shot_at_a_ship_hits_then_sinks_then_defeats() {
    let mut board = board();
    assert!(matches!(board.shoot(at(0, 0)), Ok(ShotOutcome::Hit(Ship::Destroyer))));
    assert!(!board.get_ship(&Ship::Destroyer).unwrap().sunk());
    assert!(matches!(board.shoot(at(1, 0)), Ok(ShotOutcome::Sunk(Ship::Destroyer))));
    assert!(board.get_ship(&Ship::Destroyer).unwrap().sunk());
    assert!(!board.get_ship(&Ship::Cruiser).unwrap().sunk());
    assert!(!board.defeated());
    assert!(matches!(board.shoot(at(2, 1)), Ok(ShotOutcome::Hit(Ship::Cruiser))));
    assert!(matches!(board.shoot(at(0, 1)), Ok(ShotOutcome::Hit(Ship::Cruiser))));
    assert!(!board.defeated());
    assert!(matches!(board.shoot(at(1, 1)), Ok(ShotOutcome::Defeated(Ship::Cruiser))));
    assert!(board.defeated());
    assert!(board.get_ship(&Ship::Cruiser).unwrap().sunk());
}

#[test]
fn shot_off_the_board_is_refused() {
    let mut board = board();
    let before = hit_flags(&board);
    let err: ShotError<Coordinate> = match board.shoot(at(10, 0)) {
        Ok(_) => panic!("shot off the board"),
        Err(err) => err,
    };
    assert_eq!(err.reason(), CannotShootReason::OutOfBounds);
    assert_eq!(*err.coord(), at(10, 0));
    assert_eq!(err.into_coord(), at(10, 0));
    assert_eq!(hit_flags(&board), before);
}

#[test]
fn second_shot_at_a_cell_is_refused_and_changes_nothing() {
    let mut board = board();
    assert!(board.shoot(at(0, 0)).is_ok());
    assert!(board.shoot(at(7, 7)).is_ok());
    let before = hit_flags(&board);
    for coord in [at(0, 0), at(7, 7)] {
        let err = match board.shoot(coord) {
            Ok(_) => panic!("shot a cell twice"),
            Err(err) => err,
        };
        assert_eq!(err.reason(), CannotShootReason::AlreadyShot);
        assert_eq!(*err.coord(), coord);
        assert_eq!(hit_flags(&board), before);
    }
    assert!(!board.get_ship(&Ship::Destroyer).unwrap().sunk());
}

#[test]
fn defeated_board_refuses_every_shot() {
    let mut board = board();
    for coord in line_of(&[(0, 0), (1, 0), (0, 1), (1, 1), (2, 1)]) {
        assert!(board.shoot(coord).is_ok());
    }
    assert!(board.defeated());
    let before = hit_flags(&board);
    for coord in [at(5, 5), at(0, 0), at(10, 10)] {
        let err = match board.shoot(coord) {
            Ok(_) => panic!("shot a defeated board"),
            Err(err) => err,
        };
        assert_eq!(err.reason(), CannotShootReason::AlreadyDefeated);
        assert_eq!(*err.coord(), coord);
    }
    assert_eq!(hit_flags(&board), before);
}

#[test]
fn ship_is_sunk_when_all_its_cells_are_hit() {
    let mut board = board();
    let shots = line_of(&[(2, 1), (9, 9), (0, 1), (1, 0), (1, 1)]);
    for (n, coord) in shots.iter().enumerate() {
        assert!(board.shoot(*coord).is_ok());
        for ship in board.iter_ships() {
            let all_hit = ship.coords().iter().all(|c| board.get_coord(*c).unwrap().hit());
            assert_eq!(ship.sunk(), all_hit);
            let hits = ship.hits();
            assert_eq!(hits.len(), ship.coords().len());
            for (k, (coord, hit)) in hits.iter().enumerate() {
                assert_eq!(*coord, ship.coords()[k]);
                assert_eq!(*hit, board.get_coord(*coord).unwrap().hit());
            }
        }
        let every_ship_sunk = board.iter_ships().iter().all(|ship| ship.sunk());
        assert_eq!(board.defeated(), every_ship_sunk);
        assert_eq!(board.get_ship(&Ship::Cruiser).unwrap().sunk(), n >= 4);
    }
    assert_eq!(
        board.get_ship(&Ship::Destroyer).unwrap().hits(),
        vec![(at(0, 0), false), (at(1, 0), true)]
    );
    assert!(!board.defeated());
}

#[test]
fn cells_refer_to_their_ships() {
    let mut board = board();
    assert!(board.shoot(at(1, 1)).is_ok());
    let cell = board.get_coord(at(1, 1)).unwrap();
    assert!(cell.hit());
    let ship = cell.ship().unwrap();
    assert_eq!(*ship.id(), Ship::Cruiser);
    assert_eq!(*ship.coords(), line_of(&[(0, 1), (1, 1), (2, 1)]));
    assert!(!ship.sunk());
    let copy = ship.clone();
    assert_eq!(*copy.id(), Ship::Cruiser);
    let other = board.get_coord(at(0, 0)).unwrap();
    assert!(!other.hit());
    assert_eq!(*other.ship().unwrap().id(), Ship::Destroyer);
    assert!(board.get_coord(at(0, 10)).is_none());
    assert!(board.get_ship(&Ship::Carrier).is_none());
}

#[test]
fn outcome_names_the_ship_that_was_hit() {
    assert_eq!(ShotOutcome::<Ship>::Miss.ship(), None);
    assert_eq!(ShotOutcome::Hit(Ship::Cruiser).ship(), Some(&Ship::Cruiser));
    assert_eq!(ShotOutcome::Sunk(Ship::Carrier).ship(), Some(&Ship::Carrier));
    assert_eq!(ShotOutcome::Defeated(Ship::Destroyer).ship(), Some(&Ship::Destroyer));
    assert_eq!(ShotOutcome::<Ship>::Miss.into_ship(), None);
    assert_eq!(ShotOutcome::Hit(Ship::Cruiser).into_ship(), Some(Ship::Cruiser));
    assert_eq!(ShotOutcome::Sunk(Ship::Carrier).into_ship(), Some(Ship::Carrier));
    assert_eq!(ShotOutcome::Defeated(Ship::Destroyer).into_ship(), Some(Ship::Destroyer));
}

#[test]
fn shot_error_holds_reason_and_coordinate() {
    let err = ShotError::new(CannotShootReason::AlreadyShot, at(3, 4));
    assert_eq!(err.reason(), CannotShootReason::AlreadyShot);
    assert_eq!(*err.coord(), at(3, 4));
    assert_eq!(err.into_coord(), at(3, 4));
}
