use spacebattleship::board::rectangular::Coordinate;
use spacebattleship::console::{
    apply_command, board_line, faulty_coordinate, faulty_word, fire, header_line, hidden_cell,
    interpret_command, interpret_faulty_coordinate, interpret_faulty_word, interpret_place,
    interpret_target,
    interpret_unplace, parse_command, parse_direction, parse_first_player_answer,
    parse_first_player_flag, parse_ship, parse_target, read_coord, revealed_cell,
    setup_cell_text, ship_abbreviation, ship_name, try_random_placement, CellView, Command,
    CommandError, CoordinateError, FirstPlayer, SetupReply, TargetError, TurnCommand,
};
use spacebattleship::game::simple::{
    CannotShootReason, Game, GameSetup, Orientation, Player, Ship, ShotOutcome,
};

fn at(x: usize, y: usize) -> Coordinate {
    Coordinate::new(x, y)
}

fn groups(texts: &[Option<&str>]) -> Vec<Option<String>> {
    texts.iter().map(|text| text.map(|t| t.to_string())).collect()
}

fn all_ships() -> [Ship; 5] {
    [Ship::Carrier, Ship::Battleship, Ship::Cruiser, Ship::Submarine, Ship::Destroyer]
}

fn started() -> Game {
    let mut setup = GameSetup::new();
    for player in [Player::P1, Player::P2] {
        for (row, ship) in all_ships().iter().enumerate() {
            assert_eq!(
                apply_command(
                    &mut setup,
                    player,
                    Command::Place(*ship, at(0, row), Orientation::Right)
                ),
                SetupReply::Placed
            );
        }
    }
    match setup.start() {
        Ok(game) => game,
        Err(_) => panic!("did not start"),
    }
}

#[test]
fn first_player_flag_values() {
    assert_eq!(parse_first_player_flag("human"), Some(FirstPlayer::Human));
    assert_eq!(parse_first_player_flag("me"), Some(FirstPlayer::Human));
    assert_eq!(parse_first_player_flag("computer"), Some(FirstPlayer::Computer));
    assert_eq!(parse_first_player_flag("bot"), Some(FirstPlayer::Computer));
    assert_eq!(parse_first_player_flag("random"), Some(FirstPlayer::Random));
    assert_eq!(parse_first_player_flag("rand"), Some(FirstPlayer::Random));
    assert_eq!(parse_first_player_flag("Human"), None);
    assert_eq!(parse_first_player_flag(""), None);
    assert_eq!(parse_first_player_flag("robot"), None);
}

#[test]
fn first_player_answers() {
    for yes in ["yes", "y", "first", "1", "1st", ""] {
        assert_eq!(parse_first_player_answer(yes), Some(Player::P1));
    }
    for no in ["no", "n", "second", "2", "2nd"] {
        assert_eq!(parse_first_player_answer(no), Some(Player::P2));
    }
    for other in ["maybe", "3", " yes", "yes ", "YES"] {
        assert_eq!(parse_first_player_answer(other), None);
    }
}

#[test]
fn ship_names_and_abbreviations() {
    assert_eq!(parse_ship("cv"), Some(Ship::Carrier));
    assert_eq!(parse_ship("carrier"), Some(Ship::Carrier));
    assert_eq!(parse_ship("bb"), Some(Ship::Battleship));
    assert_eq!(parse_ship("battleship"), Some(Ship::Battleship));
    assert_eq!(parse_ship("ca"), Some(Ship::Cruiser));
    assert_eq!(parse_ship("cl"), Some(Ship::Cruiser));
    assert_eq!(parse_ship("cruiser"), Some(Ship::Cruiser));
    assert_eq!(parse_ship("ss"), Some(Ship::Submarine));
    assert_eq!(parse_ship("sub"), Some(Ship::Submarine));
    assert_eq!(parse_ship("submarine"), Some(Ship::Submarine));
    assert_eq!(parse_ship("dd"), Some(Ship::Destroyer));
    assert_eq!(parse_ship("destroyer"), Some(Ship::Destroyer));
    assert_eq!(parse_ship("all"), None);
    assert_eq!(parse_ship("c"), None);
    assert_eq!(parse_ship(""), None);
    assert_eq!(parse_ship("Carrier"), None);
    for ship in all_ships() {
        assert_eq!(parse_ship(ship_name(ship)), Some(ship));
        assert_eq!(parse_ship(ship_abbreviation(ship)), Some(ship));
    }
    assert_eq!(ship_name(Ship::Carrier), "carrier");
    assert_eq!(ship_name(Ship::Battleship), "battleship");
    assert_eq!(ship_name(Ship::Cruiser), "cruiser");
    assert_eq!(ship_name(Ship::Submarine), "submarine");
    assert_eq!(ship_name(Ship::Destroyer), "destroyer");
    assert_eq!(ship_abbreviation(Ship::Carrier), "cv");
    assert_eq!(ship_abbreviation(Ship::Battleship), "bb");
    assert_eq!(ship_abbreviation(Ship::Cruiser), "cl");
    assert_eq!(ship_abbreviation(Ship::Submarine), "ss");
    assert_eq!(ship_abbreviation(Ship::Destroyer), "dd");
}

#[test]
fn direction_names() {
    for up in ["up", "north", "u", "n"] {
        assert_eq!(parse_direction(up), Some(Orientation::Up));
    }
    for down in ["down", "south", "d", "s"] {
        assert_eq!(parse_direction(down), Some(Orientation::Down));
    }
    for left in ["left", "west", "l", "w"] {
        assert_eq!(parse_direction(left), Some(Orientation::Left));
    }
    for right in ["right", "east", "r", "e"] {
        assert_eq!(parse_direction(right), Some(Orientation::Right));
    }
    assert_eq!(parse_direction("sideways"), None);
    assert_eq!(parse_direction(""), None);
    assert_eq!(parse_direction("UP"), None);
}

#[test]
fn coordinates_are_numbers_from_zero_to_nine() {
    assert_eq!(read_coord("0"), Ok(0));
    assert_eq!(read_coord("7"), Ok(7));
    assert_eq!(read_coord("9"), Ok(9));
    assert_eq!(read_coord("007"), Ok(7));
    assert_eq!(read_coord("+3"), Ok(3));
    assert_eq!(read_coord("10"), Err(CoordinateError::OutOfRange));
    assert_eq!(read_coord("255"), Err(CoordinateError::OutOfRange));
    assert_eq!(read_coord("18446744073709551615"), Err(CoordinateError::OutOfRange));
    assert_eq!(
        read_coord("340282366920938463463374607431768211456"),
        Err(CoordinateError::NotANumber)
    );
    assert_eq!(read_coord(""), Err(CoordinateError::NotANumber));
    assert_eq!(read_coord("+"), Err(CoordinateError::NotANumber));
    assert_eq!(read_coord("-1"), Err(CoordinateError::NotANumber));
    assert_eq!(read_coord("x"), Err(CoordinateError::NotANumber));
    assert_eq!(read_coord("3a"), Err(CoordinateError::NotANumber));
    assert_eq!(read_coord(" 3"), Err(CoordinateError::NotANumber));
    assert_eq!(read_coord("++3"), Err(CoordinateError::NotANumber));
}

#[test]
fn fixed_words_are_commands() {
    for help in ["?", "help", "h"] {
        assert_eq!(parse_command(help), Ok(Command::Help));
    }
    for randomize in ["randomize", "rand", "random"] {
        assert_eq!(parse_command(randomize), Ok(Command::RandomizeRest));
    }
    for done in ["done", "start"] {
        assert_eq!(parse_command(done), Ok(Command::Done));
    }
    assert_eq!(parse_command("clear"), Ok(Command::Clear));
}

#[test]
fn place_command_is_read() {
    let expected = Ok(Command::Place(Ship::Carrier, at(3, 4), Orientation::Up));
    assert_eq!(parse_command("place carrier 3,4 up"), expected);
    assert_eq!(parse_command("put cv 3 4 n"), expected);
    assert_eq!(parse_command("place cv at 3 , 4 north"), expected);
    assert_eq!(parse_command("place cv on 3, 4 u"), expected);
    assert_eq!(parse_command("put   cv   to   3   4   up"), expected);
    assert_eq!(parse_command("place cv -> 3,4 up"), expected);
    assert_eq!(parse_command("place cv => 3,4 up"), expected);
    assert_eq!(
        parse_command("place dd 0,9 east"),
        Ok(Command::Place(Ship::Destroyer, at(0, 9), Orientation::Right))
    );
    assert_eq!(
        parse_command("place sub 9 0 w"),
        Ok(Command::Place(Ship::Submarine, at(9, 0), Orientation::Left))
    );
    assert_eq!(
        parse_command("put bb 5,5 south"),
        Ok(Command::Place(Ship::Battleship, at(5, 5), Orientation::Down))
    );
}

#[test]
fn place_command_errors_name_the_first_fault() {
    assert_eq!(parse_command("place boat 3,4 up"), Err(CommandError::InvalidShip));
    assert_eq!(parse_command("place at 3,4 up"), Err(CommandError::InvalidShip));
    assert_eq!(parse_command("place boat 30,40 sideways"), Err(CommandError::InvalidShip));
    assert_eq!(
        parse_command("place cv 10,4 up"),
        Err(CommandError::InvalidX(CoordinateError::OutOfRange))
    );
    assert_eq!(
        parse_command("place cv 99999999999999999999999,4 up"),
        Err(CommandError::InvalidX(CoordinateError::NotANumber))
    );
    assert_eq!(
        parse_command("place cv 3,10 sideways"),
        Err(CommandError::InvalidY(CoordinateError::OutOfRange))
    );
    assert_eq!(parse_command("place cv 3,4 sideways"), Err(CommandError::InvalidDirection));
    assert_eq!(parse_command("place cv 3,4"), Err(CommandError::Unrecognized));
    assert_eq!(parse_command("place cv,3 4 up"), Err(CommandError::Unrecognized));
    assert_eq!(parse_command("place cv 3,4,up"), Err(CommandError::Unrecognized));
    assert_eq!(parse_command("placecv 3,4 up"), Err(CommandError::Unrecognized));
    assert_eq!(parse_command("place cv at at 3,4 up"), Err(CommandError::Unrecognized));
    assert_eq!(parse_command("place cv -3,4 up"), Err(CommandError::Unrecognized));
    assert_eq!(parse_command("place cv 3,4 up now"), Err(CommandError::Unrecognized));
    assert_eq!(parse_command("fire 3,4"), Err(CommandError::Unrecognized));
    assert_eq!(parse_command(""), Err(CommandError::Unrecognized));
}

#[test]
fn unplace_command_is_read() {
    assert_eq!(parse_command("unplace cv"), Ok(Command::Unplace(Ship::Carrier)));
    assert_eq!(parse_command("un-place destroyer"), Ok(Command::Unplace(Ship::Destroyer)));
    assert_eq!(parse_command("remove   ss"), Ok(Command::Unplace(Ship::Submarine)));
    assert_eq!(parse_command("unplace all"), Ok(Command::Clear));
    assert_eq!(parse_command("remove all"), Ok(Command::Clear));
    assert_eq!(parse_command("unplace boat"), Err(CommandError::InvalidShip));
    assert_eq!(parse_command("unplace"), Err(CommandError::Unrecognized));
    assert_eq!(parse_command("unplace cv dd"), Err(CommandError::Unrecognized));
    assert_eq!(parse_command("un--place cv"), Err(CommandError::Unrecognized));
}

#[test]
fn captured_groups_are_interpreted() {
    let place = groups(&[Some("place cv 3,4 up"), Some("cv"), Some("3"), Some("4"), Some("up")]);
    assert_eq!(
        interpret_place(&place),
        Ok(Command::Place(Ship::Carrier, at(3, 4), Orientation::Up))
    );
    assert_eq!(
        interpret_place(&groups(&[None, Some("dd"), Some("+1"), Some("09"), Some("e")])),
        Ok(Command::Place(Ship::Destroyer, at(1, 9), Orientation::Right))
    );
    assert_eq!(
        interpret_place(&groups(&[None, Some("cv"), Some("3"), None, Some("up")])),
        Err(CommandError::Unrecognized)
    );
    assert_eq!(
        interpret_place(&groups(&[None, Some("cv"), Some("3"), Some("4")])),
        Err(CommandError::Unrecognized)
    );
    assert_eq!(interpret_place(&groups(&[])), Err(CommandError::Unrecognized));
    assert_eq!(
        interpret_place(&groups(&[None, Some("xx"), Some("a"), Some("b"), Some("c")])),
        Err(CommandError::InvalidShip)
    );
    assert_eq!(
        interpret_place(&groups(&[None, Some("cv"), Some("a"), Some("b"), Some("c")])),
        Err(CommandError::InvalidX(CoordinateError::NotANumber))
    );
    assert_eq!(
        interpret_place(&groups(&[None, Some("cv"), Some("1"), Some("b"), Some("c")])),
        Err(CommandError::InvalidY(CoordinateError::NotANumber))
    );
    assert_eq!(
        interpret_place(&groups(&[None, Some("cv"), Some("1"), Some("2"), Some("c")])),
        Err(CommandError::InvalidDirection)
    );
    assert_eq!(
        interpret_unplace(&groups(&[Some("unplace bb"), Some("bb")])),
        Ok(Command::Unplace(Ship::Battleship))
    );
    assert_eq!(interpret_unplace(&groups(&[None, Some("all")])), Ok(Command::Clear));
    assert_eq!(interpret_unplace(&groups(&[None, Some("x")])), Err(CommandError::InvalidShip));
    assert_eq!(interpret_unplace(&groups(&[None, None])), Err(CommandError::Unrecognized));
    assert_eq!(interpret_unplace(&groups(&[None])), Err(CommandError::Unrecognized));
}

#[test]
fn fixed_words_come_before_the_patterns() {
    let place =
        Some(groups(&[None, Some("cv"), Some("3"), Some("4"), Some("up")]));
    let unplace = Some(groups(&[None, Some("dd")]));
    assert_eq!(interpret_command("help", &place, &unplace), Ok(Command::Help));
    assert_eq!(interpret_command("clear", &place, &unplace), Ok(Command::Clear));
    assert_eq!(
        interpret_command("anything", &place, &unplace),
        Ok(Command::Place(Ship::Carrier, at(3, 4), Orientation::Up))
    );
    assert_eq!(
        interpret_command("anything", &None, &unplace),
        Ok(Command::Unplace(Ship::Destroyer))
    );
    assert_eq!(interpret_command("anything", &None, &None), Err(CommandError::Unrecognized));
}

#[test]
fn targets_are_read() {
    assert_eq!(parse_target("3,4"), Ok(TurnCommand::Fire(at(3, 4))));
    assert_eq!(parse_target("3 4"), Ok(TurnCommand::Fire(at(3, 4))));
    assert_eq!(parse_target("3 , 4"), Ok(TurnCommand::Fire(at(3, 4))));
    assert_eq!(parse_target("0,9"), Ok(TurnCommand::Fire(at(0, 9))));
    assert_eq!(parse_target("help"), Ok(TurnCommand::Help));
    assert_eq!(parse_target("?"), Ok(TurnCommand::Help));
    assert_eq!(parse_target("10,4"), Err(TargetError::InvalidX(CoordinateError::OutOfRange)));
    assert_eq!(parse_target("3,10"), Err(TargetError::InvalidY(CoordinateError::OutOfRange)));
    assert_eq!(parse_target("34"), Err(TargetError::Unrecognized));
    assert_eq!(parse_target("3,4,5"), Err(TargetError::Unrecognized));
    assert_eq!(parse_target("a,b"), Err(TargetError::Unrecognized));
    assert_eq!(parse_target(""), Err(TargetError::Unrecognized));
    assert_eq!(
        interpret_target("x", &Some(groups(&[None, Some("1"), Some("2")]))),
        Ok(TurnCommand::Fire(at(1, 2)))
    );
    assert_eq!(
        interpret_target("x", &Some(groups(&[None, Some("1")]))),
        Err(TargetError::Unrecognized)
    );
    assert_eq!(interpret_target("x", &None), Err(TargetError::Unrecognized));
    assert_eq!(
        interpret_target("?", &Some(groups(&[None, Some("1"), Some("2")]))),
        Ok(TurnCommand::Help)
    );
}

#[test]
fn place_command_places_and_replaces() {
    let mut setup = GameSetup::new();
    let place = Command::Place(Ship::Carrier, at(0, 0), Orientation::Right);
    assert_eq!(apply_command(&mut setup, Player::P1, place), SetupReply::Placed);
    assert_eq!(
        *setup.get_placement(Player::P1, Ship::Carrier).unwrap().coords(),
        vec![at(0, 0), at(1, 0), at(2, 0), at(3, 0), at(4, 0)]
    );
    let moved = Command::Place(Ship::Carrier, at(2, 0), Orientation::Down);
    assert_eq!(apply_command(&mut setup, Player::P1, moved), SetupReply::Placed);
    assert_eq!(
        *setup.get_placement(Player::P1, Ship::Carrier).unwrap().coords(),
        vec![at(2, 0), at(2, 1), at(2, 2), at(2, 3), at(2, 4)]
    );
    assert_eq!(setup.iter_board(Player::P1)[0][0], None);
    let onto_itself = Command::Place(Ship::Carrier, at(2, 4), Orientation::Up);
    assert_eq!(apply_command(&mut setup, Player::P1, onto_itself), SetupReply::Placed);
    assert!(setup.get_placement(Player::P2, Ship::Carrier).is_none());
}

#[test]
fn failed_placement_leaves_the_ship_off_the_board() {
    let mut setup = GameSetup::new();
    assert_eq!(
        apply_command(
            &mut setup,
            Player::P1,
            Command::Place(Ship::Carrier, at(0, 0), Orientation::Right)
        ),
        SetupReply::Placed
    );
    assert_eq!(
        apply_command(
            &mut setup,
            Player::P1,
            Command::Place(Ship::Cruiser, at(2, 2), Orientation::Up)
        ),
        SetupReply::Overlaps
    );
    assert!(setup.get_placement(Player::P1, Ship::Cruiser).is_none());
    assert_eq!(
        apply_command(
            &mut setup,
            Player::P1,
            Command::Place(Ship::Cruiser, at(9, 9), Orientation::Right)
        ),
        SetupReply::NoSpace
    );
    assert_eq!(
        apply_command(
            &mut setup,
            Player::P1,
            Command::Place(Ship::Carrier, at(7, 0), Orientation::Right)
        ),
        SetupReply::NoSpace
    );
    assert!(setup.get_placement(Player::P1, Ship::Carrier).is_none());
    assert!(setup.iter_board(Player::P1).iter().all(|row| row.iter().all(|c| c.is_none())));
}

#[test]
fn unplace_clear_and_done_commands() {
    let mut setup = GameSetup::new();
    assert_eq!(apply_command(&mut setup, Player::P2, Command::Done), SetupReply::NotReady);
    for (row, ship) in all_ships().iter().enumerate() {
        let place = Command::Place(*ship, at(9, row), Orientation::Left);
        assert_eq!(apply_command(&mut setup, Player::P2, place), SetupReply::Placed);
    }
    assert_eq!(apply_command(&mut setup, Player::P2, Command::Done), SetupReply::Start);
    assert_eq!(apply_command(&mut setup, Player::P1, Command::Done), SetupReply::NotReady);
    assert_eq!(
        apply_command(&mut setup, Player::P2, Command::Unplace(Ship::Cruiser)),
        SetupReply::Unplaced
    );
    assert_eq!(setup.get_pending_ships(Player::P2), vec![Ship::Cruiser]);
    assert_eq!(
        apply_command(&mut setup, Player::P2, Command::Unplace(Ship::Cruiser)),
        SetupReply::Unplaced
    );
    assert_eq!(apply_command(&mut setup, Player::P2, Command::Done), SetupReply::NotReady);
    assert_eq!(apply_command(&mut setup, Player::P2, Command::Help), SetupReply::Help);
    assert_eq!(
        apply_command(&mut setup, Player::P2, Command::RandomizeRest),
        SetupReply::Randomize
    );
    assert_eq!(setup.get_pending_ships(Player::P2), vec![Ship::Cruiser]);
    assert_eq!(apply_command(&mut setup, Player::P2, Command::Clear), SetupReply::Cleared);
    assert_eq!(setup.get_pending_ships(Player::P2), all_ships().to_vec());
    assert!(setup.iter_board(Player::P2).iter().all(|row| row.iter().all(|c| c.is_none())));
}

#[test]
fn random_placement_settles_when_the_ship_has_a_place() {
    let mut setup = GameSetup::new();
    assert!(!try_random_placement(
        &mut setup,
        Player::P1,
        Ship::Carrier,
        at(8, 8),
        Orientation::Right
    ));
    assert!(setup.get_placement(Player::P1, Ship::Carrier).is_none());
    assert!(try_random_placement(
        &mut setup,
        Player::P1,
        Ship::Carrier,
        at(8, 8),
        Orientation::Left
    ));
    assert!(try_random_placement(
        &mut setup,
        Player::P1,
        Ship::Carrier,
        at(0, 0),
        Orientation::Down
    ));
    assert_eq!(
        *setup.get_placement(Player::P1, Ship::Carrier).unwrap().coords(),
        vec![at(8, 8), at(7, 8), at(6, 8), at(5, 8), at(4, 8)]
    );
    assert!(!try_random_placement(
        &mut setup,
        Player::P1,
        Ship::Destroyer,
        at(6, 9),
        Orientation::Up
    ));
    assert!(setup.get_placement(Player::P1, Ship::Destroyer).is_none());
}

#[test]
fn taken_shots_pass_the_turn_on() {
    let mut game = started();
    assert_eq!(game.current(), Player::P1);
    assert_eq!(fire(&mut game, Player::P2, at(0, 0)), Err(CannotShootReason::OutOfTurn));
    assert_eq!(game.current(), Player::P1);
    assert_eq!(fire(&mut game, Player::P1, at(9, 9)), Ok(ShotOutcome::Miss));
    assert_eq!(game.current(), Player::P2);
    assert_eq!(fire(&mut game, Player::P2, at(0, 4)), Ok(ShotOutcome::Hit(Ship::Destroyer)));
    assert_eq!(game.current(), Player::P1);
    assert_eq!(fire(&mut game, Player::P1, at(9, 9)), Err(CannotShootReason::AlreadyShot));
    assert_eq!(fire(&mut game, Player::P1, at(9, 10)), Err(CannotShootReason::OutOfBounds));
    assert_eq!(game.current(), Player::P1);
    assert_eq!(fire(&mut game, Player::P1, at(0, 4)), Ok(ShotOutcome::Hit(Ship::Destroyer)));
    assert_eq!(fire(&mut game, Player::P2, at(1, 4)), Ok(ShotOutcome::Sunk(Ship::Destroyer)));
    assert_eq!(game.current(), Player::P1);
    assert!(game.get_ship(Player::P1, Ship::Destroyer).sunk());
    assert!(!game.get_ship(Player::P2, Ship::Destroyer).sunk());
}

#[test]
fn cells_are_shown_by_what_is_known_of_them() {
    let mut game = started();
    assert_eq!(game.shoot(Player::P2, at(9, 9)), Ok(ShotOutcome::Miss));
    assert_eq!(game.shoot(Player::P2, at(0, 0)), Ok(ShotOutcome::Hit(Ship::Carrier)));
    assert_eq!(game.shoot(Player::P2, at(0, 4)), Ok(ShotOutcome::Hit(Ship::Destroyer)));
    assert_eq!(game.shoot(Player::P2, at(1, 4)), Ok(ShotOutcome::Sunk(Ship::Destroyer)));
    let water = game.get_coord(Player::P2, at(5, 5)).unwrap();
    let miss = game.get_coord(Player::P2, at(9, 9)).unwrap();
    let ship = game.get_coord(Player::P2, at(1, 0)).unwrap();
    let hit = game.get_coord(Player::P2, at(0, 0)).unwrap();
    let sunk = game.get_coord(Player::P2, at(0, 4)).unwrap();
    assert_eq!(revealed_cell(&water), CellView::Empty);
    assert_eq!(revealed_cell(&miss), CellView::Miss);
    assert_eq!(revealed_cell(&ship), CellView::NotShot(Ship::Carrier));
    assert_eq!(revealed_cell(&hit), CellView::Hit(Ship::Carrier));
    assert_eq!(revealed_cell(&sunk), CellView::Sunk(Ship::Destroyer));
    assert_eq!(hidden_cell(&water), CellView::Empty);
    assert_eq!(hidden_cell(&miss), CellView::Miss);
    assert_eq!(hidden_cell(&ship), CellView::Empty);
    assert_eq!(hidden_cell(&hit), CellView::Hit(Ship::Carrier));
    assert_eq!(hidden_cell(&sunk), CellView::Sunk(Ship::Destroyer));
    let rows = game.iter_board(Player::P2);
    assert_eq!(revealed_cell(&rows[3][2]), CellView::NotShot(Ship::Submarine));
    assert_eq!(hidden_cell(&rows[3][2]), CellView::Empty);
    assert_eq!(revealed_cell(&rows[4][1]), CellView::Sunk(Ship::Destroyer));
}

#[test]
fn cell_texts() {
    assert_eq!(CellView::Empty.text(), "~~");
    assert_eq!(CellView::Miss.text(), "x");
    let abbreviations = ["cv", "bb", "cl", "ss", "dd"];
    for (ship, abbreviation) in all_ships().iter().zip(abbreviations.iter()) {
        assert_eq!(CellView::NotShot(*ship).text(), *abbreviation);
        assert_eq!(CellView::Hit(*ship).text(), format!("x{}", abbreviation));
        assert_eq!(CellView::Sunk(*ship).text(), format!("X{}", abbreviation));
        assert_eq!(setup_cell_text(Some(*ship)), *abbreviation);
    }
    assert_eq!(setup_cell_text(None), "~~");
}

fn text_of(line: Vec<char>) -> String {
    line.into_iter().collect()
}

#[test]
fn header_line_numbers_the_columns() {
    assert_eq!(text_of(header_line(10)), "    0   1   2   3   4   5   6   7   8   9  ");
    assert_eq!(text_of(header_line(0)), "   ");
    let mut expected = String::from("   ");
    for i in 0..12 {
        expected.push_str(&format!("{:^4}", i));
    }
    assert_eq!(text_of(header_line(12)), expected);
}

#[test]
fn board_line_centers_the_cells() {
    assert_eq!(
        text_of(board_line(3, &vec!["~~", "x", "cv", "xcv", "Xdd"])),
        " 3  ~~  x   cv xcv Xdd "
    );
    assert_eq!(text_of(board_line(0, &vec![])), " 0 ");
    assert_eq!(text_of(board_line(12, &vec!["x"])), "12  x  ");
    assert_eq!(text_of(board_line(123, &vec!["~~"])), "123  ~~ ");
    assert_eq!(text_of(board_line(7, &vec!["", "abcd", "abcde"])), " 7     abcdabcde");
    let texts = ["~~", "x", "cv", "bb", "cl", "ss", "dd", "xcv", "Xss", "xdd"];
    for row in 0..10 {
        let mut expected = format!("{:>2} ", row);
        for text in texts.iter() {
            expected.push_str(&format!("{:^4}", text));
        }
        assert_eq!(text_of(board_line(row, &texts.to_vec())), expected);
    }
}

#[test]
fn faulty_word_is_the_word_that_the_error_speaks_of() {
    let cases = [
        ("place boat 3,4 up", "boat"),
        ("place cv 10,4 up", "10"),
        ("place cv at 3 , 007x up", ""),
        ("place cv 3,44 up", "44"),
        ("put cv to 3 4 sideways", "sideways"),
        ("unplace boat", "boat"),
        ("remove   raft", "raft"),
    ];
    for (line, word) in cases {
        match parse_command(line) {
            Ok(_) => panic!("the line was read as a command"),
            Err(err) => {
                let expected = if err == CommandError::Unrecognized {
                    None
                } else {
                    Some(word.to_string())
                };
                assert_eq!(faulty_word(line, err), expected);
            }
        }
    }
    assert_eq!(
        parse_command("place cv at 3 , 007x up"),
        Err(CommandError::Unrecognized)
    );
    assert_eq!(faulty_word("fire", CommandError::InvalidShip), None);
    assert_eq!(faulty_word("place cv 3,4 up", CommandError::Unrecognized), None);
    assert_eq!(
        faulty_word("place cv 3,4 up", CommandError::InvalidDirection),
        Some("up".to_string())
    );
    let place = Some(groups(&[None, Some("a"), Some("b"), Some("c"), Some("d")]));
    let unplace = Some(groups(&[None, Some("e")]));
    let x = CommandError::InvalidX(CoordinateError::NotANumber);
    let y = CommandError::InvalidY(CoordinateError::OutOfRange);
    assert_eq!(
        interpret_faulty_word(&place, &unplace, CommandError::InvalidShip),
        Some("a".to_string())
    );
    assert_eq!(interpret_faulty_word(&place, &unplace, x), Some("b".to_string()));
    assert_eq!(interpret_faulty_word(&place, &unplace, y), Some("c".to_string()));
    assert_eq!(
        interpret_faulty_word(&place, &unplace, CommandError::InvalidDirection),
        Some("d".to_string())
    );
    assert_eq!(interpret_faulty_word(&place, &unplace, CommandError::Unrecognized), None);
    assert_eq!(
        interpret_faulty_word(&None, &unplace, CommandError::InvalidShip),
        Some("e".to_string())
    );
    assert_eq!(interpret_faulty_word(&None, &unplace, x), None);
    assert_eq!(interpret_faulty_word(&None, &None, CommandError::InvalidShip), None);
    assert_eq!(
        interpret_faulty_word(&Some(groups(&[None])), &unplace, CommandError::InvalidShip),
        None
    );
}

#[test]
fn faulty_coordinate_is_the_coordinate_that_the_error_speaks_of() {
    let x = TargetError::InvalidX(CoordinateError::OutOfRange);
    let y = TargetError::InvalidY(CoordinateError::OutOfRange);
    assert_eq!(parse_target("12,3"), Err(x));
    assert_eq!(faulty_coordinate("12,3", x), Some("12".to_string()));
    assert_eq!(parse_target("1 , 30"), Err(y));
    assert_eq!(faulty_coordinate("1 , 30", y), Some("30".to_string()));
    assert_eq!(faulty_coordinate("1 , 30", TargetError::Unrecognized), None);
    assert_eq!(faulty_coordinate("nowhere", x), None);
    let captures = Some(groups(&[None, Some("a"), Some("b")]));
    assert_eq!(interpret_faulty_coordinate(&captures, x), Some("a".to_string()));
    assert_eq!(interpret_faulty_coordinate(&captures, y), Some("b".to_string()));
    assert_eq!(interpret_faulty_coordinate(&captures, TargetError::Unrecognized), None);
    assert_eq!(interpret_faulty_coordinate(&None, x), None);
}
