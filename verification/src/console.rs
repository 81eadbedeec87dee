//! The text front end of the simple game: what the lines that a player types
//! mean, what a command does to the game, and how the cells of a board are
//! shown. Reading lines and printing is left to the program around the
//! library.
use vstd::pervasive::unreached;
use vstd::prelude::*;
use vstd::string::StrSliceExecFns;

use crate::board::rectangular::{Coordinate, RectDimensions};
use crate::board::setup::SetupModel;
use crate::game::simple::straight::line_cells;
use crate::game::simple::{
    lemma_player_slot, lemma_ship_slot, lemma_shot_in_simple_game, place_result, shot_result,
    standard_game, with_board, CannotPlaceReason, CannotShootReason, CellRef, Game, GameSetup,
    Orientation, Player, Ship, ShotOutcome,
};
use crate::game::uniform::{GameModel, GameSetupModel};
use crate::ships::Line;

verus! {

/// Who moves first, as chosen on the command line.
#[derive(Debug, Copy, Clone, Eq, PartialEq, Structural)]
pub enum FirstPlayer {
    /// The human player moves first.
    Human,
    /// The computer moves first.
    Computer,
    /// Chance decides.
    Random,
}

/// Whether the text is the given word.
fn is_word(text: &str, word: &str) -> (r: bool)
    ensures
        r == (text@ == word@),
{
    text.to_owned() == word.to_owned()
}

/// What a value of the first-player flag, in lower case, stands for.
pub open spec fn spec_first_player_flag(value: Seq<char>) -> Option<FirstPlayer> {
    if value == "human"@ || value == "me"@ {
        Some(FirstPlayer::Human)
    } else if value == "computer"@ || value == "bot"@ {
        Some(FirstPlayer::Computer)
    } else if value == "random"@ || value == "rand"@ {
        Some(FirstPlayer::Random)
    } else {
        None
    }
}

/// Read a value of the first-player flag, in lower case: `human` or `me`,
/// `computer` or `bot`, `random` or `rand`.
pub fn parse_first_player_flag(value: &str) -> (r: Option<FirstPlayer>)
    ensures
        r == spec_first_player_flag(value@),
{
    if is_word(value, "human") || is_word(value, "me") {
        Some(FirstPlayer::Human)
    } else if is_word(value, "computer") || is_word(value, "bot") {
        Some(FirstPlayer::Computer)
    } else if is_word(value, "random") || is_word(value, "rand") {
        Some(FirstPlayer::Random)
    } else {
        None
    }
}

/// Which player the human is, given the answer, trimmed and in lower case, to
/// the question whether they want to go first.
pub open spec fn spec_first_player_answer(input: Seq<char>) -> Option<Player> {
    if input == "yes"@ || input == "y"@ || input == "first"@ || input == "1"@ || input == "1st"@
        || input == ""@ {
        Some(Player::P1)
    } else if input == "no"@ || input == "n"@ || input == "second"@ || input == "2"@ || input
        == "2nd"@ {
        Some(Player::P2)
    } else {
        None
    }
}

/// Read the answer, trimmed and in lower case, to the question whether the
/// human wants to go first. An empty answer means yes.
pub fn parse_first_player_answer(input: &str) -> (r: Option<Player>)
    ensures
        r == spec_first_player_answer(input@),
{
    if is_word(input, "yes") || is_word(input, "y") || is_word(input, "first") || is_word(
        input,
        "1",
    ) || is_word(input, "1st") || is_word(input, "") {
        Some(Player::P1)
    } else if is_word(input, "no") || is_word(input, "n") || is_word(input, "second") || is_word(
        input,
        "2",
    ) || is_word(input, "2nd") {
        Some(Player::P2)
    } else {
        None
    }
}

/// The ship that a name or abbreviation stands for.
pub open spec fn spec_parse_ship(name: Seq<char>) -> Option<Ship> {
    if name == "cv"@ || name == "carrier"@ {
        Some(Ship::Carrier)
    } else if name == "bb"@ || name == "battleship"@ {
        Some(Ship::Battleship)
    } else if name == "ca"@ || name == "cl"@ || name == "cruiser"@ {
        Some(Ship::Cruiser)
    } else if name == "ss"@ || name == "sub"@ || name == "submarine"@ {
        Some(Ship::Submarine)
    } else if name == "dd"@ || name == "destroyer"@ {
        Some(Ship::Destroyer)
    } else {
        None
    }
}

/// Read the name or abbreviation of a ship.
pub fn parse_ship(name: &str) -> (r: Option<Ship>)
    ensures
        r == spec_parse_ship(name@),
{
    if is_word(name, "cv") || is_word(name, "carrier") {
        Some(Ship::Carrier)
    } else if is_word(name, "bb") || is_word(name, "battleship") {
        Some(Ship::Battleship)
    } else if is_word(name, "ca") || is_word(name, "cl") || is_word(name, "cruiser") {
        Some(Ship::Cruiser)
    } else if is_word(name, "ss") || is_word(name, "sub") || is_word(name, "submarine") {
        Some(Ship::Submarine)
    } else if is_word(name, "dd") || is_word(name, "destroyer") {
        Some(Ship::Destroyer)
    } else {
        None
    }
}

/// The orientation that a name or abbreviation stands for.
pub open spec fn spec_parse_direction(name: Seq<char>) -> Option<Orientation> {
    if name == "up"@ || name == "north"@ || name == "u"@ || name == "n"@ {
        Some(Orientation::Up)
    } else if name == "down"@ || name == "south"@ || name == "d"@ || name == "s"@ {
        Some(Orientation::Down)
    } else if name == "left"@ || name == "west"@ || name == "l"@ || name == "w"@ {
        Some(Orientation::Left)
    } else if name == "right"@ || name == "east"@ || name == "r"@ || name == "e"@ {
        Some(Orientation::Right)
    } else {
        None
    }
}

/// Read the name or abbreviation of a direction.
pub fn parse_direction(name: &str) -> (r: Option<Orientation>)
    ensures
        r == spec_parse_direction(name@),
{
    if is_word(name, "up") || is_word(name, "north") || is_word(name, "u") || is_word(name, "n") {
        Some(Orientation::Up)
    } else if is_word(name, "down") || is_word(name, "south") || is_word(name, "d") || is_word(
        name,
        "s",
    ) {
        Some(Orientation::Down)
    } else if is_word(name, "left") || is_word(name, "west") || is_word(name, "l") || is_word(
        name,
        "w",
    ) {
        Some(Orientation::Left)
    } else if is_word(name, "right") || is_word(name, "east") || is_word(name, "r") || is_word(
        name,
        "e",
    ) {
        Some(Orientation::Right)
    } else {
        None
    }
}

/// The value of a decimal digit.
pub open spec fn digit_value(c: char) -> Option<nat> {
    if '0' <= c <= '9' {
        Some((c as u32 - '0' as u32) as nat)
    } else {
        None
    }
}

/// The number that a nonempty sequence of decimal digits denotes.
pub open spec fn decimal_value(digits: Seq<char>) -> Option<nat>
    decreases digits.len(),
{
    if digits.len() == 0 {
        None
    } else {
        match digit_value(digits.last()) {
            None => None,
            Some(digit) => if digits.len() == 1 {
                Some(digit)
            } else {
                match decimal_value(digits.drop_last()) {
                    Some(value) => Some(value * 10 + digit),
                    None => None,
                }
            },
        }
    }
}

/// The number that a text denotes: decimal digits, with a plus sign in front
/// of them or without.
pub open spec fn number_value(text: Seq<char>) -> Option<nat> {
    if text.len() > 0 && text[0] == '+' {
        decimal_value(text.skip(1))
    } else {
        decimal_value(text)
    }
}

/// What the digits seen so far denote is no more than what all of them
/// denote, and where the whole denotes a number, so does each beginning.
proof fn lemma_decimal_prefix(digits: Seq<char>, seen: int)
    requires
        1 <= seen <= digits.len(),
    ensures
        decimal_value(digits) matches Some(value) ==> decimal_value(digits.take(seen)) matches Some(
            part,
        ) && part <= value,
    decreases digits.len() - seen,
{
    if seen < digits.len() {
        assert(digits.drop_last().take(seen) =~= digits.take(seen));
        lemma_decimal_prefix(digits.drop_last(), seen);
    } else {
        assert(digits.take(seen) =~= digits);
    }
}

/// Why a text is not a coordinate of the ten by ten grid.
#[derive(Debug, Copy, Clone, Eq, PartialEq, Structural)]
pub enum CoordinateError {
    /// The text does not denote a number that fits an index.
    NotANumber,
    /// The number is not in the range from 0 to 9.
    OutOfRange,
}

/// The coordinate that a text denotes: a number from 0 to 9.
pub open spec fn spec_read_coord(src: Seq<char>) -> Result<usize, CoordinateError> {
    match number_value(src) {
        Some(value) => if value > usize::MAX {
            Err(CoordinateError::NotANumber)
        } else if value >= 10 {
            Err(CoordinateError::OutOfRange)
        } else {
            Ok(value as usize)
        },
        None => Err(CoordinateError::NotANumber),
    }
}

/// The number that the characters from `from` on denote, if they are decimal
/// digits and the number fits an index.
fn parse_digits(chars: &Vec<char>, from: usize) -> (r: Option<usize>)
    requires
        from <= chars.len(),
    ensures
        r == match decimal_value(chars@.skip(from as int)) {
            Some(value) => if value <= usize::MAX {
                Some(value as usize)
            } else {
                None
            },
            None => None,
        },
{
    let ghost digits = chars@.skip(from as int);
    if from == chars.len() {
        return None;
    }
    let mut value: usize = 0;
    let mut i: usize = from;
    while i < chars.len()
        invariant
            from <= i <= chars.len(),
            from < chars.len(),
            digits == chars@.skip(from as int),
            i > from ==> decimal_value(digits.take(i - from)) == Some(value as nat),
            i == from ==> value == 0,
        decreases chars.len() - i,
    {
        let c = chars[i];
        let ghost longer = digits.take(i + 1 - from);
        proof {
            assert(longer.last() == c);
            assert(longer.drop_last() =~= digits.take(i - from));
            lemma_decimal_prefix(digits, i + 1 - from);
        }
        if c >= '0' && c <= '9' {
            let digit = (c as u32 - '0' as u32) as usize;
            if value > (usize::MAX - digit) / 10 {
                return None;
            }
            value = value * 10 + digit;
        } else {
            return None;
        }
        i += 1;
    }
    assert(digits.take(chars.len() - from) =~= digits);
    Some(value)
}

/// The characters of a text.
fn to_chars(text: &str) -> (chars: Vec<char>)
    ensures
        chars@ == text@,
{
    let len = text.unicode_len();
    let mut chars: Vec<char> = Vec::new();
    let mut i: usize = 0;
    while i < len
        invariant
            len == text@.len(),
            i <= len,
            chars@ == text@.take(i as int),
        decreases len - i,
    {
        chars.push(text.get_char(i));
        assert(text@.take(i + 1) =~= text@.take(i as int).push(text@[i as int]));
        i += 1;
    }
    assert(text@.take(len as int) =~= text@);
    chars
}

/// Read a single coordinate from a text: a number in the range from 0 to 9.
pub fn read_coord(src: &str) -> (r: Result<usize, CoordinateError>)
    ensures
        r == spec_read_coord(src@),
{
    let chars = to_chars(src);
    let from: usize = if chars.len() > 0 && chars[0] == '+' {
        1
    } else {
        0
    };
    assert(chars@.skip(0) =~= chars@);
    match parse_digits(&chars, from) {
        None => Err(CoordinateError::NotANumber),
        Some(value) => if value >= 10 {
            Err(CoordinateError::OutOfRange)
        } else {
            Ok(value)
        },
    }
}

/// The pattern of the command that places a ship: `place` or `put`, the ship,
/// an optional preposition, the two coordinates, separated by a comma or by
/// blanks, and the direction.
pub const PLACE_PATTERN: &'static str =
    r"^(?:place|put)\s+(?P<ship>\w+)\s+(?:(?:at|on|to|->|=>)\s+)?(?P<x>[0-9]+)(?:\s*,\s*|\s+)(?P<y>[0-9]+)\s+(?P<dir>\w+)$";

/// The pattern of the command that clears the placement of a ship:
/// `unplace` or `remove`, and the ship.
pub const UNPLACE_PATTERN: &'static str = r"^(?:un-?place|remove)\s+(?P<ship>\w+)$";

/// The pattern of a target: the two coordinates, separated by a comma or by
/// blanks.
pub const TARGET_PATTERN: &'static str = r"^(?P<x>[0-9]+)(?:\s*,\s*|\s+)(?P<y>[0-9]+)$";

/// What the regular expression `pattern` captures in `text`: `None` if the
/// pattern is not a regular expression or does not match, else the text of
/// each capture group of the leftmost match, the whole match first and then
/// the groups in the order of their opening parentheses, with `None` for a
/// group that took no part in the match.
pub uninterp spec fn regex_captures(pattern: Seq<char>, text: Seq<char>) -> Option<
    Seq<Option<Seq<char>>>,
>;

/// The views of the texts of capture groups.
pub open spec fn groups_view(groups: Vec<Option<String>>) -> Seq<Option<Seq<char>>> {
    Seq::new(
        groups.len() as nat,
        |i: int|
            match groups[i] {
                Some(text) => Some(text@),
                None => None,
            },
    )
}

/// The views of the texts of capture groups, if there was a match.
pub open spec fn captures_view(captures: Option<Vec<Option<String>>>) -> Option<
    Seq<Option<Seq<char>>>,
> {
    match captures {
        Some(groups) => Some(groups_view(groups)),
        None => None,
    }
}

/// Calls `regex::Regex::new` on the pattern and `Regex::captures` on the
/// text, and copies the text of each group out of the `Captures`. Nothing is
/// proved of this function: its result is given the name [`regex_captures`],
/// which says only that the same pattern and text always capture the same.
#[verifier::external_body]
fn capture_groups(pattern: &str, text: &str) -> (captures: Option<Vec<Option<String>>>)
    ensures
        captures_view(captures) == regex_captures(pattern@, text@),
{
    let regex = regex::Regex::new(pattern).ok()?;
    let captures = regex.captures(text)?;
    Some(captures.iter().map(|group| group.map(|found| found.as_str().to_string())).collect())
}

/// A command of the setup phase.
#[derive(Debug, Copy, Clone, Eq, PartialEq, Structural)]
pub enum Command {
    /// Start the game, if all ships are placed.
    Done,
    /// Place the ship, from the coordinate on, in the direction.
    Place(Ship, Coordinate, Orientation),
    /// Clear the placement of the ship.
    Unplace(Ship),
    /// Clear the placements of all ships.
    Clear,
    /// Place the ships that remain at random.
    RandomizeRest,
    /// Show the commands.
    Help,
}

/// Why a line is not a command of the setup phase.
#[derive(Debug, Copy, Clone, Eq, PartialEq, Structural)]
pub enum CommandError {
    /// The ship is none of the known names.
    InvalidShip,
    /// The first coordinate is not a number from 0 to 9.
    InvalidX(CoordinateError),
    /// The second coordinate is not a number from 0 to 9.
    InvalidY(CoordinateError),
    /// The direction is none of the known names.
    InvalidDirection,
    /// The line has the form of no command.
    Unrecognized,
}

/// The text of the capture group `i`, if there is such a group and it took
/// part in the match.
pub open spec fn group_text(groups: Seq<Option<Seq<char>>>, i: int) -> Option<Seq<char>> {
    if 0 <= i < groups.len() {
        groups[i]
    } else {
        None
    }
}

/// The command that the groups of a match of the place pattern stand for:
/// the ship, the two coordinates and the direction are read in this order,
/// and the first that cannot be read is the error.
pub open spec fn spec_place_command(groups: Seq<Option<Seq<char>>>) -> Result<
    Command,
    CommandError,
> {
    match (group_text(groups, 1), group_text(groups, 2), group_text(groups, 3), group_text(groups, 4)) {
        (Some(ship), Some(x), Some(y), Some(dir)) => match spec_parse_ship(ship) {
            None => Err(CommandError::InvalidShip),
            Some(ship) => match spec_read_coord(x) {
                Err(err) => Err(CommandError::InvalidX(err)),
                Ok(x) => match spec_read_coord(y) {
                    Err(err) => Err(CommandError::InvalidY(err)),
                    Ok(y) => match spec_parse_direction(dir) {
                        None => Err(CommandError::InvalidDirection),
                        Some(dir) => Ok(Command::Place(ship, Coordinate { x, y }, dir)),
                    },
                },
            },
        },
        _ => Err(CommandError::Unrecognized),
    }
}

/// The command that the groups of a match of the unplace pattern stand for:
/// a ship, or `all` for every ship.
pub open spec fn spec_unplace_command(groups: Seq<Option<Seq<char>>>) -> Result<
    Command,
    CommandError,
> {
    match group_text(groups, 1) {
        Some(name) => match spec_parse_ship(name) {
            Some(ship) => Ok(Command::Unplace(ship)),
            None => if name == "all"@ {
                Ok(Command::Clear)
            } else {
                Err(CommandError::InvalidShip)
            },
        },
        None => Err(CommandError::Unrecognized),
    }
}

/// The command that a line, trimmed and in lower case, stands for, given what
/// the place pattern and the unplace pattern capture in it. The fixed words
/// come first, then the place pattern, then the unplace pattern.
pub open spec fn spec_interpret_command(
    line: Seq<char>,
    place: Option<Seq<Option<Seq<char>>>>,
    unplace: Option<Seq<Option<Seq<char>>>>,
) -> Result<Command, CommandError> {
    if line == "?"@ || line == "help"@ || line == "h"@ {
        Ok(Command::Help)
    } else if line == "randomize"@ || line == "rand"@ || line == "random"@ {
        Ok(Command::RandomizeRest)
    } else if line == "done"@ || line == "start"@ {
        Ok(Command::Done)
    } else if line == "clear"@ {
        Ok(Command::Clear)
    } else {
        match place {
            Some(groups) => spec_place_command(groups),
            None => match unplace {
                Some(groups) => spec_unplace_command(groups),
                None => Err(CommandError::Unrecognized),
            },
        }
    }
}

/// The text of the capture group `i`.
fn group_at(groups: &Vec<Option<String>>, i: usize) -> (r: Option<&str>)
    ensures
        match r {
            Some(text) => group_text(groups_view(*groups), i as int) == Some(text@),
            None => group_text(groups_view(*groups), i as int) is None,
        },
{
    if i < groups.len() {
        match &groups[i] {
            Some(text) => Some(text.as_str()),
            None => None,
        }
    } else {
        None
    }
}

/// Read the command that the groups of a match of the place pattern stand
/// for.
pub fn interpret_place(groups: &Vec<Option<String>>) -> (r: Result<Command, CommandError>)
    ensures
        r == spec_place_command(groups_view(*groups)),
{
    let ship = group_at(groups, 1);
    let x = group_at(groups, 2);
    let y = group_at(groups, 3);
    let dir = group_at(groups, 4);
    match (ship, x, y, dir) {
        (Some(ship), Some(x), Some(y), Some(dir)) => {
            let ship = match parse_ship(ship) {
                Some(ship) => ship,
                None => {
                    return Err(CommandError::InvalidShip);
                },
            };
            let x = match read_coord(x) {
                Ok(x) => x,
                Err(err) => {
                    return Err(CommandError::InvalidX(err));
                },
            };
            let y = match read_coord(y) {
                Ok(y) => y,
                Err(err) => {
                    return Err(CommandError::InvalidY(err));
                },
            };
            match parse_direction(dir) {
                Some(dir) => Ok(Command::Place(ship, Coordinate::new(x, y), dir)),
                None => Err(CommandError::InvalidDirection),
            }
        },
        _ => Err(CommandError::Unrecognized),
    }
}

/// Read the command that the groups of a match of the unplace pattern stand
/// for.
pub fn interpret_unplace(groups: &Vec<Option<String>>) -> (r: Result<Command, CommandError>)
    ensures
        r == spec_unplace_command(groups_view(*groups)),
{
    match group_at(groups, 1) {
        Some(name) => match parse_ship(name) {
            Some(ship) => Ok(Command::Unplace(ship)),
            None => if is_word(name, "all") {
                Ok(Command::Clear)
            } else {
                Err(CommandError::InvalidShip)
            },
        },
        None => Err(CommandError::Unrecognized),
    }
}

/// Read a line of the setup phase, trimmed and in lower case, given what the
/// place pattern and the unplace pattern capture in it.
pub fn interpret_command(
    line: &str,
    place: &Option<Vec<Option<String>>>,
    unplace: &Option<Vec<Option<String>>>,
) -> (r: Result<Command, CommandError>)
    ensures
        r == spec_interpret_command(line@, captures_view(*place), captures_view(*unplace)),
{
    if is_word(line, "?") || is_word(line, "help") || is_word(line, "h") {
        Ok(Command::Help)
    } else if is_word(line, "randomize") || is_word(line, "rand") || is_word(line, "random") {
        Ok(Command::RandomizeRest)
    } else if is_word(line, "done") || is_word(line, "start") {
        Ok(Command::Done)
    } else if is_word(line, "clear") {
        Ok(Command::Clear)
    } else {
        match place {
            Some(groups) => interpret_place(groups),
            None => match unplace {
                Some(groups) => interpret_unplace(groups),
                None => Err(CommandError::Unrecognized),
            },
        }
    }
}

/// Read a line of the setup phase, trimmed and in lower case.
pub fn parse_command(line: &str) -> (r: Result<Command, CommandError>)
    ensures
        r == spec_interpret_command(
            line@,
            regex_captures(PLACE_PATTERN@, line@),
            regex_captures(UNPLACE_PATTERN@, line@),
        ),
{
    let place = capture_groups(PLACE_PATTERN, line);
    let unplace = capture_groups(UNPLACE_PATTERN, line);
    interpret_command(line, &place, &unplace)
}

/// The word of a line that an error of its reading speaks of, given what the
/// place pattern and the unplace pattern capture in the line: the ship, the
/// first or second coordinate, or the direction. A line that has the form of
/// no command has no such word.
pub open spec fn spec_faulty_word(
    place: Option<Seq<Option<Seq<char>>>>,
    unplace: Option<Seq<Option<Seq<char>>>>,
    error: CommandError,
) -> Option<Seq<char>> {
    match place {
        Some(groups) => match error {
            CommandError::InvalidShip => group_text(groups, 1),
            CommandError::InvalidX(_) => group_text(groups, 2),
            CommandError::InvalidY(_) => group_text(groups, 3),
            CommandError::InvalidDirection => group_text(groups, 4),
            CommandError::Unrecognized => None,
        },
        None => match (unplace, error) {
            (Some(groups), CommandError::InvalidShip) => group_text(groups, 1),
            _ => None,
        },
    }
}

/// The view of an optional word.
pub open spec fn word_view(word: Option<String>) -> Option<Seq<char>> {
    match word {
        Some(text) => Some(text@),
        None => None,
    }
}

/// A copy of the text of the capture group `i`.
fn group_copy(groups: &Vec<Option<String>>, i: usize) -> (word: Option<String>)
    ensures
        word_view(word) == group_text(groups_view(*groups), i as int),
{
    match group_at(groups, i) {
        Some(text) => Some(text.to_owned()),
        None => None,
    }
}

/// The word of a line that an error of its reading speaks of, given what the
/// place pattern and the unplace pattern capture in the line.
pub fn interpret_faulty_word(
    place: &Option<Vec<Option<String>>>,
    unplace: &Option<Vec<Option<String>>>,
    error: CommandError,
) -> (word: Option<String>)
    ensures
        word_view(word) == spec_faulty_word(captures_view(*place), captures_view(*unplace), error),
{
    match place {
        Some(groups) => match error {
            CommandError::InvalidShip => group_copy(groups, 1),
            CommandError::InvalidX(_) => group_copy(groups, 2),
            CommandError::InvalidY(_) => group_copy(groups, 3),
            CommandError::InvalidDirection => group_copy(groups, 4),
            CommandError::Unrecognized => None,
        },
        None => match unplace {
            Some(groups) => match error {
                CommandError::InvalidShip => group_copy(groups, 1),
                _ => None,
            },
            None => None,
        },
    }
}

/// The word of a line of the setup phase, trimmed and in lower case, that an
/// error of its reading speaks of.
pub fn faulty_word(line: &str, error: CommandError) -> (word: Option<String>)
    ensures
        word_view(word) == spec_faulty_word(
            regex_captures(PLACE_PATTERN@, line@),
            regex_captures(UNPLACE_PATTERN@, line@),
            error,
        ),
{
    let place = capture_groups(PLACE_PATTERN, line);
    let unplace = capture_groups(UNPLACE_PATTERN, line);
    interpret_faulty_word(&place, &unplace, error)
}

/// What a player asks for when it is their turn.
#[derive(Debug, Copy, Clone, Eq, PartialEq, Structural)]
pub enum TurnCommand {
    /// Say what to type.
    Help,
    /// Fire at the coordinate.
    Fire(Coordinate),
}

/// Why a line is not a target.
#[derive(Debug, Copy, Clone, Eq, PartialEq, Structural)]
pub enum TargetError {
    /// The first coordinate is not a number from 0 to 9.
    InvalidX(CoordinateError),
    /// The second coordinate is not a number from 0 to 9.
    InvalidY(CoordinateError),
    /// The line is not a pair of coordinates.
    Unrecognized,
}

/// What a line typed on a turn, trimmed and in lower case, asks for, given
/// what the target pattern captures in it.
pub open spec fn spec_interpret_target(
    line: Seq<char>,
    captures: Option<Seq<Option<Seq<char>>>>,
) -> Result<TurnCommand, TargetError> {
    if line == "help"@ || line == "?"@ {
        Ok(TurnCommand::Help)
    } else {
        match captures {
            Some(groups) => match (group_text(groups, 1), group_text(groups, 2)) {
                (Some(x), Some(y)) => match spec_read_coord(x) {
                    Err(err) => Err(TargetError::InvalidX(err)),
                    Ok(x) => match spec_read_coord(y) {
                        Err(err) => Err(TargetError::InvalidY(err)),
                        Ok(y) => Ok(TurnCommand::Fire(Coordinate { x, y })),
                    },
                },
                _ => Err(TargetError::Unrecognized),
            },
            None => Err(TargetError::Unrecognized),
        }
    }
}

/// Read a line typed on a turn, trimmed and in lower case, given what the
/// target pattern captures in it.
pub fn interpret_target(line: &str, captures: &Option<Vec<Option<String>>>) -> (r: Result<
    TurnCommand,
    TargetError,
>)
    ensures
        r == spec_interpret_target(line@, captures_view(*captures)),
{
    if is_word(line, "help") || is_word(line, "?") {
        Ok(TurnCommand::Help)
    } else {
        match captures {
            Some(groups) => match (group_at(groups, 1), group_at(groups, 2)) {
                (Some(x), Some(y)) => {
                    let x = match read_coord(x) {
                        Ok(x) => x,
                        Err(err) => {
                            return Err(TargetError::InvalidX(err));
                        },
                    };
                    match read_coord(y) {
                        Ok(y) => Ok(TurnCommand::Fire(Coordinate::new(x, y))),
                        Err(err) => Err(TargetError::InvalidY(err)),
                    }
                },
                _ => Err(TargetError::Unrecognized),
            },
            None => Err(TargetError::Unrecognized),
        }
    }
}

/// The coordinate of a line typed on a turn that an error of its reading
/// speaks of, given what the target pattern captures in the line.
pub open spec fn spec_faulty_coordinate(
    captures: Option<Seq<Option<Seq<char>>>>,
    error: TargetError,
) -> Option<Seq<char>> {
    match (captures, error) {
        (Some(groups), TargetError::InvalidX(_)) => group_text(groups, 1),
        (Some(groups), TargetError::InvalidY(_)) => group_text(groups, 2),
        _ => None,
    }
}

/// The coordinate of a line typed on a turn that an error of its reading
/// speaks of, given what the target pattern captures in the line.
pub fn interpret_faulty_coordinate(
    captures: &Option<Vec<Option<String>>>,
    error: TargetError,
) -> (word: Option<String>)
    ensures
        word_view(word) == spec_faulty_coordinate(captures_view(*captures), error),
{
    match captures {
        Some(groups) => match error {
            TargetError::InvalidX(_) => group_copy(groups, 1),
            TargetError::InvalidY(_) => group_copy(groups, 2),
            TargetError::Unrecognized => None,
        },
        None => None,
    }
}

/// The coordinate of a line typed on a turn, trimmed and in lower case, that
/// an error of its reading speaks of.
pub fn faulty_coordinate(line: &str, error: TargetError) -> (word: Option<String>)
    ensures
        word_view(word) == spec_faulty_coordinate(regex_captures(TARGET_PATTERN@, line@), error),
{
    let captures = capture_groups(TARGET_PATTERN, line);
    interpret_faulty_coordinate(&captures, error)
}

/// Read a line typed on a turn, trimmed and in lower case.
pub fn parse_target(line: &str) -> (r: Result<TurnCommand, TargetError>)
    ensures
        r == spec_interpret_target(line@, regex_captures(TARGET_PATTERN@, line@)),
{
    let captures = capture_groups(TARGET_PATTERN, line);
    interpret_target(line, &captures)
}

/// What the front end tells the player after a command of the setup phase.
#[derive(Debug, Copy, Clone, Eq, PartialEq, Structural)]
pub enum SetupReply {
    /// All ships are placed: the game starts.
    Start,
    /// Ships remain to be placed, so the game does not start.
    NotReady,
    /// The ship was placed.
    Placed,
    /// The ship was not placed: it would overlap another ship.
    Overlaps,
    /// The ship was not placed: there is not enough space on the board.
    NoSpace,
    /// The placement of the ship was cleared, if it had one.
    Unplaced,
    /// The placements of all ships were cleared.
    Cleared,
    /// The ships that remain are to be placed at random.
    Randomize,
    /// The commands are to be shown.
    Help,
}

/// The board on which the placement of every ship is cleared.
pub open spec fn cleared_board(board: SetupModel<Ship, RectDimensions, Line>) -> SetupModel<
    Ship,
    RectDimensions,
    Line,
> {
    board.unplace(0).unplace(1).unplace(2).unplace(3).unplace(4)
}

/// The setup after a command of the player. A ship that is placed anew is
/// taken off the board first and stays off it if the new placement fails.
pub open spec fn after_command(
    setup: GameSetupModel<Player, Ship, RectDimensions, Line>,
    player: Player,
    command: Command,
) -> GameSetupModel<Player, Ship, RectDimensions, Line> {
    let board = setup.boards[player.slot()];
    match command {
        Command::Place(ship, start, dir) => {
            let lifted = board.unplace(ship.slot());
            if place_result(lifted, ship, start, dir) is Ok {
                with_board(
                    setup,
                    player,
                    lifted.place(ship.slot(), line_cells(start, dir, ship.spec_len())),
                )
            } else {
                with_board(setup, player, lifted)
            }
        },
        Command::Unplace(ship) => with_board(setup, player, board.unplace(ship.slot())),
        Command::Clear => with_board(setup, player, cleared_board(board)),
        _ => setup,
    }
}

/// What the front end tells the player after a command.
pub open spec fn reply_to(
    setup: GameSetupModel<Player, Ship, RectDimensions, Line>,
    player: Player,
    command: Command,
) -> SetupReply {
    let board = setup.boards[player.slot()];
    match command {
        Command::Done => if board.ready() {
            SetupReply::Start
        } else {
            SetupReply::NotReady
        },
        Command::Place(ship, start, dir) => match place_result(
            board.unplace(ship.slot()),
            ship,
            start,
            dir,
        ) {
            Ok(()) => SetupReply::Placed,
            Err(CannotPlaceReason::AlreadyOccupied) => SetupReply::Overlaps,
            Err(_) => SetupReply::NoSpace,
        },
        Command::Unplace(_) => SetupReply::Unplaced,
        Command::Clear => SetupReply::Cleared,
        Command::RandomizeRest => SetupReply::Randomize,
        Command::Help => SetupReply::Help,
    }
}

/// Carry out a command of the setup phase for the player, and say what to
/// tell them.
pub fn apply_command(setup: &mut GameSetup, player: Player, command: Command) -> (reply: SetupReply)
    requires
        old(setup).wf(),
    ensures
        final(setup).wf(),
        reply == reply_to(old(setup)@, player, command),
        final(setup)@ == after_command(old(setup)@, player, command),
{
    let ghost before = setup@;
    proof {
        lemma_player_slot(player);
    }
    match command {
        Command::Done => {
            if setup.is_player_ready(player) {
                SetupReply::Start
            } else {
                SetupReply::NotReady
            }
        },
        Command::Place(ship, start, dir) => {
            proof {
                lemma_ship_slot(ship);
            }
            if setup.get_placement(player, ship).is_some() {
                setup.unplace_ship(player, ship);
            }
            assert(setup@ == with_board(before, player, before.boards[player.slot()].unplace(ship.slot()))) by {
                assert(setup@.boards =~= before.boards.update(
                    player.slot(),
                    before.boards[player.slot()].unplace(ship.slot()),
                ));
            }
            let ghost lifted = setup@;
            let placed = setup.place_ship(player, ship, start, dir);
            proof {
                assert(setup@.boards =~= after_command(before, player, command).boards);
            }
            match placed {
                Ok(()) => SetupReply::Placed,
                Err(CannotPlaceReason::AlreadyOccupied) => SetupReply::Overlaps,
                Err(CannotPlaceReason::InsufficientSpace) => SetupReply::NoSpace,
                // The ship was taken off the board before.
                Err(CannotPlaceReason::AlreadyPlaced) => unreached(),
            }
        },
        Command::Unplace(ship) => {
            setup.unplace_ship(player, ship);
            SetupReply::Unplaced
        },
        Command::Clear => {
            setup.unplace_ship(player, Ship::Carrier);
            setup.unplace_ship(player, Ship::Battleship);
            setup.unplace_ship(player, Ship::Cruiser);
            setup.unplace_ship(player, Ship::Submarine);
            setup.unplace_ship(player, Ship::Destroyer);
            proof {
                assert(setup@.boards =~= after_command(before, player, command).boards);
            }
            SetupReply::Cleared
        },
        Command::RandomizeRest => SetupReply::Randomize,
        Command::Help => SetupReply::Help,
    }
}

/// Try to place the ship of the player as chance has chosen. Returns true if
/// the ship now has a placement: the one chosen, or the one it had.
pub fn try_random_placement(
    setup: &mut GameSetup,
    player: Player,
    ship: Ship,
    start: Coordinate,
    dir: Orientation,
) -> (settled: bool)
    requires
        old(setup).wf(),
    ensures
        final(setup).wf(),
        settled == (place_result(old(setup)@.boards[player.slot()], ship, start, dir) is Ok
            || place_result(old(setup)@.boards[player.slot()], ship, start, dir) == Err::<
            (),
            CannotPlaceReason,
        >(CannotPlaceReason::AlreadyPlaced)),
        final(setup)@ == if place_result(old(setup)@.boards[player.slot()], ship, start, dir)
            is Ok {
            with_board(
                old(setup)@,
                player,
                old(setup)@.boards[player.slot()].place(
                    ship.slot(),
                    line_cells(start, dir, ship.spec_len()),
                ),
            )
        } else {
            old(setup)@
        },
{
    match setup.place_ship(player, ship, start, dir) {
        Ok(()) => true,
        Err(CannotPlaceReason::AlreadyPlaced) => true,
        Err(_) => false,
    }
}

/// Fire for the shooter at the given cell of the opponent. If the shot is
/// taken, the turn passes on; if it is refused, nothing changes.
pub fn fire(game: &mut Game, shooter: Player, coord: Coordinate) -> (r: Result<
    ShotOutcome,
    CannotShootReason,
>)
    requires
        old(game).wf(),
    ensures
        final(game).wf(),
        r == shot_result(old(game)@, shooter.spec_opponent(), coord),
        final(game)@ == if r is Ok {
            old(game)@.after_shot(shooter.spec_opponent(), coord).advanced()
        } else {
            old(game)@
        },
{
    proof {
        if shot_result(game@, shooter.spec_opponent(), coord) is Err {
            lemma_refused_shot(game@, shooter.spec_opponent(), coord);
        }
    }
    let r = game.shoot(shooter.opponent(), coord);
    if r.is_ok() {
        game.advance_turn();
    }
    r
}

/// A shot that the simple game refuses changes nothing.
pub proof fn lemma_refused_shot(
    game: GameModel<Player, Ship, RectDimensions>,
    target: Player,
    coord: Coordinate,
)
    requires
        standard_game(game),
        shot_result(game, target, coord) is Err,
    ensures
        game.after_shot(target, coord) == game,
{
    lemma_player_slot(target);
    lemma_shot_in_simple_game(game, target, coord);
    if game.reaches_board(target) {
        let k = target.slot();
        assert(game.boards[k].shot_result(coord) is Err);
        assert(game.boards.update(k, game.boards[k]) =~= game.boards);
    }
}

/// The full name of a ship.
pub fn ship_name(ship: Ship) -> (name: &'static str)
    ensures
        name@ == match ship {
            Ship::Carrier => "carrier"@,
            Ship::Battleship => "battleship"@,
            Ship::Cruiser => "cruiser"@,
            Ship::Submarine => "submarine"@,
            Ship::Destroyer => "destroyer"@,
        },
{
    match ship {
        Ship::Carrier => "carrier",
        Ship::Battleship => "battleship",
        Ship::Cruiser => "cruiser",
        Ship::Submarine => "submarine",
        Ship::Destroyer => "destroyer",
    }
}

/// The abbreviation of the type of a ship.
pub fn ship_abbreviation(ship: Ship) -> (abbreviation: &'static str)
    ensures
        abbreviation@ == match ship {
            Ship::Carrier => "cv"@,
            Ship::Battleship => "bb"@,
            Ship::Cruiser => "cl"@,
            Ship::Submarine => "ss"@,
            Ship::Destroyer => "dd"@,
        },
{
    match ship {
        Ship::Carrier => "cv",
        Ship::Battleship => "bb",
        Ship::Cruiser => "cl",
        Ship::Submarine => "ss",
        Ship::Destroyer => "dd",
    }
}

/// How a cell of a board in its setup phase is shown: the abbreviation of the
/// ship in it, or waves.
pub fn setup_cell_text(cell: Option<Ship>) -> (text: &'static str)
    ensures
        text@ == match cell {
            None => "~~"@,
            Some(Ship::Carrier) => "cv"@,
            Some(Ship::Battleship) => "bb"@,
            Some(Ship::Cruiser) => "cl"@,
            Some(Ship::Submarine) => "ss"@,
            Some(Ship::Destroyer) => "dd"@,
        },
{
    match cell {
        None => "~~",
        Some(ship) => ship_abbreviation(ship),
    }
}

/// What a cell shows.
#[derive(Debug, Copy, Clone, Eq, PartialEq, Structural)]
pub enum CellView {
    /// Nothing is known to be there, and nothing was shot there.
    Empty,
    /// A shot that hit nothing.
    Miss,
    /// A ship that was not hit in this cell.
    NotShot(Ship),
    /// A ship that was hit in this cell and is not sunk.
    Hit(Ship),
    /// A ship that is sunk.
    Sunk(Ship),
}

impl CellView {
    /// The text that shows the cell: waves, a small cross for a shot, the
    /// abbreviation of a ship, with a small cross in front of it where the
    /// ship was hit and a large cross where it is sunk.
    pub fn text(self) -> (text: &'static str)
        ensures
            text@ == match self {
                CellView::Empty => "~~"@,
                CellView::Miss => "x"@,
                CellView::NotShot(Ship::Carrier) => "cv"@,
                CellView::NotShot(Ship::Battleship) => "bb"@,
                CellView::NotShot(Ship::Cruiser) => "cl"@,
                CellView::NotShot(Ship::Submarine) => "ss"@,
                CellView::NotShot(Ship::Destroyer) => "dd"@,
                CellView::Hit(Ship::Carrier) => "xcv"@,
                CellView::Hit(Ship::Battleship) => "xbb"@,
                CellView::Hit(Ship::Cruiser) => "xcl"@,
                CellView::Hit(Ship::Submarine) => "xss"@,
                CellView::Hit(Ship::Destroyer) => "xdd"@,
                CellView::Sunk(Ship::Carrier) => "Xcv"@,
                CellView::Sunk(Ship::Battleship) => "Xbb"@,
                CellView::Sunk(Ship::Cruiser) => "Xcl"@,
                CellView::Sunk(Ship::Submarine) => "Xss"@,
                CellView::Sunk(Ship::Destroyer) => "Xdd"@,
            },
    {
        match self {
            CellView::Empty => "~~",
            CellView::Miss => "x",
            CellView::NotShot(ship) => ship_abbreviation(ship),
            CellView::Hit(Ship::Carrier) => "xcv",
            CellView::Hit(Ship::Battleship) => "xbb",
            CellView::Hit(Ship::Cruiser) => "xcl",
            CellView::Hit(Ship::Submarine) => "xss",
            CellView::Hit(Ship::Destroyer) => "xdd",
            CellView::Sunk(Ship::Carrier) => "Xcv",
            CellView::Sunk(Ship::Battleship) => "Xbb",
            CellView::Sunk(Ship::Cruiser) => "Xcl",
            CellView::Sunk(Ship::Submarine) => "Xss",
            CellView::Sunk(Ship::Destroyer) => "Xdd",
        }
    }
}

/// What a cell shows to the owner of the board: every ship, and every shot.
pub open spec fn spec_revealed_cell(cell: CellRef<'_>) -> CellView {
    match cell.spec_ship() {
        None => if cell.spec_hit() {
            CellView::Miss
        } else {
            CellView::Empty
        },
        Some(ship) => if ship.board().sunk(ship.slot()) {
            CellView::Sunk(ship.spec_id())
        } else if cell.spec_hit() {
            CellView::Hit(ship.spec_id())
        } else {
            CellView::NotShot(ship.spec_id())
        },
    }
}

/// What a cell shows to the opponent: only what was shot at.
pub open spec fn spec_hidden_cell(cell: CellRef<'_>) -> CellView {
    if !cell.spec_hit() {
        CellView::Empty
    } else {
        match cell.spec_ship() {
            None => CellView::Miss,
            Some(ship) => if ship.board().sunk(ship.slot()) {
                CellView::Sunk(ship.spec_id())
            } else {
                CellView::Hit(ship.spec_id())
            },
        }
    }
}

/// What a cell shows to the owner of the board.
pub fn revealed_cell(cell: &CellRef<'_>) -> (view: CellView)
    requires
        cell.spec_ship() matches Some(ship) ==> ship.wf(),
    ensures
        view == spec_revealed_cell(*cell),
{
    match cell.ship() {
        None => if cell.hit() {
            CellView::Miss
        } else {
            CellView::Empty
        },
        Some(ship) => if ship.sunk() {
            CellView::Sunk(*ship.id())
        } else if cell.hit() {
            CellView::Hit(*ship.id())
        } else {
            CellView::NotShot(*ship.id())
        },
    }
}

/// What a cell shows to the opponent.
pub fn hidden_cell(cell: &CellRef<'_>) -> (view: CellView)
    requires
        cell.spec_ship() matches Some(ship) ==> ship.wf(),
    ensures
        view == spec_hidden_cell(*cell),
{
    if !cell.hit() {
        CellView::Empty
    } else {
        match cell.ship() {
            None => CellView::Miss,
            Some(ship) => if ship.sunk() {
                CellView::Sunk(*ship.id())
            } else {
                CellView::Hit(*ship.id())
            },
        }
    }
}

/// The given number of blanks.
pub open spec fn blanks(count: nat) -> Seq<char> {
    Seq::new(count, |i: int| ' ')
}

/// The text in the middle of a field of the given width: the blanks that fill
/// the field are split evenly, and an odd blank goes behind the text. A text
/// that is wider than the field stays as it is.
pub open spec fn centered(text: Seq<char>, width: nat) -> Seq<char> {
    if text.len() >= width {
        text
    } else {
        blanks((width - text.len()) as nat / 2) + text + blanks(
            (width - text.len() - (width - text.len()) / 2) as nat,
        )
    }
}

/// The text at the right end of a field of the given width. A text that is
/// wider than the field stays as it is.
pub open spec fn right_aligned(text: Seq<char>, width: nat) -> Seq<char> {
    if text.len() >= width {
        text
    } else {
        blanks((width - text.len()) as nat) + text
    }
}

/// The decimal digit of a number below ten.
pub open spec fn digit_char(digit: nat) -> char {
    ('0' as u32 + digit as u32) as char
}

/// The decimal digits of a number, without leading zeros.
pub open spec fn decimal_digits(number: nat) -> Seq<char>
    decreases number,
{
    if number < 10 {
        seq![digit_char(number)]
    } else {
        decimal_digits(number / 10).push(digit_char(number % 10))
    }
}

/// The digits of a number denote that number.
pub proof fn lemma_decimal_digits_round_trip(number: nat)
    ensures
        decimal_value(decimal_digits(number)) == Some(number),
        decimal_digits(number).len() >= 1,
    decreases number,
{
    if number >= 10 {
        lemma_decimal_digits_round_trip(number / 10);
        let digits = decimal_digits(number);
        assert(digits.drop_last() =~= decimal_digits(number / 10));
        assert(digits.last() == digit_char(number % 10));
    }
}

/// The cells of a line one after the other, each in the middle of a field of
/// four characters.
pub open spec fn cells_line(cells: Seq<Seq<char>>) -> Seq<char>
    decreases cells.len(),
{
    if cells.len() == 0 {
        Seq::empty()
    } else {
        cells_line(cells.drop_last()) + centered(cells.last(), 4)
    }
}

/// A line of a board: the number of the row at the right end of a field of
/// two characters, a blank, and the cells, each in the middle of a field of
/// four characters.
pub open spec fn spec_board_line(row: nat, cells: Seq<Seq<char>>) -> Seq<char> {
    right_aligned(decimal_digits(row), 2) + seq![' '] + cells_line(cells)
}

/// The numbers of the given number of columns, from 0 on, as cells.
pub open spec fn column_numbers(columns: nat) -> Seq<Seq<char>> {
    Seq::new(columns, |i: int| decimal_digits(i as nat))
}

/// The line above a board: three blanks, and the numbers of the columns, each
/// in the middle of a field of four characters.
pub open spec fn spec_header_line(columns: nat) -> Seq<char> {
    blanks(3) + cells_line(column_numbers(columns))
}

/// Append the given number of blanks.
fn push_blanks(line: &mut Vec<char>, count: usize)
    ensures
        final(line)@ == old(line)@ + blanks(count as nat),
{
    let mut i: usize = 0;
    assert(line@ =~= old(line)@ + blanks(0));
    while i < count
        invariant
            i <= count,
            line@ == old(line)@ + blanks(i as nat),
        decreases count - i,
    {
        line.push(' ');
        i += 1;
        assert(line@ =~= old(line)@ + blanks(i as nat));
    }
}

/// Append the characters.
fn push_all(line: &mut Vec<char>, text: &Vec<char>)
    ensures
        final(line)@ == old(line)@ + text@,
{
    let mut i: usize = 0;
    assert(line@ =~= old(line)@ + text@.take(0));
    while i < text.len()
        invariant
            i <= text.len(),
            line@ == old(line)@ + text@.take(i as int),
        decreases text.len() - i,
    {
        line.push(text[i]);
        i += 1;
        assert(line@ =~= old(line)@ + text@.take(i as int));
    }
    assert(text@.take(text.len() as int) =~= text@);
}

/// Append the text in the middle of a field of four characters.
fn push_centered(line: &mut Vec<char>, text: &Vec<char>)
    ensures
        final(line)@ == old(line)@ + centered(text@, 4),
{
    if text.len() >= 4 {
        push_all(line, text);
    } else {
        let fill = 4 - text.len();
        let front = fill / 2;
        push_blanks(line, front);
        push_all(line, text);
        push_blanks(line, fill - front);
        assert(line@ =~= old(line)@ + centered(text@, 4));
    }
}

/// The decimal digits of a number.
fn digits_of(number: usize) -> (digits: Vec<char>)
    ensures
        digits@ == decimal_digits(number as nat),
    decreases number,
{
    if number < 10 {
        let mut digits: Vec<char> = Vec::new();
        digits.push(digit_of(number));
        assert(digits@ =~= seq![digit_char(number as nat)]);
        digits
    } else {
        let mut digits = digits_of(number / 10);
        digits.push(digit_of(number % 10));
        digits
    }
}

/// The decimal digit of a number below ten.
fn digit_of(digit: usize) -> (c: char)
    requires
        digit < 10,
    ensures
        c == digit_char(digit as nat),
{
    if digit == 0 {
        '0'
    } else if digit == 1 {
        '1'
    } else if digit == 2 {
        '2'
    } else if digit == 3 {
        '3'
    } else if digit == 4 {
        '4'
    } else if digit == 5 {
        '5'
    } else if digit == 6 {
        '6'
    } else if digit == 7 {
        '7'
    } else if digit == 8 {
        '8'
    } else {
        '9'
    }
}

/// The line above a board with the given number of columns.
pub fn header_line(columns: usize) -> (line: Vec<char>)
    ensures
        line@ == spec_header_line(columns as nat),
{
    let mut line: Vec<char> = Vec::new();
    push_blanks(&mut line, 3);
    let mut i: usize = 0;
    assert(column_numbers(0) =~= Seq::<Seq<char>>::empty());
    assert(line@ =~= blanks(3) + cells_line(column_numbers(0)));
    while i < columns
        invariant
            i <= columns,
            line@ == blanks(3) + cells_line(column_numbers(i as nat)),
        decreases columns - i,
    {
        let digits = digits_of(i);
        push_centered(&mut line, &digits);
        proof {
            let longer = column_numbers((i + 1) as nat);
            assert(longer.drop_last() =~= column_numbers(i as nat));
            assert(longer.last() == digits@);
            assert(line@ =~= blanks(3) + cells_line(longer));
        }
        i += 1;
    }
    line
}

/// The views of the texts.
pub open spec fn text_views(texts: Seq<&'static str>) -> Seq<Seq<char>> {
    Seq::new(texts.len(), |i: int| texts[i]@)
}

/// A line of a board: the number of the row and the texts of its cells.
pub fn board_line(row: usize, cells: &Vec<&'static str>) -> (line: Vec<char>)
    ensures
        line@ == spec_board_line(row as nat, text_views(cells@)),
{
    let mut line: Vec<char> = Vec::new();
    let digits = digits_of(row);
    if digits.len() < 2 {
        push_blanks(&mut line, 2 - digits.len());
    }
    push_all(&mut line, &digits);
    line.push(' ');
    let ghost front = right_aligned(decimal_digits(row as nat), 2) + seq![' '];
    let ghost texts = text_views(cells@);
    assert(line@ =~= front);
    let mut i: usize = 0;
    assert(texts.take(0) =~= Seq::<Seq<char>>::empty());
    assert(line@ =~= front + cells_line(texts.take(0)));
    while i < cells.len()
        invariant
            i <= cells.len(),
            texts == text_views(cells@),
            line@ == front + cells_line(texts.take(i as int)),
        decreases cells.len() - i,
    {
        let text = to_chars(cells[i]);
        push_centered(&mut line, &text);
        proof {
            let longer = texts.take(i + 1);
            assert(longer.drop_last() =~= texts.take(i as int));
            assert(longer.last() == text@);
            assert(line@ =~= front + cells_line(longer));
        }
        i += 1;
    }
    assert(texts.take(cells.len() as int) =~= texts);
    line
}

} // verus!
