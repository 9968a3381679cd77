//! The games this library implements, selected by name.
use vstd::prelude::*;
use crate::pieces::{spec_to_ascii_lower, to_ascii_lower};
use crate::text::str_chars;

verus! {

/// A game of this library.
#[derive(Copy, Clone, Eq, PartialEq, Structural, Debug)]
pub enum Game {
    /// Normal Chess, Chess960 or Double Fischer Random Chess.
    Chess,
    /// Ataxx on a 7x7 board.
    Ataxx,
}

impl Default for Game {
    /// The first game: chess.
    fn default() -> (r: Self)
        ensures
            r == Game::Chess,
    {
        Game::Chess
    }
}

/// The short name of a game.
pub open spec fn spec_short_name(game: Game) -> Seq<char> {
    match game {
        Game::Chess => "Chess"@,
        Game::Ataxx => "Ataxx"@,
    }
}

/// The description of a game.
pub open spec fn spec_description(game: Game) -> Seq<char> {
    match game {
        Game::Chess => "Normal Chess, Chess960 or Double Fisher Random Chess."@,
        Game::Ataxx => "Ataxx is a simple but challenging game played on a 7x7 grid where your goal is to convert your opponent's pieces"@,
    }
}

/// Whether two texts agree when ASCII letters are compared without case.
pub open spec fn eq_ignore_ascii_case(a: Seq<char>, b: Seq<char>) -> bool {
    a.len() == b.len() && forall|i: int|
        0 <= i < a.len() ==> spec_to_ascii_lower(#[trigger] a[i]) == spec_to_ascii_lower(b[i])
}

/// Whether two texts agree when ASCII letters are compared without case.
pub fn chars_eq_ignore_ascii_case(a: &[char], b: &[char]) -> (r: bool)
    ensures
        r == eq_ignore_ascii_case(a@, b@),
{
    if a.len() != b.len() {
        return false;
    }
    let mut i: usize = 0;
    while i < a.len()
        invariant
            a@.len() == b@.len(),
            i <= a@.len(),
            forall|j: int| 0 <= j < i ==> spec_to_ascii_lower(#[trigger] a@[j]) == spec_to_ascii_lower(b@[j]),
        decreases a@.len() - i,
    {
        if to_ascii_lower(a[i]) != to_ascii_lower(b[i]) {
            return false;
        }
        i = i + 1;
    }
    true
}

impl Game {
    /// The name of the game.
    pub fn short_name(self) -> (r: &'static str)
        ensures
            r@ == spec_short_name(self),
    {
        match self {
            Game::Chess => "Chess",
            Game::Ataxx => "Ataxx",
        }
    }

    /// The long name of the game, the same as its name.
    pub fn long_name(self) -> (r: &'static str)
        ensures
            r@ == spec_short_name(self),
    {
        self.short_name()
    }

    /// A description of the game.
    pub fn description(self) -> (r: &'static str)
        ensures
            r@ == spec_description(self),
    {
        match self {
            Game::Chess => "Normal Chess, Chess960 or Double Fisher Random Chess.",
            Game::Ataxx => "Ataxx is a simple but challenging game played on a 7x7 grid where your goal is to convert your opponent's pieces",
        }
    }
}

/// Why no game could be selected.
#[derive(Copy, Clone, Eq, PartialEq, Structural, Debug)]
pub enum SelectError {
    /// No game has been implemented under that name.
    NoSuchGame,
}

/// The game whose name is `game_name`, ignoring ASCII case; an error for an unknown name.
pub fn select_game(game_name: &str) -> (r: Result<Game, SelectError>)
    ensures
        r == Ok::<Game, SelectError>(Game::Chess) <==> eq_ignore_ascii_case(
            game_name@,
            spec_short_name(Game::Chess),
        ),
        r == Ok::<Game, SelectError>(Game::Ataxx) <==> eq_ignore_ascii_case(
            game_name@,
            spec_short_name(Game::Ataxx),
        ) && !eq_ignore_ascii_case(game_name@, spec_short_name(Game::Chess)),
        r.is_err() ==> r == Err::<Game, SelectError>(SelectError::NoSuchGame),
{
    let name = str_chars(game_name);
    let chess = str_chars(Game::Chess.short_name());
    if chars_eq_ignore_ascii_case(name.as_slice(), chess.as_slice()) {
        return Ok(Game::Chess);
    }
    let ataxx = str_chars(Game::Ataxx.short_name());
    if chars_eq_ignore_ascii_case(name.as_slice(), ataxx.as_slice()) {
        return Ok(Game::Ataxx);
    }
    Err(SelectError::NoSuchGame)
}

/// Whether a command line argument names an option: it starts with `-`.
pub open spec fn spec_is_option(arg: Seq<char>) -> bool {
    arg.len() > 0 && arg[0] == '-'
}

/// Whether a command line argument names an option (it starts with `-`), so that it cannot be the
/// value of the option before it.
pub fn is_option(arg: &str) -> (r: bool)
    ensures
        r == spec_is_option(arg@),
{
    let chars = str_chars(arg);
    chars.len() > 0 && chars[0] == '-'
}

/// Whether a command line argument ends the options of an output: another option, or `bench`.
pub fn ends_output_options(arg: &str) -> (r: bool)
    ensures
        r == (spec_is_option(arg@) || arg@ == "bench"@),
{
    let chars = str_chars(arg);
    let bench = str_chars("bench");
    is_option(arg) || crate::text::chars_eq(chars.as_slice(), bench.as_slice())
}

} // verus!
