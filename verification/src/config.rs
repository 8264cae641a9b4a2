//! What the person at the keyboard asks for on the command line: which
//! pieces to play with, and whether to move first.

use vstd::prelude::*;
use vstd::string::*;

verus! {

/// Why the command line could not be understood. Each variant holds the
/// message for the user.
#[derive(Debug)]
pub enum Error {
    PlayerPieceType(String),
    FirstOrSecond(String),
    NoArgument(String),
}

impl Error {
    /// The message for the user.
    pub fn to_string(&self) -> (text: String)
        ensures
            text@ == match self {
                Error::FirstOrSecond(e) | Error::PlayerPieceType(e) | Error::NoArgument(e) => e@,
            },
    {
        match self {
            Error::FirstOrSecond(e) | Error::PlayerPieceType(e) | Error::NoArgument(e) => e.clone(),
        }
    }
}

/// Whether the user plays with the X pieces.
pub struct PlayerIsX(pub bool);

/// Whether the user moves first.
pub struct MoveFirst(pub bool);

/// What the user asks for.
pub struct Config {
    pub player_piece_type: PlayerIsX,
    pub first_or_second: MoveFirst,
}

/// The text that `{:?}` writes for a string: the string between double
/// quotes, with the characters escaped that cannot stand there as they are.
pub uninterp spec fn debug_text(s: Seq<char>) -> Seq<char>;

/// The string as `{:?}` writes it; this is `<str as Debug>::fmt` of the
/// standard library, reached through `format!`. The result is the text that
/// [`debug_text`] names.
#[verifier::external_body]
fn quoted(s: &str) -> (text: String)
    ensures
        text@ == debug_text(s@),
{
    format!("{s:?}")
}

/// Whether `s` is the single character `c`.
fn is_letter(s: &str, c: char) -> (r: bool)
    ensures
        r == (s@.len() == 1 && s@[0] == c),
{
    if s.unicode_len() == 1 {
        s.get_char(0) == c
    } else {
        false
    }
}

/// `prefix` followed by `arg` as `{:?}` writes it.
fn complaint(prefix: &str, arg: &str) -> (text: String)
    ensures
        text@ == prefix@ + debug_text(arg@),
{
    let mut text = String::from_str(prefix);
    let shown = quoted(arg);
    text.append(shown.as_str());
    text
}

impl Config {
    /// How the program is called.
    pub const CLI_HELP_MESSAGE: &'static str =
        "Usage:\n\
         tic-tac-toe [player_piece_type] [first_or_second]\n\
         \n\
         player_piece_type\
         \n     \"x\" (or \"X\")     Play with X pieces\
         \n     \"o\" (or \"O\")     Play with O pieces\n\
         \n\
         first_or_second\
         \n     \"1\"              Play first\
         \n     \"2\"              Play second\n\
         \n";

    /// What the first argument after the command name asks for, if it is
    /// one of `x`, `X`, `o` and `O`.
    pub open spec fn piece_of(arg: Seq<char>) -> Option<bool> {
        if arg.len() != 1 {
            None
        } else if arg[0] == 'x' || arg[0] == 'X' {
            Some(true)
        } else if arg[0] == 'o' || arg[0] == 'O' {
            Some(false)
        } else {
            None
        }
    }

    /// What the second argument after the command name asks for, if it is
    /// `1` or `2`.
    pub open spec fn turn_of(arg: Seq<char>) -> Option<bool> {
        if arg.len() != 1 {
            None
        } else if arg[0] == '1' {
            Some(true)
        } else if arg[0] == '2' {
            Some(false)
        } else {
            None
        }
    }

    /// Reads the configuration from the command line, the command name
    /// first. The first argument after the name chooses the pieces, the
    /// second the turn; further arguments are ignored. An argument that is
    /// missing or not understood gives an error with its message, the first
    /// such argument if there are two.
    pub fn build(args: Vec<String>) -> (r: Result<Config, Error>)
        ensures
            match r {
                Ok(config) => args@.len() >= 3 && Self::piece_of(args@[1]@) == Some(
                    config.player_piece_type.0,
                ) && Self::turn_of(args@[2]@) == Some(config.first_or_second.0),
                Err(Error::NoArgument(e)) => (args@.len() < 2 && e@ == "No player_piece_type arg"@)
                    || (args@.len() == 2 && Self::piece_of(args@[1]@) is Some && e@
                    == "No first_or_second arg"@),
                Err(Error::PlayerPieceType(e)) => args@.len() >= 2 && Self::piece_of(args@[1]@)
                    is None && e@ == "Player_piece_type: expected \"X\" or \"O\". Got "@
                    + debug_text(args@[1]@),
                Err(Error::FirstOrSecond(e)) => args@.len() >= 3 && Self::piece_of(args@[1]@)
                    is Some && Self::turn_of(args@[2]@) is None && e@
                    == "First_or_second: expected \"1\" or \"2\". Got "@ + debug_text(args@[2]@),
            },
    {
        if args.len() < 2 {
            return Err(Error::NoArgument(String::from_str("No player_piece_type arg")));
        }
        let arg = args[1].as_str();
        let player_piece_type = if is_letter(arg, 'x') || is_letter(arg, 'X') {
            PlayerIsX(true)
        } else if is_letter(arg, 'o') || is_letter(arg, 'O') {
            PlayerIsX(false)
        } else {
            return Err(
                Error::PlayerPieceType(
                    complaint("Player_piece_type: expected \"X\" or \"O\". Got ", arg),
                ),
            );
        };
        if args.len() < 3 {
            return Err(Error::NoArgument(String::from_str("No first_or_second arg")));
        }
        let arg = args[2].as_str();
        let first_or_second = if is_letter(arg, '1') {
            MoveFirst(true)
        } else if is_letter(arg, '2') {
            MoveFirst(false)
        } else {
            return Err(
                Error::FirstOrSecond(
                    complaint("First_or_second: expected \"1\" or \"2\". Got ", arg),
                ),
            );
        };
        Ok(Config { player_piece_type, first_or_second })
    }
}

} // verus!
