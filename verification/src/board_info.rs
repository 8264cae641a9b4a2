//! The squares, the two sides and the coordinates of the board.

use crate::scoring::GameStatus;
use crate::text::{decimal, decimal_string};
use vstd::prelude::*;
use vstd::string::*;

verus! {

/// The possible contents of one square of the board.
#[derive(Debug, Clone, Copy, PartialEq, Eq, Structural)]
pub enum SquareType {
    /// A blank square.
    B,
    O,
    X,
}

impl SquareType {
    /// The character that stands for this square when a board is drawn:
    /// a space for a blank square, the letter of the mark otherwise.
    pub open spec fn spec_glyph(self) -> char {
        match self {
            SquareType::B => ' ',
            SquareType::O => 'O',
            SquareType::X => 'X',
        }
    }

    /// Whether the square holds the mark of one of the two sides.
    pub open spec fn is_mark(self) -> bool {
        self != SquareType::B
    }

    /// The character that stands for this square.
    pub fn glyph(&self) -> (c: char)
        ensures
            c == self.spec_glyph(),
    {
        match self {
            SquareType::B => ' ',
            SquareType::O => 'O',
            SquareType::X => 'X',
        }
    }

    /// The character of the square as a string slice.
    pub fn as_str(&self) -> (text: &'static str)
        ensures
            text@ == seq![self.spec_glyph()],
    {
        proof {
            reveal_strlit(" ");
            reveal_strlit("O");
            reveal_strlit("X");
        }
        let text = match self {
            SquareType::B => " ",
            SquareType::O => "O",
            SquareType::X => "X",
        };
        text
    }

    /// The square as it is shown: a space for a blank square, the letter of
    /// the mark otherwise.
    pub fn to_string(&self) -> (text: String)
        ensures
            text@ == seq![self.spec_glyph()],
    {
        String::from_str(self.as_str())
    }
}

/// Who makes a move: the person at the keyboard or the search engine.
#[derive(Debug, Clone, Copy, PartialEq, Eq, Structural)]
pub enum Opponent {
    User,
    Computer,
}

impl Opponent {
    /// The one who is not this one.
    pub open spec fn spec_other(self) -> Opponent {
        match self {
            Opponent::User => Opponent::Computer,
            Opponent::Computer => Opponent::User,
        }
    }

    /// The one who is not this one.
    pub fn other(&self) -> (r: Opponent)
        ensures
            r == self.spec_other(),
    {
        match self {
            Opponent::User => Opponent::Computer,
            Opponent::Computer => Opponent::User,
        }
    }
}

/// One of the two sides, named after the mark it places.
#[derive(Debug, Clone, Copy, PartialEq, Eq, Structural)]
pub enum Player {
    X,
    O,
}

impl Player {
    /// The side that is not this one.
    pub open spec fn spec_other(self) -> Player {
        match self {
            Player::O => Player::X,
            Player::X => Player::O,
        }
    }

    /// The mark this side places.
    pub open spec fn spec_square_type(self) -> SquareType {
        match self {
            Player::X => SquareType::X,
            Player::O => SquareType::O,
        }
    }

    /// The outcome this side plays for: its own win.
    pub open spec fn spec_desired_game_status(self) -> GameStatus {
        match self {
            Player::X => GameStatus::XWin,
            Player::O => GameStatus::OWin,
        }
    }

    /// The side that is not this one.
    pub fn other(&self) -> (r: Player)
        ensures
            r == self.spec_other(),
    {
        match self {
            Player::O => Player::X,
            Player::X => Player::O,
        }
    }

    /// The mark this side places: X plays X, O plays O.
    pub fn square_type(&self) -> (r: SquareType)
        ensures
            r == self.spec_square_type(),
            r.is_mark(),
    {
        match self {
            Player::X => SquareType::X,
            Player::O => SquareType::O,
        }
    }

    /// The outcome this side plays for.
    pub fn desired_game_status(&self) -> (r: GameStatus)
        ensures
            r == self.spec_desired_game_status(),
    {
        match self {
            Player::X => GameStatus::XWin,
            Player::O => GameStatus::OWin,
        }
    }
}

/// Taking the other side twice gives the side one started from, for both
/// kinds of sides.
pub proof fn lemma_other_is_involution(p: Player, o: Opponent)
    ensures
        p.spec_other().spec_other() == p,
        p.spec_other() != p,
        o.spec_other().spec_other() == o,
        o.spec_other() != o,
{
}

/// The coordinates of a square: `x` counts rows, `y` counts columns.
#[derive(Debug, PartialEq, Eq, Hash, Copy, Clone, PartialOrd, Ord, Structural)]
pub struct Point {
    pub x: usize,
    pub y: usize,
}

impl Point {
    /// How many numbers make up a point.
    pub const NUM_ARGUMENTS: usize = 2;

    /// The point as it is shown: both numbers in decimal notation, between
    /// brackets.
    pub open spec fn spec_to_string(self) -> Seq<char> {
        "("@ + decimal(self.x as nat) + ", "@ + decimal(self.y as nat) + ")"@
    }

    /// The point as it is shown, `(1, 2)` for row 1 and column 2.
    pub fn to_string(&self) -> (text: String)
        ensures
            text@ == self.spec_to_string(),
    {
        let mut text = String::from_str("(");
        let x = decimal_string(self.x);
        text.append(x.as_str());
        text.append(", ");
        let y = decimal_string(self.y);
        text.append(y.as_str());
        text.append(")");
        text
    }

    /// Row-major order: by row first, then by column.
    pub open spec fn precedes(self, other: Point) -> bool {
        self.x < other.x || (self.x == other.x && self.y < other.y)
    }
}

impl Default for Point {
    fn default() -> (p: Point)
        ensures
            p == (Point { x: 0, y: 0 }),
    {
        Point { x: 0, y: 0 }
    }
}

} // verus!
