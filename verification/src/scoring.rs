//! How lines and boards are scored, and how the outcomes of moves are ranked.

use crate::board_info::{Point, SquareType};
use crate::tic_tac_toe_board::Board;
use std::cmp::Ordering;
use vstd::prelude::*;
use vstd::std_specs::cmp::PartialOrdSpec;
use vstd::string::*;

verus! {

/// What is known of a line (a row, a column or a diagonal) after looking at
/// some of its squares. All the lines of a board together give its
/// [`GameStatus`].
#[derive(Debug, Clone, Copy)]
pub enum PartialLineStatus<'a> {
    /// The squares seen so far are all like this one, or, for a blank one,
    /// at least one of them is blank.
    PartialLine(&'a SquareType),
    /// No square seen so far is blank, and both sides have a mark among them.
    PartialDraw,
}

impl<'a> PartialLineStatus<'a> {
    /// Whether this is the status of a line with a blank square.
    pub open spec fn is_open(self) -> bool {
        self matches PartialLineStatus::PartialLine(s) && *s == SquareType::B
    }

    /// What two parts of a line say together. A blank square in either part
    /// keeps the line open. Otherwise the line belongs to a side only if both
    /// parts belong to that side; it is drawn in every other case.
    pub open spec fn spec_combine(lhs: Self, rhs: Self) -> Self {
        if lhs.is_open() || rhs.is_open() {
            PartialLineStatus::PartialLine(&SquareType::B)
        } else {
            match (lhs, rhs) {
                (PartialLineStatus::PartialLine(l), PartialLineStatus::PartialLine(r)) => if *l
                    == *r {
                    lhs
                } else {
                    PartialLineStatus::PartialDraw
                },
                _ => PartialLineStatus::PartialDraw,
            }
        }
    }

    /// The game status that a whole line with this status stands for.
    pub open spec fn spec_upgrade(self) -> GameStatus {
        match self {
            PartialLineStatus::PartialLine(s) => match *s {
                SquareType::B => GameStatus::StillPlaying,
                SquareType::O => GameStatus::OWin,
                SquareType::X => GameStatus::XWin,
            },
            PartialLineStatus::PartialDraw => GameStatus::Draw,
        }
    }

    /// Combines the statuses of two parts of a line into the status of both
    /// together. Meant to be folded over the squares of a line, in any order.
    pub fn combine(lhs: &Self, rhs: &Self) -> (r: Self)
        ensures
            r == Self::spec_combine(*lhs, *rhs),
    {
        match lhs {
            PartialLineStatus::PartialLine(SquareType::B) => PartialLineStatus::PartialLine(
                &SquareType::B,
            ),
            PartialLineStatus::PartialLine(SquareType::O) => match rhs {
                PartialLineStatus::PartialLine(SquareType::B) => PartialLineStatus::PartialLine(
                    &SquareType::B,
                ),
                PartialLineStatus::PartialLine(SquareType::O) => PartialLineStatus::PartialLine(
                    &SquareType::O,
                ),
                PartialLineStatus::PartialLine(SquareType::X)
                | PartialLineStatus::PartialDraw => PartialLineStatus::PartialDraw,
            },
            PartialLineStatus::PartialLine(SquareType::X) => match rhs {
                PartialLineStatus::PartialLine(SquareType::B) => PartialLineStatus::PartialLine(
                    &SquareType::B,
                ),
                PartialLineStatus::PartialLine(SquareType::O)
                | PartialLineStatus::PartialDraw => PartialLineStatus::PartialDraw,
                PartialLineStatus::PartialLine(SquareType::X) => PartialLineStatus::PartialLine(
                    &SquareType::X,
                ),
            },
            PartialLineStatus::PartialDraw => match rhs {
                PartialLineStatus::PartialLine(SquareType::B) => PartialLineStatus::PartialLine(
                    &SquareType::B,
                ),
                PartialLineStatus::PartialLine(SquareType::O | SquareType::X)
                | PartialLineStatus::PartialDraw => PartialLineStatus::PartialDraw,
            },
        }
    }

    /// Turns the status of a whole line into a game status: an open line
    /// means the game goes on, a line of one side is a win for that side, a
    /// drawn line is a draw.
    pub fn upgrade(&self) -> (r: GameStatus)
        ensures
            r == self.spec_upgrade(),
    {
        match self {
            PartialLineStatus::PartialLine(SquareType::B) => GameStatus::StillPlaying,
            PartialLineStatus::PartialLine(SquareType::O) => GameStatus::OWin,
            PartialLineStatus::PartialLine(SquareType::X) => GameStatus::XWin,
            PartialLineStatus::PartialDraw => GameStatus::Draw,
        }
    }
}

/// Combining line statuses does not depend on the order of the operands nor
/// on how they are grouped.
pub proof fn lemma_partial_line_combine_laws<'a>(
    a: PartialLineStatus<'a>,
    b: PartialLineStatus<'a>,
    c: PartialLineStatus<'a>,
)
    ensures
        PartialLineStatus::spec_combine(a, b) == PartialLineStatus::spec_combine(b, a),
        PartialLineStatus::spec_combine(PartialLineStatus::spec_combine(a, b), c)
            == PartialLineStatus::spec_combine(a, PartialLineStatus::spec_combine(b, c)),
{
}

/// The state of a game as a whole.
#[derive(Debug, PartialEq, Eq, Copy, Clone, Structural)]
pub enum GameStatus {
    OWin,
    Draw,
    StillPlaying,
    XWin,
}

impl Default for GameStatus {
    fn default() -> (s: GameStatus)
        ensures
            s == GameStatus::StillPlaying,
    {
        GameStatus::StillPlaying
    }
}

impl GameStatus {
    /// The place of a status in the order of statuses: -1 for a win of O, 1
    /// for a win of X, 0 for a draw and for a game that goes on.
    pub open spec fn level(self) -> int {
        match self {
            GameStatus::OWin => -1,
            GameStatus::Draw | GameStatus::StillPlaying => 0,
            GameStatus::XWin => 1,
        }
    }

    /// Whether one of the sides has won.
    pub open spec fn is_win(self) -> bool {
        self == GameStatus::XWin || self == GameStatus::OWin
    }

    /// What two lines, or two groups of lines, say together; `None` when each
    /// of the two sides has won on one of them, which no game can reach.
    /// Otherwise a win on either side stands, then a game that goes on on
    /// either side goes on, and a draw remains only if both are drawn.
    pub open spec fn spec_combine(lhs: Self, rhs: Self) -> Option<Self> {
        if lhs.is_win() && rhs.is_win() && lhs != rhs {
            None
        } else if lhs.is_win() {
            Some(lhs)
        } else if rhs.is_win() {
            Some(rhs)
        } else if lhs == GameStatus::StillPlaying || rhs == GameStatus::StillPlaying {
            Some(GameStatus::StillPlaying)
        } else {
            Some(GameStatus::Draw)
        }
    }

    /// `spec_combine` on statuses that may already be undefined.
    pub open spec fn merge(lhs: Option<Self>, rhs: Option<Self>) -> Option<Self> {
        match (lhs, rhs) {
            (Some(l), Some(r)) => Self::spec_combine(l, r),
            _ => None,
        }
    }

    /// Combines the statuses of two lines, or of two groups of lines, into
    /// one. Meant to be folded over all the lines of a board, in any order.
    /// The two statuses may not be wins of different sides.
    pub fn combine(lhs: Self, rhs: Self) -> (r: Self)
        requires
            Self::spec_combine(lhs, rhs) is Some,
        ensures
            Some(r) == Self::spec_combine(lhs, rhs),
    {
        match lhs {
            GameStatus::XWin => GameStatus::XWin,
            GameStatus::OWin => GameStatus::OWin,
            GameStatus::Draw => match rhs {
                GameStatus::XWin => GameStatus::XWin,
                GameStatus::OWin => GameStatus::OWin,
                GameStatus::Draw => GameStatus::Draw,
                GameStatus::StillPlaying => GameStatus::StillPlaying,
            },
            GameStatus::StillPlaying => match rhs {
                GameStatus::XWin => GameStatus::XWin,
                GameStatus::OWin => GameStatus::OWin,
                GameStatus::Draw | GameStatus::StillPlaying => GameStatus::StillPlaying,
            },
        }
    }

    /// Combines two statuses if the two sides have not both won, and returns
    /// `None` if they have.
    pub fn checked_combine(lhs: Self, rhs: Self) -> (r: Option<Self>)
        ensures
            r == Self::spec_combine(lhs, rhs),
    {
        match (lhs, rhs) {
            (GameStatus::XWin, GameStatus::OWin) | (GameStatus::OWin, GameStatus::XWin) => None,
            _ => Some(Self::combine(lhs, rhs)),
        }
    }

    /// The name of the status, as it is shown to the players.
    pub open spec fn spec_name(self) -> Seq<char> {
        match self {
            GameStatus::XWin => "XWin"@,
            GameStatus::OWin => "OWin"@,
            GameStatus::Draw => "Draw"@,
            GameStatus::StillPlaying => "StillPlaying"@,
        }
    }

    /// The name of the status.
    pub fn name(&self) -> (r: &'static str)
        ensures
            r@ == self.spec_name(),
    {
        match self {
            GameStatus::XWin => "XWin",
            GameStatus::OWin => "OWin",
            GameStatus::Draw => "Draw",
            GameStatus::StillPlaying => "StillPlaying",
        }
    }

    /// The status as it is shown: its name.
    pub fn to_string(&self) -> (text: String)
        ensures
            text@ == self.spec_name(),
    {
        String::from_str(self.name())
    }
}

/// Statuses are ordered as the side that plays X likes them: a win of O is
/// least, a win of X greatest, and a draw and a game that goes on are equal
/// and lie between them.
impl PartialOrd for GameStatus {
    fn partial_cmp(&self, other: &Self) -> (r: Option<Ordering>) {
        match (self, other) {
            (GameStatus::OWin, GameStatus::OWin) | (GameStatus::XWin, GameStatus::XWin) | (
                GameStatus::Draw | GameStatus::StillPlaying,
                GameStatus::Draw | GameStatus::StillPlaying,
            ) => Some(Ordering::Equal),
            (GameStatus::OWin, _) | (_, GameStatus::XWin) => Some(Ordering::Less),
            (GameStatus::XWin, _) | (_, GameStatus::OWin) => Some(Ordering::Greater),
        }
    }
}

impl vstd::std_specs::cmp::PartialOrdSpecImpl for GameStatus {
    open spec fn obeys_partial_cmp_spec() -> bool {
        true
    }

    open spec fn partial_cmp_spec(&self, other: &Self) -> Option<Ordering> {
        if self.level() < other.level() {
            Some(Ordering::Less)
        } else if self.level() > other.level() {
            Some(Ordering::Greater)
        } else {
            Some(Ordering::Equal)
        }
    }
}

/// Combining game statuses does not depend on the order of the operands nor
/// on how they are grouped, a win combined with itself is that win, a win of
/// each side is undefined, and a drawn line beside an open one leaves the
/// game open.
pub proof fn lemma_game_status_combine_laws(a: GameStatus, b: GameStatus, c: GameStatus)
    ensures
        GameStatus::spec_combine(a, b) == GameStatus::spec_combine(b, a),
        GameStatus::merge(GameStatus::spec_combine(a, b), Some(c)) == GameStatus::merge(
            Some(a),
            GameStatus::spec_combine(b, c),
        ),
        GameStatus::spec_combine(GameStatus::XWin, GameStatus::XWin) == Some(GameStatus::XWin),
        GameStatus::spec_combine(GameStatus::OWin, GameStatus::OWin) == Some(GameStatus::OWin),
        GameStatus::spec_combine(GameStatus::XWin, GameStatus::OWin) is None,
        GameStatus::spec_combine(GameStatus::Draw, GameStatus::StillPlaying) == Some(
            GameStatus::StillPlaying,
        ),
        a.is_win() && !b.is_win() ==> GameStatus::spec_combine(a, b) == Some(a),
{
}

/// Whether some square of the line is blank.
pub open spec fn line_has_blank(line: Seq<SquareType>) -> bool {
    exists|i: int| 0 <= i < line.len() && line[i] == SquareType::B
}

/// Whether every square of the line holds `mark`.
pub open spec fn line_all(line: Seq<SquareType>, mark: SquareType) -> bool {
    forall|i: int| 0 <= i < line.len() ==> line[i] == mark
}

/// The status of one line with at least one square: the game goes on while
/// the line has a blank square; a full line is a win for the side that holds
/// all of it, and drawn if both sides have a mark on it.
pub open spec fn line_status(line: Seq<SquareType>) -> GameStatus {
    if line_has_blank(line) {
        GameStatus::StillPlaying
    } else if line_all(line, SquareType::X) {
        GameStatus::XWin
    } else if line_all(line, SquareType::O) {
        GameStatus::OWin
    } else {
        GameStatus::Draw
    }
}

/// Folds [`PartialLineStatus::combine`] over the squares of a line.
pub fn reduce_line<'a>(line: &'a [SquareType]) -> (r: PartialLineStatus<'a>)
    requires
        line@.len() > 0,
    ensures
        r.spec_upgrade() == line_status(line@),
{
    let mut acc = PartialLineStatus::PartialLine(&line[0]);
    let mut i: usize = 1;
    assert(line@.take(1)[0] == line@[0]);
    while i < line.len()
        invariant
            1 <= i <= line@.len(),
            acc.spec_upgrade() == line_status(line@.take(i as int)),
        decreases line@.len() - i,
    {
        let ghost before = line@.take(i as int);
        let ghost after = line@.take(i + 1);
        proof {
            assert(forall|k: int| 0 <= k < i ==> before[k] == after[k]);
            assert(after[i as int] == line@[i as int]);
            assert(before[0] == after[0]);
            if line_has_blank(before) {
                let k = choose|k: int| 0 <= k < before.len() && before[k] == SquareType::B;
                assert(after[k] == SquareType::B);
            }
        }
        acc = PartialLineStatus::combine(&acc, &PartialLineStatus::PartialLine(&line[i]));
        i += 1;
    }
    assert(line@.take(i as int) == line@);
    acc
}

/// A move together with the outcome it leads to: what the search returns.
#[derive(Debug, Clone, Copy, PartialEq, Eq, Structural)]
pub struct MoveScoreTurns {
    /// The status of the game at the end of the line of play.
    pub score: GameStatus,
    /// How many plies of the search budget were left when that status was
    /// reached.
    pub blank_squares_remaining: u32,
    /// The move itself.
    pub player_move: Point,
}

impl Default for MoveScoreTurns {
    fn default() -> (m: MoveScoreTurns)
        ensures
            m == (MoveScoreTurns {
                score: GameStatus::StillPlaying,
                blank_squares_remaining: 0,
                player_move: Point { x: 0, y: 0 },
            }),
    {
        MoveScoreTurns {
            score: GameStatus::StillPlaying,
            blank_squares_remaining: 0,
            player_move: Point { x: 0, y: 0 },
        }
    }
}

impl MoveScoreTurns {
    /// The greatest outcome a search of nine plies can meet: a win of X with
    /// the whole budget left.
    pub open spec fn spec_greatest() -> Self {
        MoveScoreTurns {
            score: GameStatus::XWin,
            blank_squares_remaining: Board::EMPTY_BOARD_BLANK_SQUARES_REMAINING,
            player_move: Point { x: 0, y: 0 },
        }
    }

    /// The least outcome a search of nine plies can meet: a win of O with
    /// the whole budget left.
    pub open spec fn spec_least() -> Self {
        MoveScoreTurns {
            score: GameStatus::OWin,
            blank_squares_remaining: Board::EMPTY_BOARD_BLANK_SQUARES_REMAINING,
            player_move: Point { x: 0, y: 0 },
        }
    }

    /// The upper end of the search window at the root, and the value a side
    /// that minimizes starts from.
    pub fn greatest() -> (r: Self)
        ensures
            r == Self::spec_greatest(),
    {
        MoveScoreTurns {
            score: GameStatus::XWin,
            blank_squares_remaining: Board::EMPTY_BOARD_BLANK_SQUARES_REMAINING,
            player_move: Point { x: 0, y: 0 },
        }
    }

    /// The lower end of the search window at the root, and the value a side
    /// that maximizes starts from.
    pub fn least() -> (r: Self)
        ensures
            r == Self::spec_least(),
    {
        MoveScoreTurns {
            score: GameStatus::OWin,
            blank_squares_remaining: Board::EMPTY_BOARD_BLANK_SQUARES_REMAINING,
            player_move: Point { x: 0, y: 0 },
        }
    }

    /// The outcome as it is shown: the move, a colon and the status.
    pub open spec fn spec_to_string(self) -> Seq<char> {
        self.player_move.spec_to_string() + ":"@ + self.score.spec_name()
    }

    /// The outcome as it is shown, `(1, 2):Draw` for a move to row 1 and
    /// column 2 that leads to a draw.
    pub fn to_string(&self) -> (text: String)
        ensures
            text@ == self.spec_to_string(),
    {
        let mut text = self.player_move.to_string();
        text.append(":");
        text.append(self.score.name());
        text
    }

    /// The place of an outcome in the order of outcomes, seen from the side
    /// that plays X. A win of X is positive, and the greater the more of the
    /// search budget is left, that is the sooner it comes. A win of O is
    /// negative in the same way. A draw and a game that goes on are both 0.
    /// The move plays no part.
    pub open spec fn rank(self) -> int {
        match self.score {
            GameStatus::XWin => 1 + self.blank_squares_remaining,
            GameStatus::OWin => -1 - self.blank_squares_remaining,
            GameStatus::Draw | GameStatus::StillPlaying => 0,
        }
    }

    /// The greater of two outcomes, the second one if they rank the same.
    pub open spec fn spec_max_of(a: Self, b: Self) -> Self {
        if a.rank() > b.rank() {
            a
        } else {
            b
        }
    }

    /// The lesser of two outcomes, the first one if they rank the same.
    pub open spec fn spec_min_of(a: Self, b: Self) -> Self {
        if b.rank() < a.rank() {
            b
        } else {
            a
        }
    }

    /// The greater of two outcomes, the second one if they rank the same.
    pub fn max_of(a: Self, b: Self) -> (r: Self)
        ensures
            r == Self::spec_max_of(a, b),
    {
        if a > b {
            a
        } else {
            b
        }
    }

    /// The lesser of two outcomes, the first one if they rank the same.
    pub fn min_of(a: Self, b: Self) -> (r: Self)
        ensures
            r == Self::spec_min_of(a, b),
    {
        if b < a {
            b
        } else {
            a
        }
    }
}

/// Outcomes are ordered by their rank: a win of O is below a draw or a game
/// that goes on, which are equal and below a win of X. Of two wins of X the
/// one with more of the search budget left is the greater; of two wins of O
/// it is the lesser.
impl PartialOrd for MoveScoreTurns {
    fn partial_cmp(&self, other: &Self) -> (r: Option<Ordering>) {
        match (self.score, other.score) {
            (GameStatus::OWin, GameStatus::OWin) => {
                if self.blank_squares_remaining > other.blank_squares_remaining {
                    Some(Ordering::Less)
                } else if self.blank_squares_remaining < other.blank_squares_remaining {
                    Some(Ordering::Greater)
                } else {
                    Some(Ordering::Equal)
                }
            },
            (GameStatus::XWin, GameStatus::XWin) => {
                if self.blank_squares_remaining < other.blank_squares_remaining {
                    Some(Ordering::Less)
                } else if self.blank_squares_remaining > other.blank_squares_remaining {
                    Some(Ordering::Greater)
                } else {
                    Some(Ordering::Equal)
                }
            },
            (GameStatus::Draw | GameStatus::StillPlaying, GameStatus::OWin)
            | (
                GameStatus::XWin,
                GameStatus::Draw | GameStatus::StillPlaying | GameStatus::OWin,
            ) => Some(Ordering::Greater),
            (
                GameStatus::Draw | GameStatus::StillPlaying,
                GameStatus::Draw | GameStatus::StillPlaying,
            ) => Some(Ordering::Equal),
            (GameStatus::OWin, GameStatus::Draw | GameStatus::StillPlaying | GameStatus::XWin)
            | (GameStatus::Draw | GameStatus::StillPlaying, GameStatus::XWin) => Some(
                Ordering::Less,
            ),
        }
    }
}

impl vstd::std_specs::cmp::PartialOrdSpecImpl for MoveScoreTurns {
    open spec fn obeys_partial_cmp_spec() -> bool {
        true
    }

    open spec fn partial_cmp_spec(&self, other: &Self) -> Option<Ordering> {
        if self.rank() < other.rank() {
            Some(Ordering::Less)
        } else if self.rank() > other.rank() {
            Some(Ordering::Greater)
        } else {
            Some(Ordering::Equal)
        }
    }
}

/// The order of outcomes, case by case: a win of X is above a draw and above
/// a game that goes on, these two are equal, a win of O is below them; the
/// sooner of two wins of X is the greater, the sooner of two wins of O the
/// lesser.
pub proof fn lemma_outcome_order(a: MoveScoreTurns, b: MoveScoreTurns)
    ensures
        a.score == GameStatus::XWin && b.score != GameStatus::XWin ==> a.partial_cmp_spec(&b)
            == Some(Ordering::Greater),
        a.score == GameStatus::OWin && b.score != GameStatus::OWin ==> a.partial_cmp_spec(&b)
            == Some(Ordering::Less),
        !a.score.is_win() && !b.score.is_win() ==> a.partial_cmp_spec(&b) == Some(Ordering::Equal),
        a.score == GameStatus::XWin && b.score == GameStatus::XWin && a.blank_squares_remaining
            > b.blank_squares_remaining ==> a.partial_cmp_spec(&b) == Some(Ordering::Greater),
        a.score == GameStatus::OWin && b.score == GameStatus::OWin && a.blank_squares_remaining
            > b.blank_squares_remaining ==> a.partial_cmp_spec(&b) == Some(Ordering::Less),
        a.score == b.score && a.blank_squares_remaining == b.blank_squares_remaining
            ==> a.partial_cmp_spec(&b) == Some(Ordering::Equal),
        a.score.level() < b.score.level() ==> a.partial_cmp_spec(&b) == Some(Ordering::Less),
        a.score.partial_cmp_spec(&b.score) == Some(Ordering::Less) ==> a.partial_cmp_spec(&b)
            == Some(Ordering::Less),
        GameStatus::XWin.partial_cmp_spec(&GameStatus::Draw) == Some(Ordering::Greater),
        GameStatus::XWin.partial_cmp_spec(&GameStatus::StillPlaying) == Some(Ordering::Greater),
        GameStatus::Draw.partial_cmp_spec(&GameStatus::StillPlaying) == Some(Ordering::Equal),
        GameStatus::OWin.partial_cmp_spec(&GameStatus::Draw) == Some(Ordering::Less),
        MoveScoreTurns::spec_least().rank() == -10,
        MoveScoreTurns::spec_greatest().rank() == 10,
        a.blank_squares_remaining <= 9 ==> MoveScoreTurns::spec_least().rank() <= a.rank()
            <= MoveScoreTurns::spec_greatest().rank(),
{
}

} // verus!
