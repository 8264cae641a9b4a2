//! The board: its grid, its blank squares and its status.

use crate::board_info::{Point, SquareType};
use crate::drawing::{glyphs_of, glyphs_of_row, grid_text, row_string, text_of};
use crate::grid::{
    all_lines, blank_squares_of, blanks_match, board_status, cols_status, columns_of, diag_status,
    diagonals_of, grid_of, grid_status, grid_with, has_square_shape, in_grid, is_square,
    lemma_blank_grid, lemma_grid_with, lemma_line_cells, line_cell, lines_open, lines_status,
    lines_won, rows_status, square_at, status_matches,
};
use crate::layout::{parse_grid, parse_layout};
use crate::scoring::{line_has_blank, GameStatus};
use crate::text::{dashes, dashes_string};
use vstd::prelude::*;
use vstd::std_specs::convert::FromSpec;
use vstd::string::*;

verus! {

/// What a board is, apart from how it is stored.
pub struct BoardView {
    /// The squares, row by row.
    pub grid: Seq<Seq<SquareType>>,
    /// The blank squares, in the order in which the search tries them.
    pub blanks: Seq<Point>,
    /// The remembered status of the game.
    pub status: GameStatus,
}

impl BoardView {
    /// The grid is square and its squares can be named by points, the blank
    /// squares are those of the grid, and the remembered status fits the
    /// grid.
    pub open spec fn wf(self) -> bool {
        &&& is_square(self.grid)
        &&& self.grid.len() <= usize::MAX
        &&& blanks_match(self.grid, self.blanks)
        &&& status_matches(self.grid, self.status)
    }

    /// The board after `mark` is placed on the blank square `p`: the square
    /// holds the mark and is blank no more, and a game that was going on
    /// takes the status of the new grid. A game that was over keeps its
    /// status.
    pub open spec fn place(self, p: Point, mark: SquareType) -> BoardView {
        let grid = grid_with(self.grid, p, mark);
        BoardView {
            grid,
            blanks: self.blanks.remove(self.blanks.index_of(p)),
            status: if self.status == GameStatus::StillPlaying {
                match board_status(grid) {
                    Some(status) => status,
                    None => self.status,
                }
            } else {
                self.status
            },
        }
    }
}

/// Placing a mark on a blank square of a valid board gives a valid board
/// with one blank square less. If the game was going on, the new grid has a
/// status: a single move cannot make both sides win.
pub proof fn lemma_place(b: BoardView, k: int, mark: SquareType)
    requires
        b.wf(),
        0 <= k < b.blanks.len(),
        mark != SquareType::B,
    ensures
        b.blanks.index_of(b.blanks[k]) == k,
        b.place(b.blanks[k], mark).wf(),
        b.place(b.blanks[k], mark).blanks == b.blanks.remove(k),
        b.place(b.blanks[k], mark).blanks.len() == b.blanks.len() - 1,
        b.status == GameStatus::StillPlaying ==> board_status(grid_with(b.grid, b.blanks[k], mark))
            == Some(b.place(b.blanks[k], mark).status),
        b.status != GameStatus::Draw,
        !b.place(b.blanks[k], mark).blanks.contains(b.blanks[k]),
        b.place(b.blanks[k], mark).grid.len() == b.grid.len(),
        forall|q: Point|
            in_grid(b.grid, q) ==> #[trigger] square_at(b.place(b.blanks[k], mark).grid, q) == if q
                == b.blanks[k] {
                mark
            } else {
                square_at(b.grid, q)
            },
{
    let p = b.blanks[k];
    let after = b.place(p, mark);
    lemma_grid_with(b.grid, p, mark);
    let rest = b.blanks.remove(k);
    assert forall|q: Point| in_grid(after.grid, q) && #[trigger] square_at(after.grid, q)
        == SquareType::B implies rest.contains(q) by {
        let j = choose|j: int| 0 <= j < b.blanks.len() && b.blanks[j] == q;
        if j < k {
            assert(rest[j] == q);
        } else {
            assert(rest[j - 1] == q);
        }
    }
}

/// On a valid board, the status worked out afresh from the grid is the
/// status that the board remembers, whenever the grid has a status at all;
/// so working it out twice gives the same.
pub proof fn lemma_status_is_remembered(b: BoardView)
    requires
        b.wf(),
        board_status(b.grid) is Some,
    ensures
        board_status(b.grid) == Some(b.status),
{
}

/// A valid board on which the game goes on has a blank square.
pub proof fn lemma_open_game_has_blank(b: BoardView)
    requires
        b.wf(),
        b.status == GameStatus::StillPlaying,
    ensures
        b.blanks.len() > 0,
{
    let n = b.grid.len() as int;
    let lines = all_lines(b.grid);
    lemma_line_cells(b.grid);
    let k = choose|k: int| 0 <= k < lines.len() && line_has_blank(#[trigger] lines[k]);
    let i = choose|i: int| 0 <= i < lines[k].len() && lines[k][i] == SquareType::B;
    let (r, c) = line_cell(n, k, i);
    let p = Point { x: r as usize, y: c as usize };
    assert(square_at(b.grid, p) == SquareType::B);
}

/// The blank squares of a board, in row-major order.
#[derive(Debug)]
pub struct PointCollection(Vec<Point>);

impl Clone for PointCollection {
    fn clone(&self) -> (r: Self)
        ensures
            r@ == self@,
    {
        let points = self.0.clone();
        PointCollection(points)
    }
}

impl From<Vec<Point>> for PointCollection {
    fn from(value: Vec<Point>) -> (r: Self) {
        Self(value)
    }
}

impl vstd::std_specs::convert::FromSpecImpl<Vec<Point>> for PointCollection {
    open spec fn obeys_from_spec() -> bool {
        true
    }

    closed spec fn from_spec(value: Vec<Point>) -> Self {
        PointCollection(value)
    }
}

/// A collection made from a vector holds the points of the vector, in the
/// same order.
pub proof fn lemma_collection_from_vec(value: Vec<Point>)
    ensures
        PointCollection::from_spec(value)@ == value@,
{
}

impl View for PointCollection {
    type V = Seq<Point>;

    closed spec fn view(&self) -> Seq<Point> {
        self.0@
    }
}

/// The points as they are shown, one after the other with a comma and a
/// space between them.
pub open spec fn points_text(points: Seq<Point>) -> Seq<char>
    decreases points.len(),
{
    if points.len() == 0 {
        Seq::empty()
    } else if points.len() == 1 {
        points[0].spec_to_string()
    } else {
        points_text(points.drop_last()) + ", "@ + points.last().spec_to_string()
    }
}

impl PointCollection {
    /// The points as they are shown, `(0, 1), (2, 2)` for two of them.
    pub fn to_string(&self) -> (text: String)
        ensures
            text@ == points_text(self@),
    {
        let mut text = String::new();
        let mut i: usize = 0;
        while i < self.0.len()
            invariant
                0 <= i <= self@.len(),
                text@ == points_text(self@.take(i as int)),
            decreases self@.len() - i,
        {
            let ghost before = self@.take(i as int);
            let ghost after = self@.take(i + 1);
            assert(after.drop_last() == before);
            if i > 0 {
                text.append(", ");
            }
            let point = self.0[i].to_string();
            text.append(point.as_str());
            assert(text@ =~= points_text(after));
            i += 1;
        }
        assert(self@.take(i as int) == self@);
        text
    }

    /// The number of points.
    pub fn len(&self) -> (n: usize)
        ensures
            n == self@.len(),
    {
        self.0.len()
    }

    /// The point at place `i`.
    pub fn get(&self, i: usize) -> (p: Point)
        requires
            i < self@.len(),
        ensures
            p == self@[i as int],
    {
        self.0[i]
    }

    /// The place of `point` among the points, if it is one of them.
    pub fn position(&self, point: &Point) -> (r: Option<usize>)
        ensures
            match r {
                Some(i) => i < self@.len() && self@[i as int] == *point && forall|k: int|
                    0 <= k < i ==> self@[k] != *point,
                None => !self@.contains(*point),
            },
    {
        let mut i: usize = 0;
        while i < self.0.len()
            invariant
                0 <= i <= self@.len(),
                forall|k: int| 0 <= k < i ==> self@[k] != *point,
            decreases self@.len() - i,
        {
            if self.0[i] == *point {
                return Some(i);
            }
            i += 1;
        }
        None
    }
}

/// A tic-tac-toe board: a square grid of squares, the list of its blank
/// squares, and the status of the game played on it.
pub struct Board {
    content: Vec<Vec<SquareType>>,
    size: usize,
    blank_squares_set: PointCollection,
    game_status: GameStatus,
}

impl Clone for Board {
    fn clone(&self) -> (copy: Self)
        ensures
            copy@ == self@,
            copy.spec_size() == self.spec_size(),
    {
        let content = self.content.clone();
        assert(grid_of(content@) =~= grid_of(self.content@));
        Board {
            content,
            size: self.size,
            blank_squares_set: self.blank_squares_set.clone(),
            game_status: self.game_status,
        }
    }
}

impl View for Board {
    type V = BoardView;

    closed spec fn view(&self) -> BoardView {
        BoardView {
            grid: grid_of(self.content@),
            blanks: self.blank_squares_set@,
            status: self.game_status,
        }
    }
}

impl Board {
    /// The number of blank squares of an empty three by three board.
    pub const EMPTY_BOARD_BLANK_SQUARES_REMAINING: u32 = 9;

    /// The side length that the board was made with.
    pub closed spec fn spec_size(&self) -> usize {
        self.size
    }

    /// Whether the board is valid: its view is, and its side length is that
    /// of the grid.
    pub open spec fn wf(&self) -> bool {
        &&& self@.wf()
        &&& self.spec_size() == self@.grid.len()
    }

    /// A board made of its parts, which must fit each other.
    fn new(
        content: Vec<Vec<SquareType>>,
        size: usize,
        blank_squares_set: PointCollection,
        game_status: GameStatus,
    ) -> (board: Self)
        requires
            size == content@.len(),
            is_square(grid_of(content@)),
            blanks_match(grid_of(content@), blank_squares_set@),
            status_matches(grid_of(content@), game_status),
        ensures
            board.wf(),
            board@ == (BoardView {
                grid: grid_of(content@),
                blanks: blank_squares_set@,
                status: game_status,
            }),
    {
        Self { content, size, blank_squares_set, game_status }
    }

    /// The side length of the board.
    pub fn size(&self) -> (n: usize)
        ensures
            n == self.spec_size(),
            self.wf() ==> n == self@.grid.len(),
    {
        self.size
    }

    /// The status of the game as the board remembers it.
    pub fn game_status(&self) -> (status: GameStatus)
        ensures
            status == self@.status,
    {
        self.game_status
    }

    /// The blank squares of the board, row by row.
    pub fn blank_squares(&self) -> (blanks: &PointCollection)
        ensures
            blanks@ == self@.blanks,
    {
        &self.blank_squares_set
    }

    /// What the square at `point` holds.
    pub fn square(&self, point: &Point) -> (s: SquareType)
        requires
            self.wf(),
            in_grid(self@.grid, *point),
        ensures
            s == square_at(self@.grid, *point),
    {
        self.content[point.x][point.y]
    }

    /// The status that the rows alone give. No two rows may be held by
    /// different sides.
    pub fn check_rows(&self) -> (r: GameStatus)
        requires
            self.wf(),
            lines_status(self@.grid) is Some,
        ensures
            Some(r) == lines_status(self@.grid),
    {
        rows_status(&self.content).unwrap()
    }

    /// The status that the columns alone give. No two columns may be held by
    /// different sides.
    pub fn check_cols(&self) -> (r: GameStatus)
        requires
            self.wf(),
            lines_status(columns_of(self@.grid)) is Some,
        ensures
            Some(r) == lines_status(columns_of(self@.grid)),
    {
        cols_status(&self.content).unwrap()
    }

    /// The status that the two diagonals alone give. They may not be held by
    /// different sides.
    pub fn check_diag(&self) -> (r: GameStatus)
        requires
            self.wf(),
            lines_status(diagonals_of(self@.grid)) is Some,
        ensures
            Some(r) == lines_status(diagonals_of(self@.grid)),
    {
        diag_status(&self.content).unwrap()
    }

    /// The status of the board, worked out afresh from all its lines, or
    /// `None` if two lines are held by different sides. That can only be
    /// after marks were placed on a board on which the game was over.
    pub fn checked_status(&self) -> (r: Option<GameStatus>)
        requires
            self.wf(),
        ensures
            r == board_status(self@.grid),
            r matches Some(status) ==> status == self@.status,
            self@.status == GameStatus::StillPlaying || self@.status == GameStatus::Draw ==> r
                is Some,
    {
        grid_status(&self.content)
    }

    /// The status of the board, worked out afresh from all its lines. It is
    /// the status that the board remembers. No two lines may be held by
    /// different sides.
    pub fn check_status(&self) -> (r: GameStatus)
        requires
            self.wf(),
            board_status(self@.grid) is Some,
        ensures
            Some(r) == board_status(self@.grid),
            r == self@.status,
    {
        grid_status(&self.content).unwrap()
    }

    /// Whether the board is valid but for its status, which may be out of
    /// date: where it says that the game goes on, the grid may say more.
    spec fn wf_before_update(&self) -> bool {
        &&& is_square(self@.grid)
        &&& blanks_match(self@.grid, self@.blanks)
        &&& self.size == self@.grid.len()
        &&& if self@.status == GameStatus::StillPlaying {
            board_status(self@.grid) is Some
        } else {
            status_matches(self@.grid, self@.status)
        }
    }

    /// Brings the status up to date with the grid while the game goes on. A
    /// game that is over keeps its status.
    fn update_status(&mut self)
        requires
            old(self).wf_before_update(),
        ensures
            final(self).wf(),
            final(self)@.grid == old(self)@.grid,
            final(self)@.blanks == old(self)@.blanks,
            final(self)@.status == if old(self)@.status == GameStatus::StillPlaying {
                board_status(old(self)@.grid)->0
            } else {
                old(self)@.status
            },
    {
        if GameStatus::StillPlaying == self.game_status {
            if let Some(status) = grid_status(&self.content) {
                self.game_status = status;
            }
        }
    }

    /// A board of the given side length with every square blank, on which
    /// the game goes on.
    pub fn initialize_blank_board(size: usize) -> (board: Board)
        requires
            size >= 1,
        ensures
            board.wf(),
            board@.grid.len() == size,
            forall|p: Point| in_grid(board@.grid, p) ==> #[trigger] square_at(board@.grid, p)
                == SquareType::B,
            forall|p: Point| in_grid(board@.grid, p) ==> #[trigger] board@.blanks.contains(p),
            board@.status == GameStatus::StillPlaying,
    {
        let mut content: Vec<Vec<SquareType>> = Vec::new();
        let mut i: usize = 0;
        while i < size
            invariant
                0 <= i <= size,
                content@.len() == i,
                forall|r: int| 0 <= r < i ==> (#[trigger] content@[r])@.len() == size,
                forall|r: int, c: int|
                    0 <= r < i && 0 <= c < size ==> #[trigger] content@[r]@[c] == SquareType::B,
            decreases size - i,
        {
            let mut row: Vec<SquareType> = Vec::new();
            let mut j: usize = 0;
            while j < size
                invariant
                    0 <= j <= size,
                    row@.len() == j,
                    forall|c: int| 0 <= c < j ==> #[trigger] row@[c] == SquareType::B,
                decreases size - j,
            {
                row.push(SquareType::B);
                j += 1;
            }
            content.push(row);
            i += 1;
        }
        let ghost grid = grid_of(content@);
        let blanks = blank_squares_of(&content);
        proof {
            lemma_blank_grid(grid);
        }
        let board = Board::new(content, size, PointCollection(blanks), GameStatus::StillPlaying);
        assert forall|p: Point| in_grid(board@.grid, p) implies #[trigger] board@.blanks.contains(
            p,
        ) by {
            assert(square_at(board@.grid, p) == SquareType::B);
        }
        board
    }

    /// The board that a layout describes, with its status worked out from
    /// the grid; or the reason for which the layout describes no board.
    pub fn load(layout: &str) -> (r: Result<Board, LayoutError>)
        ensures
            match r {
                Ok(board) => board.wf() && board@.grid == parse_layout(layout@) && Some(
                    board@.status,
                ) == board_status(board@.grid),
                Err(LayoutError::NotSquare) => !is_square(parse_layout(layout@)),
                Err(LayoutError::TwoWinners) => is_square(parse_layout(layout@)) && board_status(
                    parse_layout(layout@),
                ) is None,
            },
    {
        let content = parse_grid(layout);
        if !has_square_shape(&content) {
            return Err(LayoutError::NotSquare);
        }
        match grid_status(&content) {
            None => Err(LayoutError::TwoWinners),
            Some(status) => {
                let size = content.len();
                let blanks = blank_squares_of(&content);
                Ok(Board::new(content, size, PointCollection(blanks), status))
            },
        }
    }

    /// The board that a layout describes, with its status worked out from
    /// the grid. The layout must describe a square grid on which the two
    /// sides have not both won.
    pub fn from_string(string: &str) -> (board: Board)
        requires
            is_square(parse_layout(string@)),
            board_status(parse_layout(string@)) is Some,
        ensures
            board.wf(),
            board@.grid == parse_layout(string@),
            Some(board@.status) == board_status(board@.grid),
    {
        let content = parse_grid(string);
        let size = content.len();
        let blanks = blank_squares_of(&content);
        let status = grid_status(&content).unwrap();
        Board::new(content, size, PointCollection(blanks), status)
    }

    /// The board as it is drawn: every square between two spaces, bars
    /// between the squares of a row, and a line of dashes between rows.
    pub fn to_string(&self) -> (text: String)
        ensures
            text@ == grid_text(self@.grid, self.spec_size() as nat),
    {
        proof {
            reveal_strlit("\n");
        }
        let ghost grid = self@.grid;
        let ghost size = self.size as nat;
        let rule = dashes_string(self.size);
        let mut text = String::new();
        let mut i: usize = 0;
        while i < self.content.len()
            invariant
                0 <= i <= self.content@.len(),
                grid == grid_of(self.content@),
                "\n"@ == seq!['\n'],
                rule@ == dashes(size),
                text@ == grid_text(grid.take(i as int), size),
            decreases self.content@.len() - i,
        {
            let ghost before = grid.take(i as int);
            let ghost after = grid.take(i + 1);
            assert(after.drop_last() == before);
            if i > 0 {
                text.append("\n");
                text.append(rule.as_str());
                text.append("\n");
            }
            let row = row_string(&self.content[i]);
            text.append(row.as_str());
            assert(text@ =~= grid_text(after, size));
            i += 1;
        }
        assert(grid.take(i as int) == grid);
        text
    }

    /// The characters that stand for the squares, row by row: a space for a
    /// blank square, the letter of the mark otherwise.
    pub fn glyphs(&self) -> (rows: Vec<Vec<char>>)
        ensures
            text_of(rows@) == glyphs_of(self@.grid),
    {
        let ghost grid = self@.grid;
        let mut rows: Vec<Vec<char>> = Vec::new();
        let mut i: usize = 0;
        while i < self.content.len()
            invariant
                0 <= i <= self.content@.len(),
                grid == grid_of(self.content@),
                rows@.len() == i,
                forall|r: int| 0 <= r < i ==> (#[trigger] rows@[r])@ == glyphs_of(grid)[r],
            decreases self.content@.len() - i,
        {
            let mut row: Vec<char> = Vec::new();
            let mut j: usize = 0;
            while j < self.content[i].len()
                invariant
                    0 <= i < self.content@.len(),
                    0 <= j <= self.content@[i as int]@.len(),
                    grid == grid_of(self.content@),
                    grid[i as int] == self.content@[i as int]@,
                    row@.len() == j,
                    forall|c: int| 0 <= c < j ==> #[trigger] row@[c] == grid[i as int][c].spec_glyph(),
                decreases self.content@[i as int]@.len() - j,
            {
                row.push(self.content[i][j].glyph());
                j += 1;
            }
            rows.push(row);
            i += 1;
        }
        rows
    }

    /// Places `value` on the square at `point`, which must be blank, and
    /// brings the status up to date. A point that names no blank square is
    /// refused, and the board stays as it was.
    pub fn insert(&mut self, point: &Point, value: SquareType) -> (r: Result<(), InvalidMove>)
        requires
            old(self).wf(),
            value != SquareType::B,
        ensures
            final(self).wf(),
            r is Ok <==> old(self)@.blanks.contains(*point),
            r is Ok ==> final(self)@ == old(self)@.place(*point, value),
            r is Ok ==> final(self)@.blanks.len() == old(self)@.blanks.len() - 1
                && !final(self)@.blanks.contains(*point) && square_at(final(self)@.grid, *point)
                == value,
            r matches Err(e) ==> e.attempted == *point && e.valid@ == old(self)@.blanks
                && final(self)@ == old(self)@,
            old(self)@.status != GameStatus::StillPlaying ==> final(self)@.status == old(
                self,
            )@.status,
    {
        match self.blank_squares_set.position(point) {
            Some(k) => {
                proof {
                    lemma_place(self@, k as int, value);
                    lemma_grid_with(self@.grid, *point, value);
                }
                let ghost before = self@;
                self.blank_squares_set.0.remove(k);
                self.content[point.x].set(point.y, value);
                assert(self@.grid =~= grid_with(before.grid, *point, value));
                self.update_status();
                Ok(())
            },
            None => Err(
                InvalidMove { attempted: *point, valid: self.blank_squares_set.clone() },
            ),
        }
    }
}

/// A refused move: the point that was tried, and the points that could have
/// been played.
#[derive(Debug)]
pub struct InvalidMove {
    pub attempted: Point,
    pub valid: PointCollection,
}

impl InvalidMove {
    /// The message for the user: the point that was tried and the points
    /// that can be played.
    pub open spec fn spec_to_string(self) -> Seq<char> {
        "Not a valid insert position: "@ + self.attempted.spec_to_string()
            + ". Valid positions are "@ + points_text(self.valid@)
    }

    /// The message for the user.
    pub fn to_string(&self) -> (text: String)
        ensures
            text@ == self.spec_to_string(),
    {
        let mut text = String::from_str("Not a valid insert position: ");
        let attempted = self.attempted.to_string();
        text.append(attempted.as_str());
        text.append(". Valid positions are ");
        let valid = self.valid.to_string();
        text.append(valid.as_str());
        text
    }
}

/// Why a layout describes no board.
#[derive(Debug, Clone, Copy, PartialEq, Eq, Structural)]
pub enum LayoutError {
    /// The rows are not as many as every row has squares, or there is no row.
    NotSquare,
    /// Each of the two sides holds a whole line.
    TwoWinners,
}

} // verus!
