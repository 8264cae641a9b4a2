//! Square grids of squares: their lines, the status that the lines give,
//! and their blank squares.

use crate::board_info::{Point, SquareType};
use crate::scoring::{line_all, line_has_blank, line_status, reduce_line, GameStatus};
use vstd::prelude::*;

verus! {

/// A grid is square when it has at least one row and every row is as long as
/// the grid is high.
pub open spec fn is_square(grid: Seq<Seq<SquareType>>) -> bool {
    &&& grid.len() >= 1
    &&& forall|i: int| 0 <= i < grid.len() ==> (#[trigger] grid[i]).len() == grid.len()
}

/// The rows that a vector of vectors holds.
pub open spec fn grid_of(rows: Seq<Vec<SquareType>>) -> Seq<Seq<SquareType>> {
    Seq::new(rows.len(), |i: int| rows[i]@)
}

/// Whether `p` names a square of a square grid.
pub open spec fn in_grid(grid: Seq<Seq<SquareType>>, p: Point) -> bool {
    p.x < grid.len() && p.y < grid.len()
}

/// The square of `grid` that `p` names.
pub open spec fn square_at(grid: Seq<Seq<SquareType>>, p: Point) -> SquareType {
    grid[p.x as int][p.y as int]
}

/// The columns of a square grid, from left to right, each from top to bottom.
pub open spec fn columns_of(grid: Seq<Seq<SquareType>>) -> Seq<Seq<SquareType>> {
    Seq::new(grid.len(), |j: int| Seq::new(grid.len(), |i: int| grid[i][j]))
}

/// The two diagonals of a square grid: first the one from the top left
/// corner, then the one from the bottom left corner.
pub open spec fn diagonals_of(grid: Seq<Seq<SquareType>>) -> Seq<Seq<SquareType>> {
    seq![
        Seq::new(grid.len(), |i: int| grid[i][i]),
        Seq::new(grid.len(), |i: int| grid[grid.len() - 1 - i][i]),
    ]
}

/// All the lines on which a game can be won: rows, columns, diagonals.
pub open spec fn all_lines(grid: Seq<Seq<SquareType>>) -> Seq<Seq<SquareType>> {
    grid + columns_of(grid) + diagonals_of(grid)
}

/// The row and the column of square `i` of line `k` of a grid of side `n`,
/// the lines counted as [`all_lines`] lists them.
pub open spec fn line_cell(n: int, k: int, i: int) -> (int, int) {
    if k < n {
        (k, i)
    } else if k < 2 * n {
        (i, k - n)
    } else if k == 2 * n {
        (i, i)
    } else {
        (n - 1 - i, i)
    }
}

/// Whether some line of `lines` is held by `mark` alone.
pub open spec fn lines_won(lines: Seq<Seq<SquareType>>, mark: SquareType) -> bool {
    exists|k: int| 0 <= k < lines.len() && line_all(#[trigger] lines[k], mark)
}

/// Whether some line of `lines` has a blank square.
pub open spec fn lines_open(lines: Seq<Seq<SquareType>>) -> bool {
    exists|k: int| 0 <= k < lines.len() && line_has_blank(#[trigger] lines[k])
}

/// The status that a group of lines gives: a win for the side that holds a
/// whole line, else a game that goes on if a line has a blank square, else a
/// draw. It is `None` when each side holds a whole line.
pub open spec fn lines_status(lines: Seq<Seq<SquareType>>) -> Option<GameStatus> {
    if lines_won(lines, SquareType::X) && lines_won(lines, SquareType::O) {
        None
    } else if lines_won(lines, SquareType::X) {
        Some(GameStatus::XWin)
    } else if lines_won(lines, SquareType::O) {
        Some(GameStatus::OWin)
    } else if lines_open(lines) {
        Some(GameStatus::StillPlaying)
    } else {
        Some(GameStatus::Draw)
    }
}

/// The status of a whole grid, from all its lines.
pub open spec fn board_status(grid: Seq<Seq<SquareType>>) -> Option<GameStatus> {
    lines_status(all_lines(grid))
}

/// Whether `blanks` lists the blank squares of `grid`: all of them, each
/// once, row by row and from left to right within a row.
pub open spec fn blanks_match(grid: Seq<Seq<SquareType>>, blanks: Seq<Point>) -> bool {
    &&& forall|k: int|
        0 <= k < blanks.len() ==> in_grid(grid, #[trigger] blanks[k]) && square_at(grid, blanks[k])
            == SquareType::B
    &&& forall|k: int, l: int|
        0 <= k < l < blanks.len() ==> (#[trigger] blanks[k]).precedes(#[trigger] blanks[l])
    &&& forall|p: Point|
        in_grid(grid, p) && #[trigger] square_at(grid, p) == SquareType::B ==> blanks.contains(p)
}

/// Whether `status` may be the remembered status of a game on `grid`. While
/// the game goes on, and once it is drawn, the status is that of the grid. A
/// win stays once it is reached, whatever is placed afterwards.
pub open spec fn status_matches(grid: Seq<Seq<SquareType>>, status: GameStatus) -> bool {
    match status {
        GameStatus::StillPlaying => board_status(grid) == Some(GameStatus::StillPlaying),
        GameStatus::Draw => board_status(grid) == Some(GameStatus::Draw),
        GameStatus::XWin => lines_won(all_lines(grid), SquareType::X),
        GameStatus::OWin => lines_won(all_lines(grid), SquareType::O),
    }
}

/// The grid with `mark` written on the square that `p` names.
pub open spec fn grid_with(grid: Seq<Seq<SquareType>>, p: Point, mark: SquareType) -> Seq<
    Seq<SquareType>,
> {
    grid.update(p.x as int, grid[p.x as int].update(p.y as int, mark))
}

/// A side holds a line of two groups taken together exactly if it holds a
/// line of one of them, and likewise for open lines; so the status of both
/// together is the combination of their statuses.
pub proof fn lemma_lines_concat(a: Seq<Seq<SquareType>>, b: Seq<Seq<SquareType>>)
    ensures
        forall|mark: SquareType| #[trigger]
            lines_won(a + b, mark) == (lines_won(a, mark) || lines_won(b, mark)),
        lines_open(a + b) == (lines_open(a) || lines_open(b)),
        lines_status(a + b) == GameStatus::merge(lines_status(a), lines_status(b)),
{
    let ab = a + b;
    assert forall|mark: SquareType| #[trigger]
        lines_won(ab, mark) == (lines_won(a, mark) || lines_won(b, mark)) by {
        if lines_won(a, mark) {
            let k = choose|k: int| 0 <= k < a.len() && line_all(#[trigger] a[k], mark);
            assert(ab[k] == a[k]);
        }
        if lines_won(b, mark) {
            let k = choose|k: int| 0 <= k < b.len() && line_all(#[trigger] b[k], mark);
            assert(ab[a.len() + k] == b[k]);
        }
    }
    if lines_open(a) {
        let k = choose|k: int| 0 <= k < a.len() && line_has_blank(#[trigger] a[k]);
        assert(ab[k] == a[k]);
    }
    if lines_open(b) {
        let k = choose|k: int| 0 <= k < b.len() && line_has_blank(#[trigger] b[k]);
        assert(ab[a.len() + k] == b[k]);
    }
    assert(lines_won(ab, SquareType::X) == (lines_won(a, SquareType::X) || lines_won(
        b,
        SquareType::X,
    )));
    assert(lines_won(ab, SquareType::O) == (lines_won(a, SquareType::O) || lines_won(
        b,
        SquareType::O,
    )));
}

/// A single line with at least one square has the status of that line.
pub proof fn lemma_single_line(line: Seq<SquareType>)
    requires
        line.len() > 0,
    ensures
        lines_status(seq![line]) == Some(line_status(line)),
{
    let lines = seq![line];
    assert(lines[0] == line);
    if line_all(line, SquareType::X) && line_all(line, SquareType::O) {
        assert(line[0] == SquareType::X);
    }
}

/// Every line of a square grid has at least one square, and where the whole
/// grid has a status, so have its rows, its columns and its diagonals.
pub proof fn lemma_parts_have_status(grid: Seq<Seq<SquareType>>)
    requires
        is_square(grid),
    ensures
        forall|k: int| 0 <= k < grid.len() ==> (#[trigger] columns_of(grid)[k]).len() > 0,
        forall|k: int| 0 <= k < 2 ==> (#[trigger] diagonals_of(grid)[k]).len() > 0,
        board_status(grid) == GameStatus::merge(
            GameStatus::merge(lines_status(grid), lines_status(columns_of(grid))),
            lines_status(diagonals_of(grid)),
        ),
        board_status(grid) is Some ==> lines_status(grid) is Some && lines_status(
            columns_of(grid),
        ) is Some && lines_status(diagonals_of(grid)) is Some,
{
    lemma_lines_concat(grid, columns_of(grid));
    lemma_lines_concat(grid + columns_of(grid), diagonals_of(grid));
}

/// A square grid of side `n` has `2 * n + 2` lines of `n` squares each, and
/// square `i` of line `k` is the square of the grid that [`line_cell`] names.
pub proof fn lemma_line_cells(grid: Seq<Seq<SquareType>>)
    requires
        is_square(grid),
    ensures
        all_lines(grid).len() == 2 * grid.len() + 2,
        forall|k: int|
            0 <= k < 2 * grid.len() + 2 ==> (#[trigger] all_lines(grid)[k]).len() == grid.len(),
        forall|k: int, i: int|
            0 <= k < 2 * grid.len() + 2 && 0 <= i < grid.len() ==> {
                let (r, c) = #[trigger] line_cell(grid.len() as int, k, i);
                &&& 0 <= r < grid.len()
                &&& 0 <= c < grid.len()
                &&& all_lines(grid)[k][i] == grid[r][c]
            },
{
    let n = grid.len() as int;
    let lines = all_lines(grid);
    assert forall|k: int| 0 <= k < 2 * n + 2 implies (#[trigger] lines[k]).len() == n by {
        if k < n {
            assert(lines[k] == grid[k]);
        } else if k < 2 * n {
            assert(lines[k] == columns_of(grid)[k - n]);
        } else {
            assert(lines[k] == diagonals_of(grid)[k - 2 * n]);
        }
    }
    assert forall|k: int, i: int| 0 <= k < 2 * n + 2 && 0 <= i < n implies {
        let (r, c) = #[trigger] line_cell(n, k, i);
        &&& 0 <= r < n
        &&& 0 <= c < n
        &&& lines[k][i] == grid[r][c]
    } by {
        if k < n {
            assert(lines[k] == grid[k]);
        } else if k < 2 * n {
            assert(lines[k] == columns_of(grid)[k - n]);
        } else {
            assert(lines[k] == diagonals_of(grid)[k - 2 * n]);
        }
    }
}

/// Writing a mark on a blank square keeps the grid square and changes that
/// square alone. A line that a side holds stays with it, and no side but the
/// one that moved can hold a line that it did not hold before.
pub proof fn lemma_grid_with(grid: Seq<Seq<SquareType>>, p: Point, mark: SquareType)
    requires
        is_square(grid),
        in_grid(grid, p),
        square_at(grid, p) == SquareType::B,
        mark != SquareType::B,
    ensures
        is_square(grid_with(grid, p, mark)),
        grid_with(grid, p, mark).len() == grid.len(),
        forall|q: Point|
            in_grid(grid, q) ==> #[trigger] square_at(grid_with(grid, p, mark), q) == if q == p {
                mark
            } else {
                square_at(grid, q)
            },
        forall|m: SquareType|
            m != SquareType::B && lines_won(all_lines(grid), m) ==> #[trigger] lines_won(
                all_lines(grid_with(grid, p, mark)),
                m,
            ),
        forall|m: SquareType|
            m != mark && #[trigger] lines_won(all_lines(grid_with(grid, p, mark)), m)
                ==> lines_won(all_lines(grid), m),
        lines_open(all_lines(grid)),
{
    let n = grid.len() as int;
    let after = grid_with(grid, p, mark);
    assert(is_square(after)) by {
        assert forall|i: int| 0 <= i < after.len() implies (#[trigger] after[i]).len()
            == after.len() by {
            assert(grid[i].len() == n);
        }
    }
    assert forall|r: int, c: int| 0 <= r < n && 0 <= c < n implies #[trigger] after[r][c] == if r
        == p.x && c == p.y {
        mark
    } else {
        grid[r][c]
    } by {
        assert(grid[r].len() == n);
    }
    assert forall|q: Point| in_grid(grid, q) implies #[trigger] square_at(after, q) == if q == p {
        mark
    } else {
        square_at(grid, q)
    } by {
        assert(after[q.x as int][q.y as int] == if q.x == p.x && q.y == p.y {
            mark
        } else {
            grid[q.x as int][q.y as int]
        });
    }
    lemma_line_cells(grid);
    lemma_line_cells(after);
    let old_lines = all_lines(grid);
    let new_lines = all_lines(after);
    assert forall|k: int, i: int| 0 <= k < 2 * n + 2 && 0 <= i < n implies new_lines[k][i] == if (
    #[trigger] line_cell(n, k, i)) == (p.x as int, p.y as int) {
        mark
    } else {
        old_lines[k][i]
    } by {
        let (r, c) = line_cell(n, k, i);
        assert(after[r][c] == if r == p.x && c == p.y {
            mark
        } else {
            grid[r][c]
        });
    }
    assert forall|m: SquareType| m != SquareType::B && lines_won(old_lines, m) implies #[trigger] lines_won(
        new_lines,
        m,
    ) by {
        let k = choose|k: int| 0 <= k < old_lines.len() && line_all(#[trigger] old_lines[k], m);
        assert forall|i: int| 0 <= i < new_lines[k].len() implies new_lines[k][i] == m by {
            let (r, c) = line_cell(n, k, i);
            assert(old_lines[k][i] == m);
            assert(old_lines[k][i] == grid[r][c]);
        }
        assert(line_all(new_lines[k], m));
    }
    assert forall|m: SquareType| m != mark && #[trigger] lines_won(new_lines, m) implies lines_won(
        old_lines,
        m,
    ) by {
        let k = choose|k: int| 0 <= k < new_lines.len() && line_all(#[trigger] new_lines[k], m);
        assert forall|i: int| 0 <= i < old_lines[k].len() implies old_lines[k][i] == m by {
            let (r, c) = line_cell(n, k, i);
            assert(new_lines[k][i] == m);
        }
        assert(line_all(old_lines[k], m));
    }
    assert(lines_open(old_lines)) by {
        let k = p.x as int;
        assert(line_cell(n, k, p.y as int) == (p.x as int, p.y as int));
        assert(old_lines[k][p.y as int] == SquareType::B);
        assert(line_has_blank(old_lines[k]));
    }
}

/// On a grid whose squares are all blank the game goes on.
pub proof fn lemma_blank_grid(grid: Seq<Seq<SquareType>>)
    requires
        is_square(grid),
        forall|r: int, c: int|
            0 <= r < grid.len() && 0 <= c < grid.len() ==> #[trigger] grid[r][c] == SquareType::B,
    ensures
        status_matches(grid, GameStatus::StillPlaying),
{
    let n = grid.len() as int;
    let lines = all_lines(grid);
    lemma_line_cells(grid);
    assert forall|k: int| 0 <= k < lines.len() implies !line_all(
        #[trigger] lines[k],
        SquareType::X,
    ) && !line_all(lines[k], SquareType::O) && line_has_blank(lines[k]) by {
        let (r, c) = line_cell(n, k, 0);
        assert(lines[k][0] == grid[r][c]);
    }
    assert(line_has_blank(lines[0]));
}

/// Two lists in row-major order without repetition that hold the same
/// points are the same list.
pub proof fn lemma_ordered_points_unique(a: Seq<Point>, b: Seq<Point>)
    requires
        forall|k: int, l: int|
            0 <= k < l < a.len() ==> (#[trigger] a[k]).precedes(#[trigger] a[l]),
        forall|k: int, l: int|
            0 <= k < l < b.len() ==> (#[trigger] b[k]).precedes(#[trigger] b[l]),
        forall|p: Point| a.contains(p) <==> b.contains(p),
    ensures
        a == b,
    decreases a.len(),
{
    if a.len() == 0 {
        if b.len() > 0 {
            assert(b.contains(b[0]));
        }
    } else {
        let la = a.last();
        assert(a.contains(la));
        let lb = b.last();
        assert(b.contains(lb));
        let a0 = a.drop_last();
        let b0 = b.drop_last();
        assert forall|p: Point| a0.contains(p) <==> b0.contains(p) by {
            if a0.contains(p) {
                assert(a.contains(p));
                let l = choose|l: int| 0 <= l < b.len() && b[l] == p;
                assert(b0[l] == p);
            }
            if b0.contains(p) {
                assert(b.contains(p));
                let l = choose|l: int| 0 <= l < a.len() && a[l] == p;
                assert(a0[l] == p);
            }
        }
        lemma_ordered_points_unique(a0, b0);
        assert(a =~= a0.push(la));
    }
}

/// A grid has one list of blank squares only: the grid decides which
/// squares are blank and in which order they are listed.
pub proof fn lemma_blanks_unique(grid: Seq<Seq<SquareType>>, a: Seq<Point>, b: Seq<Point>)
    requires
        blanks_match(grid, a),
        blanks_match(grid, b),
    ensures
        a == b,
{
    assert forall|p: Point| a.contains(p) <==> b.contains(p) by {
    }
    lemma_ordered_points_unique(a, b);
}

/// Folds [`GameStatus::checked_combine`] over the statuses of the given
/// lines.
pub(crate) fn status_of_lines(lines: &Vec<Vec<SquareType>>) -> (r: Option<GameStatus>)
    requires
        forall|i: int| 0 <= i < lines@.len() ==> (#[trigger] lines@[i])@.len() > 0,
    ensures
        r == lines_status(grid_of(lines@)),
{
    let ghost g = grid_of(lines@);
    let mut acc = GameStatus::Draw;
    let mut i: usize = 0;
    while i < lines.len()
        invariant
            0 <= i <= lines@.len(),
            g == grid_of(lines@),
            forall|k: int| 0 <= k < lines@.len() ==> (#[trigger] lines@[k])@.len() > 0,
            Some(acc) == lines_status(g.take(i as int)),
        decreases lines@.len() - i,
    {
        let status = reduce_line(lines[i].as_slice()).upgrade();
        proof {
            let done = g.take(i as int);
            let line = g[i as int];
            assert(g.take(i + 1) == done + seq![line]);
            lemma_lines_concat(done, seq![line]);
            lemma_lines_concat(g.take(i + 1), g.skip(i + 1));
            lemma_single_line(line);
        }
        match GameStatus::checked_combine(acc, status) {
            Some(both) => {
                acc = both;
            },
            None => {
                return None;
            },
        }
        i += 1;
    }
    assert(g.take(i as int) == g);
    Some(acc)
}

/// The columns of a square grid.
pub(crate) fn columns(content: &Vec<Vec<SquareType>>) -> (cols: Vec<Vec<SquareType>>)
    requires
        is_square(grid_of(content@)),
    ensures
        grid_of(cols@) == columns_of(grid_of(content@)),
{
    let ghost grid = grid_of(content@);
    let n = content.len();
    let mut cols: Vec<Vec<SquareType>> = Vec::new();
    let mut j: usize = 0;
    while j < n
        invariant
            0 <= j <= n,
            n == content@.len(),
            grid == grid_of(content@),
            is_square(grid),
            cols@.len() == j,
            forall|c: int| 0 <= c < j ==> (#[trigger] cols@[c])@ == columns_of(grid)[c],
        decreases n - j,
    {
        let mut col: Vec<SquareType> = Vec::new();
        let mut i: usize = 0;
        while i < n
            invariant
                0 <= i <= n,
                j < n,
                n == content@.len(),
                grid == grid_of(content@),
                is_square(grid),
                col@.len() == i,
                forall|r: int| 0 <= r < i ==> #[trigger] col@[r] == grid[r][j as int],
            decreases n - i,
        {
            assert(grid[i as int] == content@[i as int]@);
            col.push(content[i][j]);
            i += 1;
        }
        cols.push(col);
        j += 1;
    }
    cols
}

/// The two diagonals of a square grid.
pub(crate) fn diagonals(content: &Vec<Vec<SquareType>>) -> (diags: Vec<Vec<SquareType>>)
    requires
        is_square(grid_of(content@)),
    ensures
        grid_of(diags@) == diagonals_of(grid_of(content@)),
{
    let ghost grid = grid_of(content@);
    let n = content.len();
    let mut down: Vec<SquareType> = Vec::new();
    let mut up: Vec<SquareType> = Vec::new();
    let mut i: usize = 0;
    while i < n
        invariant
            0 <= i <= n,
            n == content@.len(),
            grid == grid_of(content@),
            is_square(grid),
            down@.len() == i,
            up@.len() == i,
            forall|r: int| 0 <= r < i ==> #[trigger] down@[r] == grid[r][r],
            forall|r: int| 0 <= r < i ==> #[trigger] up@[r] == grid[n - 1 - r][r],
        decreases n - i,
    {
        assert(grid[i as int] == content@[i as int]@);
        assert(grid[n - 1 - i] == content@[n - 1 - i]@);
        down.push(content[i][i]);
        up.push(content[n - 1 - i][i]);
        i += 1;
    }
    let mut diags: Vec<Vec<SquareType>> = Vec::new();
    diags.push(down);
    diags.push(up);
    assert(diags@[0]@ == diagonals_of(grid)[0]);
    assert(diags@[1]@ == diagonals_of(grid)[1]);
    diags
}

/// The status of the rows of a grid.
pub(crate) fn rows_status(content: &Vec<Vec<SquareType>>) -> (r: Option<GameStatus>)
    requires
        is_square(grid_of(content@)),
    ensures
        r == lines_status(grid_of(content@)),
{
    assert forall|i: int| 0 <= i < content@.len() implies (#[trigger] content@[i])@.len() > 0 by {
        assert(grid_of(content@)[i] == content@[i]@);
    }
    status_of_lines(content)
}

/// The status of the columns of a grid.
pub(crate) fn cols_status(content: &Vec<Vec<SquareType>>) -> (r: Option<GameStatus>)
    requires
        is_square(grid_of(content@)),
    ensures
        r == lines_status(columns_of(grid_of(content@))),
{
    let cols = columns(content);
    proof {
        lemma_parts_have_status(grid_of(content@));
        assert forall|i: int| 0 <= i < cols@.len() implies (#[trigger] cols@[i])@.len() > 0 by {
            assert(grid_of(cols@)[i] == cols@[i]@);
        }
    }
    status_of_lines(&cols)
}

/// The status of the two diagonals of a grid.
pub(crate) fn diag_status(content: &Vec<Vec<SquareType>>) -> (r: Option<GameStatus>)
    requires
        is_square(grid_of(content@)),
    ensures
        r == lines_status(diagonals_of(grid_of(content@))),
{
    let diags = diagonals(content);
    proof {
        lemma_parts_have_status(grid_of(content@));
    }
    status_of_lines(&diags)
}

/// The status of a grid, from its rows, its columns and its diagonals.
pub(crate) fn grid_status(content: &Vec<Vec<SquareType>>) -> (r: Option<GameStatus>)
    requires
        is_square(grid_of(content@)),
    ensures
        r == board_status(grid_of(content@)),
{
    proof {
        lemma_parts_have_status(grid_of(content@));
    }
    match (rows_status(content), cols_status(content), diag_status(content)) {
        (Some(rows), Some(cols), Some(diag)) => match GameStatus::checked_combine(rows, cols) {
            Some(both) => GameStatus::checked_combine(both, diag),
            None => None,
        },
        _ => None,
    }
}

/// Whether the rows form a square grid.
pub(crate) fn has_square_shape(content: &Vec<Vec<SquareType>>) -> (r: bool)
    ensures
        r == is_square(grid_of(content@)),
{
    let ghost grid = grid_of(content@);
    let n = content.len();
    if n == 0 {
        return false;
    }
    let mut i: usize = 0;
    while i < n
        invariant
            0 <= i <= n,
            n == content@.len(),
            grid == grid_of(content@),
            forall|k: int| 0 <= k < i ==> (#[trigger] grid[k]).len() == n,
        decreases n - i,
    {
        assert(grid[i as int] == content@[i as int]@);
        if content[i].len() != n {
            return false;
        }
        i += 1;
    }
    true
}

/// The blank squares of a grid, row by row.
pub(crate) fn blank_squares_of(content: &Vec<Vec<SquareType>>) -> (blanks: Vec<Point>)
    requires
        is_square(grid_of(content@)),
    ensures
        blanks_match(grid_of(content@), blanks@),
{
    let ghost grid = grid_of(content@);
    let n = content.len();
    let mut blanks: Vec<Point> = Vec::new();
    let mut i: usize = 0;
    while i < n
        invariant
            0 <= i <= n,
            n == content@.len(),
            grid == grid_of(content@),
            is_square(grid),
            forall|k: int|
                0 <= k < blanks@.len() ==> in_grid(grid, #[trigger] blanks@[k]) && square_at(
                    grid,
                    blanks@[k],
                ) == SquareType::B && blanks@[k].x < i,
            forall|k: int, l: int|
                0 <= k < l < blanks@.len() ==> (#[trigger] blanks@[k]).precedes(
                    #[trigger] blanks@[l],
                ),
            forall|p: Point|
                in_grid(grid, p) && p.x < i && #[trigger] square_at(grid, p) == SquareType::B
                    ==> blanks@.contains(p),
        decreases n - i,
    {
        let mut j: usize = 0;
        while j < n
            invariant
                0 <= j <= n,
                i < n,
                n == content@.len(),
                grid == grid_of(content@),
                is_square(grid),
                forall|k: int|
                    0 <= k < blanks@.len() ==> in_grid(grid, #[trigger] blanks@[k]) && square_at(
                        grid,
                        blanks@[k],
                    ) == SquareType::B && (blanks@[k].x < i || (blanks@[k].x == i && blanks@[k].y
                        < j)),
                forall|k: int, l: int|
                    0 <= k < l < blanks@.len() ==> (#[trigger] blanks@[k]).precedes(
                        #[trigger] blanks@[l],
                    ),
                forall|p: Point|
                    in_grid(grid, p) && (p.x < i || (p.x == i && p.y < j)) && #[trigger] square_at(
                        grid,
                        p,
                    ) == SquareType::B ==> blanks@.contains(p),
            decreases n - j,
        {
            assert(grid[i as int] == content@[i as int]@);
            if content[i][j] == SquareType::B {
                let ghost before = blanks@;
                let here = Point { x: i, y: j };
                blanks.push(here);
                proof {
                    assert(blanks@[before.len() as int] == here);
                    assert forall|p: Point|
                        in_grid(grid, p) && (p.x < i || (p.x == i && p.y < j + 1))
                            && #[trigger] square_at(grid, p) == SquareType::B implies blanks@.contains(
                        p,
                    ) by {
                        if p != here {
                            let k = choose|k: int| 0 <= k < before.len() && before[k] == p;
                            assert(blanks@[k] == p);
                        }
                    }
                }
            }
            j += 1;
        }
        i += 1;
    }
    blanks
}

} // verus!
