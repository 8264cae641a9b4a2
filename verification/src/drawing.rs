//! How a grid is shown: as rows of characters, and drawn with bars and
//! dashes.

use crate::board_info::SquareType;
use crate::text::dashes;
use vstd::prelude::*;
use vstd::string::*;

verus! {

/// The characters that stand for the squares of a row.
pub open spec fn glyphs_of_row(cells: Seq<SquareType>) -> Seq<char> {
    Seq::new(cells.len(), |j: int| cells[j].spec_glyph())
}

/// The characters that stand for the squares of a grid, row by row.
pub open spec fn glyphs_of(grid: Seq<Seq<SquareType>>) -> Seq<Seq<char>> {
    Seq::new(grid.len(), |i: int| glyphs_of_row(grid[i]))
}

/// The rows that a vector of vectors of characters holds.
pub open spec fn text_of(rows: Seq<Vec<char>>) -> Seq<Seq<char>> {
    Seq::new(rows.len(), |i: int| rows[i]@)
}

/// A row as it is drawn: each square between two spaces, with a bar
/// between squares.
pub open spec fn row_text(cells: Seq<SquareType>) -> Seq<char>
    decreases cells.len(),
{
    if cells.len() == 0 {
        Seq::empty()
    } else if cells.len() == 1 {
        seq![' ', cells[0].spec_glyph(), ' ']
    } else {
        row_text(cells.drop_last()) + seq!['|', ' ', cells.last().spec_glyph(), ' ']
    }
}

/// The line that is drawn between two rows of a board of side `size`: four
/// dashes for every column, on a line of its own.
pub open spec fn rule_text(size: nat) -> Seq<char> {
    seq!['\n'] + dashes(size) + seq!['\n']
}

/// A grid as it is drawn for a board of side `size`: its rows with a rule
/// between them.
pub open spec fn grid_text(grid: Seq<Seq<SquareType>>, size: nat) -> Seq<char>
    decreases grid.len(),
{
    if grid.len() == 0 {
        Seq::empty()
    } else if grid.len() == 1 {
        row_text(grid[0])
    } else {
        grid_text(grid.drop_last(), size) + rule_text(size) + row_text(grid.last())
    }
}

/// A row as it is drawn.
pub(crate) fn row_string(cells: &Vec<SquareType>) -> (text: String)
    ensures
        text@ == row_text(cells@),
{
    proof {
        reveal_strlit("|");
        reveal_strlit(" ");
    }
    let mut text = String::new();
    let mut j: usize = 0;
    while j < cells.len()
        invariant
            0 <= j <= cells@.len(),
            text@ == row_text(cells@.take(j as int)),
            "|"@ == seq!['|'],
            " "@ == seq![' '],
        decreases cells@.len() - j,
    {
        let ghost before = cells@.take(j as int);
        let ghost after = cells@.take(j + 1);
        assert(after.drop_last() == before);
        if j > 0 {
            text.append("|");
        }
        text.append(" ");
        text.append(cells[j].as_str());
        text.append(" ");
        assert(text@ =~= row_text(after));
        j += 1;
    }
    assert(cells@.take(j as int) == cells@);
    text
}

} // verus!
