//! Boards written as text.
//!
//! A layout lists the rows of a board from top to bottom. A `|` ends a row;
//! what follows the last `|` is one more row unless it is empty. Within a
//! row the squares are words between white space: `B` for a blank square,
//! `O` and `X` for the marks. Any other word is passed over.

use crate::board_info::SquareType;
use crate::drawing::glyphs_of_row;
use crate::grid::grid_of;
use vstd::prelude::*;
use vstd::string::*;

verus! {

/// Whether `c` is white space: one of the characters that Unicode gives the
/// property `White_Space`.
pub open spec fn is_space(c: char) -> bool {
    let u = c as u32;
    ||| 0x09 <= u <= 0x0d
    ||| u == 0x20
    ||| u == 0x85
    ||| u == 0xa0
    ||| u == 0x1680
    ||| 0x2000 <= u <= 0x200a
    ||| u == 0x2028
    ||| u == 0x2029
    ||| u == 0x202f
    ||| u == 0x205f
    ||| u == 0x3000
}

/// The square that a word stands for, if it stands for one.
pub open spec fn cell_of(word: Seq<char>) -> Option<SquareType> {
    if word.len() != 1 {
        None
    } else if word[0] == 'B' {
        Some(SquareType::B)
    } else if word[0] == 'O' {
        Some(SquareType::O)
    } else if word[0] == 'X' {
        Some(SquareType::X)
    } else {
        None
    }
}

/// Where the word begins that `text` ends with; the length of `text` if it
/// ends with white space or is empty.
pub open spec fn word_start(text: Seq<char>) -> int
    decreases text.len(),
{
    if text.len() == 0 || is_space(text.last()) {
        text.len() as int
    } else {
        word_start(text.drop_last())
    }
}

/// The squares that the words of `text` stand for, in the order of the
/// words.
pub open spec fn row_cells(text: Seq<char>) -> Seq<SquareType>
    decreases text.len(),
    via row_cells_decreases
{
    if text.len() == 0 {
        Seq::empty()
    } else if is_space(text.last()) {
        row_cells(text.drop_last())
    } else {
        let start = word_start(text);
        let before = row_cells(text.take(start));
        match cell_of(text.skip(start)) {
            Some(cell) => before.push(cell),
            None => before,
        }
    }
}

#[via_fn]
proof fn row_cells_decreases(text: Seq<char>) {
    lemma_word_is_word(text);
}

/// Where the part of `text` begins that follows its last `|`; 0 if it has
/// none.
pub open spec fn row_start(text: Seq<char>) -> int
    decreases text.len(),
{
    if text.len() == 0 {
        0
    } else if text.last() == '|' {
        text.len() as int
    } else {
        row_start(text.drop_last())
    }
}

/// The parts of `text` that a `|` ends, each without its `|`.
pub open spec fn closed_rows(text: Seq<char>) -> Seq<Seq<char>>
    decreases text.len(),
{
    if text.len() == 0 {
        Seq::empty()
    } else if text.last() == '|' {
        let before = text.drop_last();
        closed_rows(before).push(before.skip(row_start(before)))
    } else {
        closed_rows(text.drop_last())
    }
}

/// The rows of a layout as they are written: the parts that a `|` ends,
/// and what follows the last `|` unless it is empty.
pub open spec fn row_texts(text: Seq<char>) -> Seq<Seq<char>> {
    if row_start(text) < text.len() {
        closed_rows(text).push(text.skip(row_start(text)))
    } else {
        closed_rows(text)
    }
}

/// The squares of each of the given rows.
pub open spec fn cells_of_rows(rows: Seq<Seq<char>>) -> Seq<Seq<SquareType>> {
    Seq::new(rows.len(), |r: int| row_cells(rows[r]))
}

/// The grid that a layout describes.
pub open spec fn parse_layout(text: Seq<char>) -> Seq<Seq<SquareType>> {
    cells_of_rows(row_texts(text))
}

/// The letters `O` and `X` that stand as words of their own in `text`, in
/// the order of the words.
pub open spec fn marks_written(text: Seq<char>) -> Seq<char>
    decreases text.len(),
    via marks_written_decreases
{
    if text.len() == 0 {
        Seq::empty()
    } else if is_space(text.last()) {
        marks_written(text.drop_last())
    } else {
        let start = word_start(text);
        let before = marks_written(text.take(start));
        let word = text.skip(start);
        if word == seq!['O'] || word == seq!['X'] {
            before.push(word[0])
        } else {
            before
        }
    }
}

#[via_fn]
proof fn marks_written_decreases(text: Seq<char>) {
    lemma_word_is_word(text);
}

/// Tells the character of a mark from that of a blank square.
pub open spec fn shows_mark() -> spec_fn(char) -> bool {
    |c: char| c != ' '
}

/// Reading a row and showing it keeps the marks: the characters shown for
/// the squares of a row, the blank ones left out, are the letters `O` and `X`
/// that are words of the row, in the same order.
pub proof fn lemma_row_round_trip(text: Seq<char>)
    ensures
        glyphs_of_row(row_cells(text)).filter(shows_mark()) == marks_written(text),
    decreases text.len(),
{
    reveal(Seq::filter);
    let shown = glyphs_of_row(row_cells(text));
    if text.len() == 0 {
    } else if is_space(text.last()) {
        lemma_row_round_trip(text.drop_last());
    } else {
        lemma_word_is_word(text);
        let start = word_start(text);
        let before = row_cells(text.take(start));
        let word = text.skip(start);
        lemma_row_round_trip(text.take(start));
        match cell_of(word) {
            Some(cell) => {
                assert(word =~= seq![word[0]]);
                assert(shown.drop_last() =~= glyphs_of_row(before));
            },
            None => {
            },
        }
    }
}

/// Reading a layout and showing the grid keeps the marks, row by row: in
/// every row, the characters shown for its squares, the blank ones left out,
/// are the letters `O` and `X` that are words of the row as it is written.
pub proof fn lemma_layout_round_trip(text: Seq<char>)
    ensures
        parse_layout(text).len() == row_texts(text).len(),
        forall|r: int|
            0 <= r < row_texts(text).len() ==> glyphs_of_row(
                #[trigger] parse_layout(text)[r],
            ).filter(shows_mark()) == marks_written(row_texts(text)[r]),
{
    assert forall|r: int| 0 <= r < row_texts(text).len() implies glyphs_of_row(
        #[trigger] parse_layout(text)[r],
    ).filter(shows_mark()) == marks_written(row_texts(text)[r]) by {
        lemma_row_round_trip(row_texts(text)[r]);
    }
}

/// Whether `c` is white space.
pub fn is_whitespace(c: char) -> (r: bool)
    ensures
        r == is_space(c),
{
    let u = c as u32;
    (0x09 <= u && u <= 0x0d) || u == 0x20 || u == 0x85 || u == 0xa0 || u == 0x1680 || (0x2000 <= u
        && u <= 0x200a) || u == 0x2028 || u == 0x2029 || u == 0x202f || u == 0x205f || u == 0x3000
}

/// The characters of a string.
fn chars_of(text: &str) -> (chars: Vec<char>)
    ensures
        chars@ == text@,
{
    let n = text.unicode_len();
    let mut chars: Vec<char> = Vec::new();
    let mut i: usize = 0;
    while i < n
        invariant
            0 <= i <= n,
            n == text@.len(),
            chars@ == text@.take(i as int),
        decreases n - i,
    {
        chars.push(text.get_char(i));
        i += 1;
    }
    chars
}

/// The square that the word `text[from..to]` stands for, if it stands for
/// one.
fn cell_at(text: &Vec<char>, from: usize, to: usize) -> (cell: Option<SquareType>)
    requires
        from <= to <= text@.len(),
    ensures
        cell == cell_of(text@.subrange(from as int, to as int)),
{
    if to - from != 1 {
        None
    } else {
        let c = text[from];
        if c == 'B' {
            Some(SquareType::B)
        } else if c == 'O' {
            Some(SquareType::O)
        } else if c == 'X' {
            Some(SquareType::X)
        } else {
            None
        }
    }
}

/// The squares that the words of `text[from..to]` stand for.
fn parse_row(text: &Vec<char>, from: usize, to: usize) -> (cells: Vec<SquareType>)
    requires
        from <= to <= text@.len(),
    ensures
        cells@ == row_cells(text@.subrange(from as int, to as int)),
{
    let ghost row = text@.subrange(from as int, to as int);
    let mut cells: Vec<SquareType> = Vec::new();
    let mut start: usize = from;
    let mut i: usize = from;
    while i < to
        invariant
            from <= start <= i <= to,
            to <= text@.len(),
            row == text@.subrange(from as int, to as int),
            start - from == word_start(row.take(i - from)),
            cells@ == row_cells(row.take(start - from)),
        decreases to - i,
    {
        let ghost seen = row.take(i - from);
        let ghost next = row.take(i + 1 - from);
        assert(next.drop_last() == seen);
        if is_whitespace(text[i]) {
            if start < i {
                let cell = cell_at(text, start, i);
                proof {
                    lemma_word_is_word(seen);
                    assert(seen.take(start - from) == row.take(start - from));
                }
                if let Some(cell) = cell {
                    cells.push(cell);
                }
                assert(cells@ == row_cells(seen));
            }
            start = i + 1;
        }
        i += 1;
    }
    assert(row.take(to - from) == row);
    if start < to {
        let cell = cell_at(text, start, to);
        proof {
            lemma_word_is_word(row);
        }
        if let Some(cell) = cell {
            cells.push(cell);
        }
    }
    cells
}

/// A text that ends with a word ends with no white space, and the word has
/// none.
pub proof fn lemma_word_is_word(text: Seq<char>)
    ensures
        0 <= word_start(text) <= text.len(),
        word_start(text) < text.len() <==> text.len() > 0 && !is_space(text.last()),
    decreases text.len(),
{
    if text.len() != 0 && !is_space(text.last()) {
        lemma_word_is_word(text.drop_last());
    }
}

/// The grid that a layout describes.
pub fn parse_grid(layout: &str) -> (rows: Vec<Vec<SquareType>>)
    ensures
        grid_of(rows@) == parse_layout(layout@),
{
    let text = chars_of(layout);
    let mut rows: Vec<Vec<SquareType>> = Vec::new();
    let mut start: usize = 0;
    let mut i: usize = 0;
    while i < text.len()
        invariant
            0 <= start <= i <= text@.len(),
            start == row_start(text@.take(i as int)),
            grid_of(rows@) == cells_of_rows(closed_rows(text@.take(i as int))),
        decreases text@.len() - i,
    {
        let ghost seen = text@.take(i as int);
        let ghost next = text@.take(i + 1);
        assert(next.drop_last() == seen);
        if text[i] == '|' {
            let ghost before = grid_of(rows@);
            let row = parse_row(&text, start, i);
            assert(seen.skip(start as int) == text@.subrange(start as int, i as int));
            rows.push(row);
            assert(grid_of(rows@) == before.push(row@));
            start = i + 1;
        }
        i += 1;
    }
    assert(text@.take(i as int) == text@);
    if start < text.len() {
        let ghost before = grid_of(rows@);
        let row = parse_row(&text, start, text.len());
        rows.push(row);
        assert(grid_of(rows@) == before.push(row@));
    }
    rows
}

} // verus!
