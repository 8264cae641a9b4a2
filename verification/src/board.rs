//! A board kept as one flat list of squares, row after row.

use crate::board_info::SquareType;
use vstd::prelude::*;

verus! {

/// A board of `rows` by `cols` squares, kept row after row in one list.
pub struct TicTacToeBoard {
    rows: i32,
    cols: i32,
    content: Vec<SquareType>,
}

/// What a flat board is, apart from how it is stored.
pub struct TicTacToeBoardView {
    pub rows: int,
    pub cols: int,
    pub content: Seq<SquareType>,
}

impl View for TicTacToeBoard {
    type V = TicTacToeBoardView;

    closed spec fn view(&self) -> TicTacToeBoardView {
        TicTacToeBoardView {
            rows: self.rows as int,
            cols: self.cols as int,
            content: self.content@,
        }
    }
}

impl TicTacToeBoard {
    /// A board with the given numbers of rows and columns and the given
    /// squares.
    pub fn new(rows: i32, cols: i32, content: Vec<SquareType>) -> (board: Self)
        ensures
            board@ == (TicTacToeBoardView { rows: rows as int, cols: cols as int, content: content@ }),
    {
        Self { rows, cols, content }
    }

    /// The number of rows.
    pub fn rows(&self) -> (rows: i32)
        ensures
            rows == self@.rows,
    {
        self.rows
    }

    /// The number of columns.
    pub fn cols(&self) -> (cols: i32)
        ensures
            cols == self@.cols,
    {
        self.cols
    }

    /// The squares, row after row.
    pub fn content(&self) -> (content: &Vec<SquareType>)
        ensures
            content@ == self@.content,
    {
        &self.content
    }
}

} // verus!
