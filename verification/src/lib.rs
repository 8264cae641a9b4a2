//! Tic-tac-toe: board state, detection of wins and draws, and an optimal
//! opponent found by depth-limited minimax search with alpha-beta pruning.
//!
//! - [`board_info`]: squares, sides and points.
//! - [`scoring`]: the statuses of lines and games, how they combine, and the
//!   order of outcomes.
//! - [`grid`]: the lines of a square grid and the status they give.
//! - [`tic_tac_toe_board`]: the board, with moves and status.
//! - [`search`]: minimax with alpha-beta pruning, and the proof that pruning
//!   does not change the value found.
//! - [`tic_tac_toe`]: minimax without pruning, to the end of the game.
//! - [`game`]: the turns of a game between a person and the engine.
//! - [`layout`], [`input`], [`config`]: boards, moves and options read from
//!   text.
//! - [`drawing`], [`text`]: boards and numbers written as text.
//! - [`board`]: a board kept as one flat list.

pub mod board;
pub mod board_info;
pub mod config;
pub mod drawing;
pub mod game;
pub mod grid;
pub mod input;
pub mod layout;
pub mod scoring;
pub mod search;
pub mod text;
pub mod tic_tac_toe;
pub mod tic_tac_toe_board;
