//! The course of a game between the person at the keyboard and the search
//! engine: whose turn it is, what a move does, and when the game is over.

use crate::board_info::{Opponent, Player, Point, SquareType};
use crate::scoring::{GameStatus, MoveScoreTurns};
use crate::search::{minimax, reply_value, search};
use crate::grid::{board_status, in_grid, square_at};
use crate::tic_tac_toe_board::{lemma_place, Board, BoardView, InvalidMove};
use vstd::prelude::*;

verus! {

/// A game in progress.
pub struct Game {
    board: Board,
    current_player: Player,
    user: Player,
}

/// What a game is, apart from how it is stored.
pub struct GameView {
    /// The board.
    pub board: BoardView,
    /// The side that moves next.
    pub current_player: Player,
    /// The side of the person at the keyboard.
    pub user: Player,
}

impl GameView {
    /// Who moves next.
    pub open spec fn turn(self) -> Opponent {
        if self.current_player == self.user {
            Opponent::User
        } else {
            Opponent::Computer
        }
    }

    /// The game after the side to move has placed its mark on the blank
    /// square `point`: the other side moves next.
    pub open spec fn after_move(self, point: Point) -> GameView {
        GameView {
            board: self.board.place(point, self.current_player.spec_square_type()),
            current_player: self.current_player.spec_other(),
            user: self.user,
        }
    }
}

impl View for Game {
    type V = GameView;

    closed spec fn view(&self) -> GameView {
        GameView { board: self.board@, current_player: self.current_player, user: self.user }
    }
}

impl Game {
    /// The side length of the board that games are played on.
    pub const BOARD_SIZE: usize = 3;

    /// How many plies the engine looks ahead: enough to play a game on a
    /// board of three by three squares to its end.
    pub const SEARCH_DEPTH: u32 = 9;

    /// Whether the game is valid: its board is, and the status that the
    /// board remembers is the status of its grid.
    pub closed spec fn wf(&self) -> bool {
        &&& self.board.wf()
        &&& board_status(self.board@.grid) == Some(self.board@.status)
    }

    /// A valid game has a valid board on which the two sides have not both
    /// won: no game that is played move by move, and ends with the first win,
    /// comes to such a board.
    pub proof fn lemma_wf(&self)
        requires
            self.wf(),
        ensures
            self@.board.wf(),
            board_status(self@.board.grid) == Some(self@.board.status),
    {
    }

    /// A new game on a blank board of three by three squares. The user
    /// plays the side `user`; `first` says who makes the first move.
    pub fn new(user: Player, first: Opponent) -> (game: Game)
        ensures
            game.wf(),
            game@.user == user,
            game@.turn() == first,
            game@.board.grid.len() == 3,
            forall|p: Point|
                in_grid(game@.board.grid, p) ==> #[trigger] square_at(game@.board.grid, p)
                    == SquareType::B,
            forall|p: Point| in_grid(game@.board.grid, p) ==> #[trigger] game@.board.blanks.contains(p),
            game@.board.status == GameStatus::StillPlaying,
    {
        let board = Board::initialize_blank_board(Game::BOARD_SIZE);
        let current_player = match first {
            Opponent::User => user,
            Opponent::Computer => user.other(),
        };
        Game { board, current_player, user }
    }

    /// The board.
    pub fn board(&self) -> (board: &Board)
        ensures
            board@ == self@.board,
            self.wf() ==> board.wf() && board_status(board@.grid) == Some(board@.status),
    {
        &self.board
    }

    /// The side that moves next.
    pub fn current_player(&self) -> (player: Player)
        ensures
            player == self@.current_player,
    {
        self.current_player
    }

    /// Who moves next.
    pub fn turn(&self) -> (who: Opponent)
        ensures
            who == self@.turn(),
    {
        if self.current_player == self.user {
            Opponent::User
        } else {
            Opponent::Computer
        }
    }

    /// The status of the game.
    pub fn status(&self) -> (status: GameStatus)
        ensures
            status == self@.board.status,
    {
        self.board.game_status()
    }

    /// Whether the game is over.
    pub fn is_over(&self) -> (over: bool)
        ensures
            over == (self@.board.status != GameStatus::StillPlaying),
    {
        self.board.game_status() != GameStatus::StillPlaying
    }

    /// Makes the move of the side whose turn it is to the square at `point`.
    /// A point that names no blank square is refused, and the game stays as
    /// it was. The game must not be over.
    pub fn user_move(&mut self, point: &Point) -> (r: Result<(), InvalidMove>)
        requires
            old(self).wf(),
            old(self)@.board.status == GameStatus::StillPlaying,
        ensures
            final(self).wf(),
            r is Ok <==> old(self)@.board.blanks.contains(*point),
            r is Ok ==> final(self)@ == old(self)@.after_move(*point),
            r is Ok ==> !final(self)@.board.blanks.contains(*point),
            r matches Err(e) ==> e.attempted == *point && e.valid@ == old(self)@.board.blanks
                && final(self)@ == old(self)@,
    {
        let mark = self.current_player.square_type();
        proof {
            if self.board@.blanks.contains(*point) {
                let k = self.board@.blanks.index_of(*point);
                lemma_place(self.board@, k, mark);
            }
        }
        match self.board.insert(point, mark) {
            Ok(()) => {
                self.current_player = self.current_player.other();
                Ok(())
            },
            Err(e) => Err(e),
        }
    }

    /// Lets the engine move for the side whose turn it is, and returns the
    /// square it moved to: a best move, found by a search of nine plies
    /// between the least and the greatest outcome. The game must not be
    /// over.
    pub fn computer_move(&mut self) -> (point: Point)
        requires
            old(self).wf(),
            old(self)@.board.status == GameStatus::StillPlaying,
        ensures
            final(self).wf(),
            old(self)@.board.blanks.contains(point),
            point == search(
                old(self)@.board,
                old(self)@.current_player,
                9,
                MoveScoreTurns::spec_least(),
                MoveScoreTurns::spec_greatest(),
            ).player_move,
            reply_value(
                old(self)@.board,
                old(self)@.current_player,
                9,
                old(self)@.board.blanks.index_of(point),
            ) == minimax(old(self)@.board, old(self)@.current_player, 9),
            final(self)@ == old(self)@.after_move(point),
            !final(self)@.board.blanks.contains(point),
    {
        let opponent_move = self.board.alpha_beta(
            &self.current_player,
            Game::SEARCH_DEPTH,
            &MoveScoreTurns::least(),
            &MoveScoreTurns::greatest(),
        ).player_move;
        let mark = self.current_player.square_type();
        proof {
            let k = self.board@.blanks.index_of(opponent_move);
            lemma_place(self.board@, k, mark);
        }
        let _ = self.board.insert(&opponent_move, mark);
        self.current_player = self.current_player.other();
        opponent_move
    }
}

} // verus!
