//! Minimax without pruning and without a depth limit: every game is played
//! to its end, and the side to move takes the first reply that wins, else
//! the first that draws, else the first one.

use crate::board_info::{Player, Point};
use crate::scoring::GameStatus;
use crate::search::reply_board;
use crate::tic_tac_toe_board::{lemma_open_game_has_blank, lemma_place, Board, BoardView};
use vstd::prelude::*;
use vstd::string::*;

verus! {

/// A move together with the status of the game that it leads to with best
/// play on both sides.
#[derive(Debug, Copy, Clone, PartialEq, Eq, Structural)]
pub struct MoveScoreDepth {
    pub player_move: Point,
    pub score: GameStatus,
}

impl MoveScoreDepth {
    /// The entry as it is shown: the move, a colon and the status.
    pub open spec fn spec_to_string(self) -> Seq<char> {
        self.player_move.spec_to_string() + ":"@ + self.score.spec_name()
    }

    /// The entry as it is shown, `(1, 2):Draw` for a move to row 1 and
    /// column 2 that leads to a draw.
    pub fn to_string(&self) -> (text: String)
        ensures
            text@ == self.spec_to_string(),
    {
        let mut text = self.player_move.to_string();
        text.append(":");
        text.append(self.score.name());
        text
    }
}

/// How much `player` likes a game to end with `score`: a win of its own
/// most, then a draw, then anything else.
pub open spec fn preference(score: GameStatus, player: Player) -> int {
    if score == player.spec_desired_game_status() {
        2
    } else if score == GameStatus::Draw {
        1
    } else {
        0
    }
}

/// Whether entry `k` is the one that `player` selects from `table`: no entry
/// is liked more, and every entry before it is liked less.
pub open spec fn is_selected(table: Seq<MoveScoreDepth>, player: Player, k: int) -> bool {
    &&& 0 <= k < table.len()
    &&& forall|j: int|
        0 <= j < table.len() ==> preference((#[trigger] table[j]).score, player) <= preference(
            table[k].score,
            player,
        )
    &&& forall|j: int|
        0 <= j < k ==> preference((#[trigger] table[j]).score, player) < preference(
            table[k].score,
            player,
        )
}

/// The entry that `player` selects from a table with at least one entry.
pub open spec fn spec_select_score(table: Seq<MoveScoreDepth>, player: Player) -> MoveScoreDepth {
    table[choose|k: int| is_selected(table, player, k)]
}

/// At most one entry of a table is selected.
pub proof fn lemma_selected_is_unique(table: Seq<MoveScoreDepth>, player: Player, k: int, l: int)
    requires
        is_selected(table, player, k),
        is_selected(table, player, l),
    ensures
        k == l,
{
}

/// The status that reply number `i` of `player` leads to with best play on
/// both sides.
pub open spec fn reply_score(b: BoardView, player: Player, i: int) -> GameStatus
    decreases b.blanks.len(), 0nat,
    via reply_score_decreases
{
    if 0 <= i < b.blanks.len() {
        spec_minmax(reply_board(b, player, i), player.spec_other()).score
    } else {
        b.status
    }
}

#[via_fn]
proof fn reply_score_decreases(b: BoardView, player: Player, i: int) {
}

/// The replies of `player` with the statuses that they lead to.
pub open spec fn reply_table(b: BoardView, player: Player) -> Seq<MoveScoreDepth>
    decreases b.blanks.len(), 1nat,
{
    Seq::new(
        b.blanks.len(),
        |i: int| MoveScoreDepth { player_move: b.blanks[i], score: reply_score(b, player, i) },
    )
}

/// The move that `player` makes and the status that the game ends with if
/// both sides play as well as they can. Where the game is over, the move is
/// a placeholder.
pub open spec fn spec_minmax(b: BoardView, player: Player) -> MoveScoreDepth
    decreases b.blanks.len(), 2nat,
{
    if b.status != GameStatus::StillPlaying {
        MoveScoreDepth { player_move: Point { x: 0, y: 0 }, score: b.status }
    } else {
        spec_select_score(reply_table(b, player), player)
    }
}

impl Board {
    /// Selects from a table of moves the one that `player` likes best: the
    /// first that lets it win, else the first that draws, else the first
    /// one. The table has at least one entry, and stays as it is.
    pub fn select_score(move_score_depth_table: &mut [MoveScoreDepth], player: &Player) -> (r:
        MoveScoreDepth)
        requires
            old(move_score_depth_table)@.len() > 0,
        ensures
            final(move_score_depth_table)@ == old(move_score_depth_table)@,
            r == spec_select_score(old(move_score_depth_table)@, *player),
            exists|k: int|
                is_selected(old(move_score_depth_table)@, *player, k) && r == old(
                    move_score_depth_table,
                )@[k],
    {
        let desired_game_status = player.desired_game_status();
        let mut best: usize = 0;
        let mut best_rank: u8 = Self::rank_for(move_score_depth_table[0].score, desired_game_status);
        let mut i: usize = 1;
        let ghost table = move_score_depth_table@;
        while i < move_score_depth_table.len()
            invariant
                1 <= i <= table.len(),
                table == move_score_depth_table@,
                desired_game_status == player.spec_desired_game_status(),
                0 <= best < i,
                best_rank == preference(table[best as int].score, *player),
                forall|j: int|
                    0 <= j < i ==> preference((#[trigger] table[j]).score, *player) <= best_rank,
                forall|j: int|
                    0 <= j < best ==> preference((#[trigger] table[j]).score, *player) < best_rank,
            decreases table.len() - i,
        {
            let rank = Self::rank_for(move_score_depth_table[i].score, desired_game_status);
            if rank > best_rank {
                best = i;
                best_rank = rank;
            }
            i += 1;
        }
        proof {
            assert(is_selected(table, *player, best as int));
            let k = choose|k: int| is_selected(table, *player, k);
            lemma_selected_is_unique(table, *player, k, best as int);
        }
        move_score_depth_table[best]
    }

    /// How much a side that plays for `desired` likes `score`.
    fn rank_for(score: GameStatus, desired: GameStatus) -> (rank: u8)
        ensures
            rank == if score == desired {
                2int
            } else if score == GameStatus::Draw {
                1int
            } else {
                0int
            },
    {
        if score == desired {
            2
        } else if score == GameStatus::Draw {
            1
        } else {
            0
        }
    }

    /// Plays the game to its end in every possible way and returns the move
    /// of `player` that leads to the best end, with that end. Where several
    /// moves do, it is the first of them, row by row. The board stays as it
    /// is, and `depth` plays no part.
    pub fn minmax(&mut self, player: &Player, depth: u32) -> (r: MoveScoreDepth)
        requires
            old(self).wf(),
        ensures
            final(self)@ == old(self)@,
            final(self).wf(),
            r == spec_minmax(old(self)@, *player),
        decreases old(self)@.blanks.len(),
    {
        if self.game_status() != GameStatus::StillPlaying {
            return MoveScoreDepth {
                player_move: Point { x: 0, y: 0 },
                score: self.game_status(),
            };
        }
        proof {
            lemma_open_game_has_blank(self@);
        }
        let mark = player.square_type();
        let other = player.other();
        let mut move_score_table: Vec<MoveScoreDepth> = Vec::new();
        let mut i: usize = 0;
        while i < self.blank_squares().len()
            invariant
                0 <= i <= self@.blanks.len(),
                self.wf(),
                *self == *old(self),
                mark == player.spec_square_type(),
                other == player.spec_other(),
                move_score_table@ == reply_table(self@, *player).take(i as int),
            decreases self@.blanks.len() - i,
        {
            let blank_square = self.blank_squares().get(i);
            let mut new_board = self.clone();
            proof {
                lemma_place(self@, i as int, mark);
            }
            let _ = new_board.insert(&blank_square, mark);
            let mut selected_move = new_board.minmax(&other, 0);
            selected_move.player_move = blank_square;
            move_score_table.push(selected_move);
            assert(move_score_table@ == reply_table(self@, *player).take(i + 1));
            i += 1;
        }
        assert(reply_table(self@, *player).take(i as int) == reply_table(self@, *player));
        Board::select_score(move_score_table.as_mut_slice(), player)
    }
}

} // verus!
