//! The search for the best move: depth-limited minimax with alpha-beta
//! pruning.
//!
//! The side that plays X maximizes the outcome, the side that plays O
//! minimizes it. The blank squares are tried row by row and, within a row,
//! from left to right. Of the replies for which it finds the same rank, the
//! maximizing side keeps the one it tried last and the minimizing side the
//! one it tried first.

use crate::board_info::{Player, Point, SquareType};
use crate::scoring::{GameStatus, MoveScoreTurns};
use crate::tic_tac_toe_board::{lemma_open_game_has_blank, lemma_place, Board, BoardView};
use vstd::prelude::*;

verus! {

/// The outcome of a position at which the search stops: its status, with the
/// depth that is left. The move is a placeholder.
pub open spec fn leaf(b: BoardView, depth: u32) -> MoveScoreTurns {
    MoveScoreTurns {
        score: b.status,
        blank_squares_remaining: depth,
        player_move: Point { x: 0, y: 0 },
    }
}

/// The value from which a side starts before it has tried any reply: the
/// least outcome for the side that maximizes, the greatest for the other.
pub open spec fn seed(player: Player) -> MoveScoreTurns {
    match player {
        Player::X => MoveScoreTurns::spec_least(),
        Player::O => MoveScoreTurns::spec_greatest(),
    }
}

/// The board after `player` has moved to the blank square number `i`.
pub open spec fn reply_board(b: BoardView, player: Player, i: int) -> BoardView {
    b.place(b.blanks[i], player.spec_square_type())
}

/// The value of a position for the side to move, `depth` plies deep, with
/// best play on both sides and nothing left out: the rank of the position
/// itself where the search stops, else the best of the values of the replies.
pub open spec fn minimax(b: BoardView, player: Player, depth: u32) -> int
    decreases depth, b.blanks.len() + 2,
{
    if depth == 0 || b.status != GameStatus::StillPlaying {
        leaf(b, depth).rank()
    } else {
        best_reply(b, player, depth, 0, seed(player).rank())
    }
}

/// The better of two values for `player`: the greater for the side that
/// maximizes, the lesser for the other.
pub open spec fn pick(player: Player, a: int, c: int) -> int {
    match player {
        Player::X => if c > a {
            c
        } else {
            a
        },
        Player::O => if c < a {
            c
        } else {
            a
        },
    }
}

/// The value of reply number `i` for the side that made it.
pub open spec fn reply_value(b: BoardView, player: Player, depth: u32, i: int) -> int
    decreases depth, 0nat,
{
    if depth == 0 {
        0
    } else {
        minimax(reply_board(b, player, i), player.spec_other(), (depth - 1) as u32)
    }
}

/// The best of `best` and the values of the replies from number `i` on: the
/// greatest for the side that maximizes, the least for the other.
pub open spec fn best_reply(b: BoardView, player: Player, depth: u32, i: nat, best: int) -> int
    decreases depth, b.blanks.len() - i + 1,
{
    if depth == 0 || i >= b.blanks.len() {
        best
    } else {
        best_reply(b, player, depth, i + 1, pick(player, best, reply_value(b, player, depth, i as int)))
    }
}

/// What the search returns for a position, a side to move, a depth and a
/// window from `alpha` to `beta`.
pub open spec fn search(
    b: BoardView,
    player: Player,
    depth: u32,
    alpha: MoveScoreTurns,
    beta: MoveScoreTurns,
) -> MoveScoreTurns
    decreases depth, b.blanks.len() + 1,
{
    if depth == 0 || b.status != GameStatus::StillPlaying {
        leaf(b, depth)
    } else {
        scan(b, player, depth, alpha, beta, 0, seed(player))
    }
}

/// What the search finds for reply number `i`: the outcome of the position
/// after it, with the reply as its move.
pub open spec fn reply_outcome(
    b: BoardView,
    player: Player,
    depth: u32,
    alpha: MoveScoreTurns,
    beta: MoveScoreTurns,
    i: nat,
) -> MoveScoreTurns
    decreases depth, b.blanks.len() - i, 1nat,
{
    if depth == 0 || i >= b.blanks.len() {
        seed(player)
    } else {
        let found = search(
            reply_board(b, player, i as int),
            player.spec_other(),
            (depth - 1) as u32,
            alpha,
            beta,
        );
        MoveScoreTurns {
            score: found.score,
            blank_squares_remaining: found.blank_squares_remaining,
            player_move: b.blanks[i as int],
        }
    }
}

/// The search over the replies from number `i` on, with `best` the best
/// outcome of the replies before them and the window narrowed by it. A reply
/// that falls out of the window on the far side ends the search.
pub open spec fn scan(
    b: BoardView,
    player: Player,
    depth: u32,
    alpha: MoveScoreTurns,
    beta: MoveScoreTurns,
    i: nat,
    best: MoveScoreTurns,
) -> MoveScoreTurns
    decreases depth, b.blanks.len() - i, 2nat,
{
    if depth == 0 || i >= b.blanks.len() {
        best
    } else {
        let reply = reply_outcome(b, player, depth, alpha, beta, i);
        match player {
            Player::X => {
                let best = MoveScoreTurns::spec_max_of(best, reply);
                if reply.rank() > beta.rank() {
                    best
                } else {
                    scan(b, player, depth, MoveScoreTurns::spec_max_of(best, alpha), beta, i + 1, best)
                }
            },
            Player::O => {
                let best = MoveScoreTurns::spec_min_of(best, reply);
                if reply.rank() < alpha.rank() {
                    best
                } else {
                    scan(b, player, depth, alpha, MoveScoreTurns::spec_min_of(best, beta), i + 1, best)
                }
            },
        }
    }
}

/// Whether `s` ranks within the window from `alpha` to `beta`.
pub open spec fn in_window(s: MoveScoreTurns, alpha: MoveScoreTurns, beta: MoveScoreTurns) -> bool {
    alpha.rank() <= s.rank() <= beta.rank()
}

/// Whether the move of `s` is one of the replies from number `i` on, and one
/// whose value is the rank of `s` if that rank lies within the window.
pub open spec fn chosen_from(
    b: BoardView,
    player: Player,
    depth: u32,
    alpha: MoveScoreTurns,
    beta: MoveScoreTurns,
    i: nat,
    s: MoveScoreTurns,
) -> bool {
    exists|j: int|
        i <= j < b.blanks.len() && s.player_move == #[trigger] b.blanks[j] && (in_window(
            s,
            alpha,
            beta,
        ) ==> reply_value(b, player, depth, j) == s.rank())
}

/// The best of the replies is no worse than the value it starts from, and
/// taking one more value into account before or after the replies comes to
/// the same.
pub proof fn lemma_best_reply_fold(
    b: BoardView,
    player: Player,
    depth: u32,
    i: nat,
    best: int,
    extra: int,
)
    ensures
        best_reply(b, player, depth, i, pick(player, best, extra)) == pick(
            player,
            best_reply(b, player, depth, i, best),
            extra,
        ),
        pick(player, best_reply(b, player, depth, i, best), best) == best_reply(
            b,
            player,
            depth,
            i,
            best,
        ),
    decreases b.blanks.len() - i,
{
    if depth != 0 && i < b.blanks.len() {
        let value = reply_value(b, player, depth, i as int);
        lemma_best_reply_fold(b, player, depth, i + 1, pick(player, best, value), extra);
        lemma_best_reply_fold(b, player, depth, i + 1, pick(player, best, extra), value);
        lemma_best_reply_fold(b, player, depth, i + 1, best, value);
        assert(pick(player, pick(player, best, value), extra) == pick(
            player,
            pick(player, best, extra),
            value,
        ));
    }
}

/// The best of the replies does not depend on the order in which they are
/// tried: it is no worse for the side to move than the value it starts from
/// and than the value of any reply from number `i` on, and it is one of
/// these values.
pub proof fn lemma_best_reply_is_extremum(
    b: BoardView,
    player: Player,
    depth: u32,
    i: nat,
    best: int,
)
    requires
        depth > 0,
    ensures
        ({
            let value = best_reply(b, player, depth, i, best);
            &&& pick(player, value, best) == value
            &&& forall|j: int|
                i <= j < b.blanks.len() ==> pick(
                    player,
                    value,
                    #[trigger] reply_value(b, player, depth, j),
                ) == value
            &&& value == best || exists|j: int|
                i <= j < b.blanks.len() && value == #[trigger] reply_value(b, player, depth, j)
        }),
    decreases b.blanks.len() - i,
{
    if i < b.blanks.len() {
        let here = reply_value(b, player, depth, i as int);
        let better = pick(player, best, here);
        let value = best_reply(b, player, depth, i, best);
        lemma_best_reply_is_extremum(b, player, depth, i + 1, better);
    }
}

/// Where the side to move has a reply to try, the minimax value of the
/// position is the best for that side of the values of the replies and of
/// the value that the side starts from, whatever the order of the replies:
/// the greatest of them for the side that maximizes, the least for the
/// other.
pub proof fn lemma_minimax_is_extremum(b: BoardView, player: Player, depth: u32)
    requires
        depth > 0,
        b.status == GameStatus::StillPlaying,
    ensures
        ({
            let value = minimax(b, player, depth);
            &&& pick(player, value, seed(player).rank()) == value
            &&& forall|j: int|
                0 <= j < b.blanks.len() ==> pick(
                    player,
                    value,
                    #[trigger] reply_value(b, player, depth, j),
                ) == value
            &&& value == seed(player).rank() || exists|j: int|
                0 <= j < b.blanks.len() && value == #[trigger] reply_value(b, player, depth, j)
        }),
{
    lemma_best_reply_is_extremum(b, player, depth, 0, seed(player).rank());
}

/// Alpha-beta pruning is sound. The rank of what the search returns is the
/// minimax value of the position, unless it lies outside the window: a rank
/// above the window is a lower bound of the value, one below the window an
/// upper bound. Where the search tries replies, the move it returns is either
/// the placeholder of the starting value or one of the replies, and that
/// reply has the returned rank as its value if the rank lies in the window.
pub proof fn lemma_search_sound(
    b: BoardView,
    player: Player,
    depth: u32,
    alpha: MoveScoreTurns,
    beta: MoveScoreTurns,
)
    ensures
        ({
            let s = search(b, player, depth, alpha, beta);
            let value = minimax(b, player, depth);
            &&& s.rank() < value ==> s.rank() > beta.rank()
            &&& s.rank() > value ==> s.rank() < alpha.rank()
            &&& in_window(s, alpha, beta) ==> s.rank() == value
            &&& depth > 0 && b.status == GameStatus::StillPlaying ==> s == seed(player)
                || chosen_from(b, player, depth, alpha, beta, 0, s)
        }),
    decreases depth, b.blanks.len() + 1,
{
    if depth != 0 && b.status == GameStatus::StillPlaying {
        lemma_scan_sound(b, player, depth, alpha, beta, 0, seed(player));
    }
}

/// The statement of [`lemma_search_sound`] for the search over the replies
/// from number `i` on, which starts from `best`: the value is then the best
/// of `best` and these replies, and the rank returned is no worse than
/// `best`.
pub proof fn lemma_scan_sound(
    b: BoardView,
    player: Player,
    depth: u32,
    alpha: MoveScoreTurns,
    beta: MoveScoreTurns,
    i: nat,
    best: MoveScoreTurns,
)
    requires
        depth > 0,
    ensures
        ({
            let s = scan(b, player, depth, alpha, beta, i, best);
            let value = best_reply(b, player, depth, i, best.rank());
            &&& s.rank() < value ==> s.rank() > beta.rank()
            &&& s.rank() > value ==> s.rank() < alpha.rank()
            &&& pick(player, best.rank(), s.rank()) == s.rank()
            &&& s == best || chosen_from(b, player, depth, alpha, beta, i, s)
        }),
    decreases depth, b.blanks.len() - i,
{
    if i < b.blanks.len() {
        let s = scan(b, player, depth, alpha, beta, i, best);
        let child = reply_board(b, player, i as int);
        let other = player.spec_other();
        let reply = reply_outcome(b, player, depth, alpha, beta, i);
        let v = reply_value(b, player, depth, i as int);
        lemma_search_sound(child, other, (depth - 1) as u32, alpha, beta);
        lemma_best_reply_fold(b, player, depth, i + 1, best.rank(), v);
        lemma_best_reply_fold(b, player, depth, i + 1, best.rank(), reply.rank());
        let rest = best_reply(b, player, depth, i + 1, best.rank());
        match player {
            Player::X => {
                let best2 = MoveScoreTurns::spec_max_of(best, reply);
                if reply.rank() <= beta.rank() {
                    let alpha2 = MoveScoreTurns::spec_max_of(best2, alpha);
                    lemma_scan_sound(b, player, depth, alpha2, beta, i + 1, best2);
                    assert(best_reply(b, player, depth, i + 1, best2.rank()) == pick(
                        player,
                        rest,
                        reply.rank(),
                    ));
                    if s != best2 {
                        let j = choose|j: int|
                            i + 1 <= j < b.blanks.len() && s.player_move == #[trigger] b.blanks[j]
                                && (in_window(s, alpha2, beta) ==> reply_value(b, player, depth, j)
                                == s.rank());
                        assert(i <= j < b.blanks.len() && s.player_move == b.blanks[j] && (
                        in_window(s, alpha, beta) ==> reply_value(b, player, depth, j)
                            == s.rank()));
                    }
                }
            },
            Player::O => {
                let best2 = MoveScoreTurns::spec_min_of(best, reply);
                if reply.rank() >= alpha.rank() {
                    let beta2 = MoveScoreTurns::spec_min_of(best2, beta);
                    lemma_scan_sound(b, player, depth, alpha, beta2, i + 1, best2);
                    assert(best_reply(b, player, depth, i + 1, best2.rank()) == pick(
                        player,
                        rest,
                        reply.rank(),
                    ));
                    if s != best2 {
                        let j = choose|j: int|
                            i + 1 <= j < b.blanks.len() && s.player_move == #[trigger] b.blanks[j]
                                && (in_window(s, alpha, beta2) ==> reply_value(b, player, depth, j)
                                == s.rank());
                        assert(i <= j < b.blanks.len() && s.player_move == b.blanks[j] && (
                        in_window(s, alpha, beta) ==> reply_value(b, player, depth, j)
                            == s.rank()));
                    }
                }
            },
        }
    }
}

/// On a valid board, a search of at most nine plies returns a rank that a
/// position of that depth can have, whatever the window: between a win of O
/// and a win of X at once. Where the search tries replies, the rank is that
/// of a reply, so a win comes one ply later at least.
pub proof fn lemma_search_range(
    b: BoardView,
    player: Player,
    depth: u32,
    alpha: MoveScoreTurns,
    beta: MoveScoreTurns,
)
    requires
        b.wf(),
        depth <= 9,
    ensures
        -(depth + 1) <= search(b, player, depth, alpha, beta).rank() <= depth + 1,
        depth > 0 && b.status == GameStatus::StillPlaying ==> -depth <= search(
            b,
            player,
            depth,
            alpha,
            beta,
        ).rank() <= depth,
    decreases depth, b.blanks.len() + 1,
{
    if depth != 0 && b.status == GameStatus::StillPlaying {
        lemma_open_game_has_blank(b);
        lemma_scan_range(b, player, depth, alpha, beta, 0, seed(player));
    }
}

/// The statement of [`lemma_search_range`] for the search over the replies
/// from number `i` on.
pub proof fn lemma_scan_range(
    b: BoardView,
    player: Player,
    depth: u32,
    alpha: MoveScoreTurns,
    beta: MoveScoreTurns,
    i: nat,
    best: MoveScoreTurns,
)
    requires
        b.wf(),
        0 < depth <= 9,
        i <= b.blanks.len(),
        (best == seed(player) && i < b.blanks.len()) || -depth <= best.rank() <= depth,
    ensures
        -depth <= scan(b, player, depth, alpha, beta, i, best).rank() <= depth,
    decreases depth, b.blanks.len() - i,
{
    if i < b.blanks.len() {
        let child = reply_board(b, player, i as int);
        let other = player.spec_other();
        let reply = reply_outcome(b, player, depth, alpha, beta, i);
        lemma_place(b, i as int, player.spec_square_type());
        lemma_search_range(child, other, (depth - 1) as u32, alpha, beta);
        match player {
            Player::X => {
                let best2 = MoveScoreTurns::spec_max_of(best, reply);
                if reply.rank() <= beta.rank() {
                    let alpha2 = MoveScoreTurns::spec_max_of(best2, alpha);
                    lemma_scan_range(b, player, depth, alpha2, beta, i + 1, best2);
                }
            },
            Player::O => {
                let best2 = MoveScoreTurns::spec_min_of(best, reply);
                if reply.rank() >= alpha.rank() {
                    let beta2 = MoveScoreTurns::spec_min_of(best2, beta);
                    lemma_scan_range(b, player, depth, alpha, beta2, i + 1, best2);
                }
            },
        }
    }
}

/// With a window that no outcome can leave, the search finds the minimax
/// value and a best move. On a valid board on which the game goes on, a
/// search of one to nine plies between bounds that no outcome of that depth
/// can pass returns the minimax value of the position as its rank, and as its
/// move a blank square to which the move has that value.
pub proof fn lemma_full_window_search(
    b: BoardView,
    player: Player,
    depth: u32,
    alpha: MoveScoreTurns,
    beta: MoveScoreTurns,
)
    requires
        b.wf(),
        b.status == GameStatus::StillPlaying,
        0 < depth <= 9,
        alpha.rank() <= -depth,
        beta.rank() >= depth,
    ensures
        ({
            let s = search(b, player, depth, alpha, beta);
            &&& s.rank() == minimax(b, player, depth)
            &&& b.blanks.contains(s.player_move)
            &&& reply_value(b, player, depth, b.blanks.index_of(s.player_move)) == minimax(
                b,
                player,
                depth,
            )
        }),
{
    let s = search(b, player, depth, alpha, beta);
    lemma_search_range(b, player, depth, alpha, beta);
    lemma_search_sound(b, player, depth, alpha, beta);
    let j = choose|j: int|
        0 <= j < b.blanks.len() && s.player_move == #[trigger] b.blanks[j] && (in_window(
            s,
            alpha,
            beta,
        ) ==> reply_value(b, player, depth, j) == s.rank());
    lemma_place(b, j, player.spec_square_type());
}

impl Board {
    /// Searches the game tree below this board, `depth` plies deep, for the
    /// best move of `player`, and returns it with the outcome it leads to.
    /// The bounds `alpha` and `beta` are the window outside of which the
    /// caller has no use for an exact outcome; at the root they are the least
    /// and the greatest outcome. Where the search stops at once, because the
    /// depth is used up or the game is over, the move is a placeholder.
    pub fn alpha_beta(
        &self,
        player: &Player,
        depth: u32,
        alpha: &MoveScoreTurns,
        beta: &MoveScoreTurns,
    ) -> (r: MoveScoreTurns)
        requires
            self.wf(),
        ensures
            r == search(self@, *player, depth, *alpha, *beta),
            in_window(r, *alpha, *beta) ==> r.rank() == minimax(self@, *player, depth),
            r.rank() < minimax(self@, *player, depth) ==> r.rank() > beta.rank(),
            r.rank() > minimax(self@, *player, depth) ==> r.rank() < alpha.rank(),
            self@.status == GameStatus::StillPlaying && 0 < depth <= 9 && alpha.rank() + depth <= 0
                && beta.rank() >= depth ==> r.rank() == minimax(self@, *player, depth)
                && self@.blanks.contains(r.player_move) && reply_value(
                self@,
                *player,
                depth,
                self@.blanks.index_of(r.player_move),
            ) == r.rank(),
        decreases depth,
    {
        proof {
            lemma_search_sound(self@, *player, depth, *alpha, *beta);
            if self@.status == GameStatus::StillPlaying && 0 < depth <= 9 && alpha.rank() + depth
                <= 0 && beta.rank() >= depth {
                lemma_full_window_search(self@, *player, depth, *alpha, *beta);
            }
        }
        if depth == 0 || self.game_status() != GameStatus::StillPlaying {
            return MoveScoreTurns {
                score: self.game_status(),
                blank_squares_remaining: depth,
                player_move: Point { x: 0, y: 0 },
            };
        }
        let blanks = self.blank_squares();
        let mark = player.square_type();
        let other = player.other();
        let mut i: usize = 0;
        match player {
            Player::X => {
                let mut value = MoveScoreTurns::least();
                let mut new_alpha = *alpha;
                while i < blanks.len()
                    invariant_except_break
                        search(self@, *player, depth, *alpha, *beta) == scan(
                            self@,
                            *player,
                            depth,
                            new_alpha,
                            *beta,
                            i as nat,
                            value,
                        ),
                    invariant
                        0 <= i <= blanks@.len(),
                        blanks@ == self@.blanks,
                        self.wf(),
                        depth > 0,
                        *player == Player::X,
                        mark == SquareType::X,
                        other == Player::O,
                    ensures
                        value == search(self@, *player, depth, *alpha, *beta),
                    decreases blanks@.len() - i,
                {
                    let blank_square = blanks.get(i);
                    let mut new_board = self.clone();
                    let _ = new_board.insert(&blank_square, mark);
                    let mut new_value = new_board.alpha_beta(&other, depth - 1, &new_alpha, beta);
                    new_value.player_move = blank_square;
                    assert(new_value == reply_outcome(
                        self@,
                        *player,
                        depth,
                        new_alpha,
                        *beta,
                        i as nat,
                    ));
                    value = MoveScoreTurns::max_of(value, new_value);
                    if new_value > *beta {
                        break ;
                    }
                    new_alpha = MoveScoreTurns::max_of(value, new_alpha);
                    i += 1;
                }
                value
            },
            Player::O => {
                let mut value = MoveScoreTurns::greatest();
                let mut new_beta = *beta;
                while i < blanks.len()
                    invariant_except_break
                        search(self@, *player, depth, *alpha, *beta) == scan(
                            self@,
                            *player,
                            depth,
                            *alpha,
                            new_beta,
                            i as nat,
                            value,
                        ),
                    invariant
                        0 <= i <= blanks@.len(),
                        blanks@ == self@.blanks,
                        self.wf(),
                        depth > 0,
                        *player == Player::O,
                        mark == SquareType::O,
                        other == Player::X,
                    ensures
                        value == search(self@, *player, depth, *alpha, *beta),
                    decreases blanks@.len() - i,
                {
                    let blank_square = blanks.get(i);
                    let mut new_board = self.clone();
                    let _ = new_board.insert(&blank_square, mark);
                    let mut new_value = new_board.alpha_beta(&other, depth - 1, alpha, &new_beta);
                    new_value.player_move = blank_square;
                    assert(new_value == reply_outcome(
                        self@,
                        *player,
                        depth,
                        *alpha,
                        new_beta,
                        i as nat,
                    ));
                    value = MoveScoreTurns::min_of(value, new_value);
                    if new_value < *alpha {
                        break ;
                    }
                    new_beta = MoveScoreTurns::min_of(value, new_beta);
                    i += 1;
                }
                value
            },
        }
    }
}

} // verus!
