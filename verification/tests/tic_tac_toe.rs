use tic_tac_toe::board_info::{Player, Point};
use tic_tac_toe::scoring::GameStatus;
use tic_tac_toe::tic_tac_toe::MoveScoreDepth;
use tic_tac_toe::tic_tac_toe_board::Board;

#[test]
fn tic_tac_toe_row_x_win() {
    let x_win_board = Board::from_string(
        "X X X |
             O O X |
             X O O",
    );
    assert_eq!(x_win_board.check_rows(), GameStatus::XWin);
}

#[test]
fn tic_tac_toe_row_o_win() {
    let o_win_board = Board::from_string(
        "O O O |
             X B X |
             X O X",
    );
    assert_eq!(o_win_board.check_rows(), GameStatus::OWin);
}

#[test]
fn tic_tac_toe_row_still_playing() {
    let still_playing_board = Board::from_string(
        "X B X |
             O B X |
             X B O",
    );
    assert_eq!(still_playing_board.check_rows(), GameStatus::StillPlaying);
}

#[test]
fn tic_tac_toe_row_draw() {
    let draw_board = Board::from_string(
        "X X O |
             O O X |
             X O X",
    );
    assert_eq!(draw_board.check_rows(), GameStatus::Draw);
}

#[test]
fn tic_tac_toe_row_draw_col_win() {
    let col_win_board = Board::from_string(
        "X X O |
             X O O |
             X O X",
    );
    assert_eq!(col_win_board.check_rows(), GameStatus::Draw);
}

#[test]
fn tic_tac_toe_col_x_win() {
    let x_win_board = Board::from_string(
        "X X O |
             X O O |
             X O X",
    );
    assert_eq!(x_win_board.check_cols(), GameStatus::XWin);
}

#[test]
fn tic_tac_toe_col_o_win() {
    let o_win_board = Board::from_string(
        "O X X |
             O B O |
             O X X",
    );
    assert_eq!(o_win_board.check_cols(), GameStatus::OWin);
}

#[test]
fn tic_tac_toe_col_draw() {
    let draw_board = Board::from_string(
        "X X O |
             O X X |
             X O O",
    );
    assert_eq!(draw_board.check_cols(), GameStatus::Draw);
}

#[test]
fn tic_tac_toe_col_still_playing() {
    let still_playing_board = Board::from_string(
        "X X O |
             B O O |
             X O X",
    );
    assert_eq!(still_playing_board.check_cols(), GameStatus::StillPlaying);
}

#[test]
fn tic_tac_toe_col_draw_row_win() {
    let x_win_board = Board::from_string(
        "X X X |
             O B O |
             X O X",
    );
    assert_eq!(x_win_board.check_cols(), GameStatus::StillPlaying);
}

#[test]
fn tic_tac_toe_diag_x_win() {
    let x_win_board = Board::from_string(
        "X X O |
             O X O |
             X O X",
    );
    assert_eq!(x_win_board.check_diag(), GameStatus::XWin);
}

#[test]
fn tic_tac_toe_diag_o_win() {
    let o_win_board = Board::from_string(
        "X X O |
             O O X |
             O X X",
    );
    assert_eq!(o_win_board.check_diag(), GameStatus::OWin);
}

#[test]
fn tic_tac_toe_diag_draw() {
    let draw_board = Board::from_string(
        "X X O |
             O O X |
             X O X",
    );
    assert_eq!(draw_board.check_diag(), GameStatus::Draw);
}

#[test]
fn tic_tac_toe_diag_still_playing() {
    let still_playing_board = Board::from_string(
        "X X O |
             O B O |
             X O X",
    );
    assert_eq!(still_playing_board.check_diag(), GameStatus::StillPlaying);
}

#[test]
fn select_score_1() {
    let mut manual_move_score_table = vec![
        MoveScoreDepth {
            player_move: Point { x: 0, y: 0 },
            score: GameStatus::OWin,
        },
        MoveScoreDepth {
            player_move: Point { x: 0, y: 1 },
            score: GameStatus::Draw,
        },
        MoveScoreDepth {
            player_move: Point { x: 0, y: 2 },
            score: GameStatus::OWin,
        },
        MoveScoreDepth {
            player_move: Point { x: 1, y: 0 },
            score: GameStatus::XWin,
        },
        MoveScoreDepth {
            player_move: Point { x: 1, y: 1 },
            score: GameStatus::Draw,
        },
        MoveScoreDepth {
            player_move: Point { x: 1, y: 2 },
            score: GameStatus::OWin,
        },
        MoveScoreDepth {
            player_move: Point { x: 2, y: 0 },
            score: GameStatus::XWin,
        },
    ];

    let selected_score = Board::select_score(&mut manual_move_score_table, &Player::X);
    assert_eq!(
        selected_score,
        MoveScoreDepth {
            player_move: Point { x: 1, y: 0 },
            score: GameStatus::XWin
        }
    );
}

#[test]
fn select_score_2() {
    let mut manual_move_score_table = vec![
        MoveScoreDepth {
            player_move: Point { x: 0, y: 0 },
            score: GameStatus::OWin,
        },
        MoveScoreDepth {
            player_move: Point { x: 0, y: 1 },
            score: GameStatus::Draw,
        },
        MoveScoreDepth {
            player_move: Point { x: 0, y: 2 },
            score: GameStatus::OWin,
        },
        MoveScoreDepth {
            player_move: Point { x: 1, y: 0 },
            score: GameStatus::XWin,
        },
        MoveScoreDepth {
            player_move: Point { x: 1, y: 1 },
            score: GameStatus::Draw,
        },
        MoveScoreDepth {
            player_move: Point { x: 1, y: 2 },
            score: GameStatus::OWin,
        },
        MoveScoreDepth {
            player_move: Point { x: 2, y: 0 },
            score: GameStatus::XWin,
        },
    ];

    let selected_score = Board::select_score(&mut manual_move_score_table, &Player::O);
    assert_eq!(
        selected_score,
        MoveScoreDepth {
            player_move: Point { x: 0, y: 0 },
            score: GameStatus::OWin
        }
    );
}

#[test]
fn select_score_3() {
    let mut manual_move_score_table = vec![
        MoveScoreDepth {
            player_move: Point { x: 0, y: 0 },
            score: GameStatus::XWin,
        },
        MoveScoreDepth {
            player_move: Point { x: 0, y: 1 },
            score: GameStatus::Draw,
        },
        MoveScoreDepth {
            player_move: Point { x: 0, y: 2 },
            score: GameStatus::XWin,
        },
        MoveScoreDepth {
            player_move: Point { x: 1, y: 0 },
            score: GameStatus::XWin,
        },
        MoveScoreDepth {
            player_move: Point { x: 1, y: 1 },
            score: GameStatus::Draw,
        },
        MoveScoreDepth {
            player_move: Point { x: 1, y: 2 },
            score: GameStatus::XWin,
        },
        MoveScoreDepth {
            player_move: Point { x: 2, y: 0 },
            score: GameStatus::XWin,
        },
    ];

    let selected_score = Board::select_score(&mut manual_move_score_table, &Player::O);
    assert_eq!(
        selected_score,
        MoveScoreDepth {
            player_move: Point { x: 0, y: 1 },
            score: GameStatus::Draw,
        }
    );
}

#[test]
fn select_score_4() {
    let mut manual_move_score_table = vec![
        MoveScoreDepth {
            player_move: Point { x: 0, y: 0 },
            score: GameStatus::OWin,
        },
        MoveScoreDepth {
            player_move: Point { x: 0, y: 1 },
            score: GameStatus::Draw,
        },
        MoveScoreDepth {
            player_move: Point { x: 0, y: 2 },
            score: GameStatus::OWin,
        },
        MoveScoreDepth {
            player_move: Point { x: 1, y: 0 },
            score: GameStatus::OWin,
        },
        MoveScoreDepth {
            player_move: Point { x: 1, y: 1 },
            score: GameStatus::Draw,
        },
        MoveScoreDepth {
            player_move: Point { x: 1, y: 2 },
            score: GameStatus::OWin,
        },
        MoveScoreDepth {
            player_move: Point { x: 2, y: 0 },
            score: GameStatus::XWin,
        },
    ];

    let selected_score = Board::select_score(&mut manual_move_score_table, &Player::X);
    assert_eq!(
        selected_score,
        MoveScoreDepth {
            player_move: Point { x: 2, y: 0 },
            score: GameStatus::XWin
        }
    );
}

#[test]
fn select_score_5() {
    let mut manual_move_score_table = vec![
        MoveScoreDepth {
            player_move: Point { x: 0, y: 0 },
            score: GameStatus::XWin,
        },
        MoveScoreDepth {
            player_move: Point { x: 0, y: 1 },
            score: GameStatus::Draw,
        },
        MoveScoreDepth {
            player_move: Point { x: 0, y: 2 },
            score: GameStatus::XWin,
        },
        MoveScoreDepth {
            player_move: Point { x: 1, y: 0 },
            score: GameStatus::XWin,
        },
        MoveScoreDepth {
            player_move: Point { x: 1, y: 1 },
            score: GameStatus::Draw,
        },
        MoveScoreDepth {
            player_move: Point { x: 1, y: 2 },
            score: GameStatus::OWin,
        },
        MoveScoreDepth {
            player_move: Point { x: 2, y: 0 },
            score: GameStatus::XWin,
        },
    ];

    let selected_score = Board::select_score(&mut manual_move_score_table, &Player::O);
    assert_eq!(
        selected_score,
        MoveScoreDepth {
            player_move: Point { x: 1, y: 2 },
            score: GameStatus::OWin
        }
    );
}
