use tic_tac_toe::scoring::GameStatus;
use tic_tac_toe::tic_tac_toe_board::Board;

#[test]
fn tic_tac_toe_board_row_x_win() {
    let x_win_board = Board::from_string(
        "X X X |
             O O X |
             X O O",
    );
    assert_eq!(x_win_board.check_rows(), GameStatus::XWin);
}

#[test]
fn tic_tac_toe_board_row_o_win() {
    let o_win_board = Board::from_string(
        "O O O |
             X B X |
             X O X",
    );
    assert_eq!(o_win_board.check_rows(), GameStatus::OWin);
}

#[test]
fn tic_tac_toe_board_row_still_playing() {
    let still_playing_board = Board::from_string(
        "X B X |
             O B X |
             X B O",
    );
    assert_eq!(still_playing_board.check_rows(), GameStatus::StillPlaying);
}

#[test]
fn tic_tac_toe_board_row_draw() {
    let draw_board = Board::from_string(
        "X X O |
             O O X |
             X O X",
    );
    assert_eq!(draw_board.check_rows(), GameStatus::Draw);
}

#[test]
fn tic_tac_toe_board_row_draw_col_win() {
    let col_win_board = Board::from_string(
        "X X O |
             X O O |
             X O X",
    );
    assert_eq!(col_win_board.check_rows(), GameStatus::Draw);
}

#[test]
fn tic_tac_toe_board_col_x_win() {
    let x_win_board = Board::from_string(
        "X X O |
             X O O |
             X O X",
    );
    assert_eq!(x_win_board.check_cols(), GameStatus::XWin);
}

#[test]
fn tic_tac_toe_board_col_o_win() {
    let o_win_board = Board::from_string(
        "O X X |
             O B O |
             O X X",
    );
    assert_eq!(o_win_board.check_cols(), GameStatus::OWin);
}

#[test]
fn tic_tac_toe_board_col_draw() {
    let draw_board = Board::from_string(
        "X X O |
             O X X |
             X O O",
    );
    assert_eq!(draw_board.check_cols(), GameStatus::Draw);
}

#[test]
fn tic_tac_toe_board_col_still_playing() {
    let still_playing_board = Board::from_string(
        "X X O |
             B O O |
             X O X",
    );
    assert_eq!(still_playing_board.check_cols(), GameStatus::StillPlaying);
}

#[test]
fn tic_tac_toe_board_col_draw_row_win() {
    let x_win_board = Board::from_string(
        "X X X |
             O B O |
             X O X",
    );
    assert_eq!(x_win_board.check_cols(), GameStatus::StillPlaying);
}

#[test]
fn tic_tac_toe_board_diag_x_win() {
    let x_win_board = Board::from_string(
        "X X O |
             O X O |
             X O X",
    );
    assert_eq!(x_win_board.check_diag(), GameStatus::XWin);
}

#[test]
fn tic_tac_toe_board_diag_o_win() {
    let o_win_board = Board::from_string(
        "X X O |
             O O X |
             O X X",
    );
    assert_eq!(o_win_board.check_diag(), GameStatus::OWin);
}

#[test]
fn tic_tac_toe_board_diag_draw() {
    let draw_board = Board::from_string(
        "X X O |
             O O X |
             X O X",
    );
    assert_eq!(draw_board.check_diag(), GameStatus::Draw);
}

#[test]
fn tic_tac_toe_board_diag_still_playing() {
    let still_playing_board = Board::from_string(
        "X X O |
             O B O |
             X O X",
    );
    assert_eq!(still_playing_board.check_diag(), GameStatus::StillPlaying);
}
