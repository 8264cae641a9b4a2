use tic_tac_toe::board_info::SquareType::{B, O, X};
use tic_tac_toe::board::TicTacToeBoard;
use tic_tac_toe::board_info::{Player, Point, SquareType};
use tic_tac_toe::layout::{is_whitespace, parse_grid};
use tic_tac_toe::scoring::{GameStatus, MoveScoreTurns};
use tic_tac_toe::tic_tac_toe::MoveScoreDepth;
use tic_tac_toe::tic_tac_toe_board::Board;

fn points(board: &Board) -> Vec<Point> {
    let blanks = board.blank_squares();
    (0..blanks.len()).map(|i| blanks.get(i)).collect()
}

#[test]
fn blank_board_is_blank() {
    let board = Board::initialize_blank_board(3);
    assert_eq!(board.size(), 3);
    assert_eq!(board.game_status(), GameStatus::StillPlaying);
    assert_eq!(board.blank_squares().len(), 9);
    let mut expected = Vec::new();
    for x in 0..3 {
        for y in 0..3 {
            expected.push(Point { x, y });
            assert_eq!(board.square(&Point { x, y }), SquareType::B);
        }
    }
    assert_eq!(points(&board), expected);
}

#[test]
fn blank_board_of_one_square() {
    let mut board = Board::initialize_blank_board(1);
    assert_eq!(board.blank_squares().len(), 1);
    assert!(board.insert(&Point { x: 0, y: 0 }, SquareType::O).is_ok());
    assert_eq!(board.game_status(), GameStatus::OWin);
    assert_eq!(board.blank_squares().len(), 0);
}

#[test]
fn insert_on_an_occupied_square_is_refused() {
    let mut board = Board::initialize_blank_board(3);
    assert!(board.insert(&Point { x: 1, y: 1 }, SquareType::X).is_ok());
    let before = board.blank_squares().len();
    assert_eq!(before, 8);
    let refused = board.insert(&Point { x: 1, y: 1 }, SquareType::O);
    let error = refused.err().unwrap();
    assert_eq!(error.attempted, Point { x: 1, y: 1 });
    assert_eq!(error.valid.len(), 8);
    assert_eq!(board.blank_squares().len(), before);
    assert_eq!(board.square(&Point { x: 1, y: 1 }), SquareType::X);
    assert_eq!(board.game_status(), GameStatus::StillPlaying);
    assert_eq!(
        error.to_string(),
        "Not a valid insert position: (1, 1). Valid positions are \
         (0, 0), (0, 1), (0, 2), (1, 0), (1, 2), (2, 0), (2, 1), (2, 2)"
    );
}

#[test]
fn insert_outside_the_board_is_refused() {
    let mut board = Board::initialize_blank_board(3);
    for point in [Point { x: 3, y: 0 }, Point { x: 0, y: 3 }, Point { x: 7, y: 9 }] {
        let error = board.insert(&point, SquareType::X).err().unwrap();
        assert_eq!(error.attempted, point);
        assert_eq!(board.blank_squares().len(), 9);
    }
}

#[test]
fn insert_removes_the_square_from_the_blank_ones() {
    let mut board = Board::initialize_blank_board(3);
    let point = Point { x: 2, y: 0 };
    assert_eq!(board.blank_squares().position(&point), Some(6));
    assert!(board.insert(&point, SquareType::O).is_ok());
    assert_eq!(board.blank_squares().position(&point), None);
    assert_eq!(board.blank_squares().len(), 8);
    assert_eq!(board.square(&point), SquareType::O);
    assert!(!points(&board).contains(&point));
}

#[test]
fn clone_is_independent() {
    let board = Board::from_string("X B B | B O B | B B B");
    let mut copy = board.clone();
    assert!(copy.insert(&Point { x: 0, y: 1 }, SquareType::X).is_ok());
    assert_eq!(board.blank_squares().len(), 7);
    assert_eq!(copy.blank_squares().len(), 6);
    assert_eq!(board.square(&Point { x: 0, y: 1 }), SquareType::B);
}

#[test]
fn layout_passes_over_unknown_words() {
    assert_eq!(parse_grid("X Q O | B XX X"), vec![vec![X, O], vec![B, X]]);
    assert_eq!(parse_grid("X|O|"), vec![vec![X], vec![O]]);
    assert_eq!(parse_grid("X||O"), vec![vec![X], vec![], vec![O]]);
    assert_eq!(parse_grid("|"), vec![Vec::<SquareType>::new()]);
    assert_eq!(parse_grid(""), Vec::<Vec<SquareType>>::new());
    assert_eq!(parse_grid(" \t\n"), vec![Vec::<SquareType>::new()]);
    assert_eq!(parse_grid("X\u{a0}O\u{2003}B\u{3000}x"), vec![vec![X, O, B]]);
}

#[test]
fn white_space_is_what_the_standard_library_says() {
    for code in 0..0x11_0000u32 {
        if let Some(c) = char::from_u32(code) {
            assert_eq!(is_whitespace(c), c.is_whitespace());
        }
    }
}

#[test]
fn loading_then_showing_keeps_the_marks() {
    let board = Board::from_string(
        "X B O |
         B O X |
         X X B",
    );
    assert_eq!(
        board.glyphs(),
        vec![vec!['X', ' ', 'O'], vec![' ', 'O', 'X'], vec!['X', 'X', ' ']]
    );
    let shown: Vec<String> = board
        .glyphs()
        .iter()
        .map(|row| row.iter().filter(|c| **c != ' ').collect())
        .collect();
    assert_eq!(shown, vec!["XO", "OX", "XX"]);
}

#[test]
fn board_is_drawn_with_bars_and_dashes() {
    let board = Board::from_string("X B O | B O X | X X B");
    assert_eq!(
        board.to_string(),
        " X |   | O \n------------\n   | O | X \n------------\n X | X |   "
    );
    let small = Board::from_string("O");
    assert_eq!(small.to_string(), " O ");
}

#[test]
fn search_stops_at_depth_zero_and_at_the_end_of_the_game() {
    let least = MoveScoreTurns::least();
    let greatest = MoveScoreTurns::greatest();
    let open = Board::from_string("X B O | B O X | X X B");
    assert_eq!(
        open.alpha_beta(&Player::O, 0, &least, &greatest),
        MoveScoreTurns {
            score: GameStatus::StillPlaying,
            blank_squares_remaining: 0,
            player_move: Point { x: 0, y: 0 },
        }
    );
    let won = Board::from_string("X X X | O O B | B B B");
    assert_eq!(
        won.alpha_beta(&Player::O, 5, &least, &greatest),
        MoveScoreTurns {
            score: GameStatus::XWin,
            blank_squares_remaining: 5,
            player_move: Point { x: 0, y: 0 },
        }
    );
}

#[test]
fn search_takes_the_win_at_hand() {
    let least = MoveScoreTurns::least();
    let greatest = MoveScoreTurns::greatest();
    let board = Board::from_string("X X B | O O B | B B B");
    assert_eq!(
        board.alpha_beta(&Player::X, 9, &least, &greatest),
        MoveScoreTurns {
            score: GameStatus::XWin,
            blank_squares_remaining: 8,
            player_move: Point { x: 0, y: 2 },
        }
    );
    assert_eq!(
        board.alpha_beta(&Player::O, 9, &least, &greatest),
        MoveScoreTurns {
            score: GameStatus::OWin,
            blank_squares_remaining: 8,
            player_move: Point { x: 1, y: 2 },
        }
    );
}

#[test]
fn search_prefers_the_slower_loss() {
    let least = MoveScoreTurns::least();
    let greatest = MoveScoreTurns::greatest();
    let lost_at_once = Board::from_string("X X B | B O B | X B O");
    let found = lost_at_once.alpha_beta(&Player::O, 9, &least, &greatest);
    assert_eq!(found.score, GameStatus::XWin);
    assert_eq!(found.blank_squares_remaining, 7);
    let lost_later = Board::from_string("X O B | B X B | B B B");
    assert_eq!(
        lost_later.alpha_beta(&Player::O, 9, &least, &greatest),
        MoveScoreTurns {
            score: GameStatus::XWin,
            blank_squares_remaining: 5,
            player_move: Point { x: 2, y: 2 },
        }
    );
}

#[test]
fn reply_to_a_corner_opening_is_never_worse_than_a_draw() {
    let mut board = Board::initialize_blank_board(3);
    assert!(board.insert(&Point { x: 0, y: 0 }, SquareType::X).is_ok());
    let found = board.alpha_beta(
        &Player::O,
        9,
        &MoveScoreTurns::least(),
        &MoveScoreTurns::greatest(),
    );
    assert_ne!(found.score, GameStatus::XWin);
    assert_eq!(found.score, GameStatus::Draw);
    assert_eq!(found.player_move, Point { x: 1, y: 1 });
    assert!(board.insert(&found.player_move, SquareType::O).is_ok());
}

#[test]
fn search_breaks_ties_by_the_order_of_the_squares() {
    let board = Board::initialize_blank_board(3);
    let least = MoveScoreTurns::least();
    let greatest = MoveScoreTurns::greatest();
    let for_x = board.alpha_beta(&Player::X, 9, &least, &greatest);
    assert_eq!(for_x.score, GameStatus::Draw);
    assert_eq!(for_x.player_move, Point { x: 2, y: 2 });
    let for_o = board.alpha_beta(&Player::O, 9, &least, &greatest);
    assert_eq!(for_o.score, GameStatus::Draw);
    assert_eq!(for_o.player_move, Point { x: 0, y: 0 });
}

#[test]
fn search_with_pruning_agrees_with_search_without() {
    for layout in [
        "X B B | B O B | B B X",
        "X O B | B X B | B B O",
        "B B B | B X B | B B B",
        "O X B | B B B | B B B",
    ] {
        for player in [Player::X, Player::O] {
            let mut board = Board::from_string(layout);
            let pruned = board.alpha_beta(
                &player,
                9,
                &MoveScoreTurns::least(),
                &MoveScoreTurns::greatest(),
            );
            let full = board.minmax(&player, 0);
            assert_eq!(pruned.score, full.score);
        }
    }
}

#[test]
fn minmax_plays_to_the_end() {
    let mut board = Board::from_string("X X B | O O B | B B B");
    assert_eq!(
        board.minmax(&Player::X, 0),
        MoveScoreDepth { player_move: Point { x: 0, y: 2 }, score: GameStatus::XWin }
    );
    assert_eq!(
        board.minmax(&Player::O, 0),
        MoveScoreDepth { player_move: Point { x: 0, y: 2 }, score: GameStatus::OWin }
    );
    assert_eq!(board.blank_squares().len(), 5);
    let mut over = Board::from_string("X X O | O O X | X O X");
    assert_eq!(
        over.minmax(&Player::X, 0),
        MoveScoreDepth { player_move: Point { x: 0, y: 0 }, score: GameStatus::Draw }
    );
    assert_eq!(
        MoveScoreDepth { player_move: Point { x: 2, y: 1 }, score: GameStatus::OWin }.to_string(),
        "(2, 1):OWin"
    );
}

#[test]
fn flat_board_keeps_what_it_is_given() {
    let board = TicTacToeBoard::new(1, 2, vec![SquareType::X, SquareType::B]);
    assert_eq!(board.rows(), 1);
    assert_eq!(board.cols(), 2);
    assert_eq!(board.content(), &vec![SquareType::X, SquareType::B]);
}

#[test]
fn collection_is_made_from_a_vector() {
    use_collection(vec![Point { x: 2, y: 1 }, Point { x: 0, y: 0 }]);
    use_collection(Vec::new());
}

fn use_collection(given: Vec<Point>) {
    let collection = tic_tac_toe::tic_tac_toe_board::PointCollection::from(given.clone());
    assert_eq!(collection.len(), given.len());
    for (i, point) in given.iter().enumerate() {
        assert_eq!(collection.get(i), *point);
        assert!(collection.position(point).is_some());
    }
    assert_eq!(collection.position(&Point { x: 9, y: 9 }), None);
    assert_eq!(collection.clone().len(), given.len());
    let text: Vec<String> = given.iter().map(|p| p.to_string()).collect();
    assert_eq!(collection.to_string(), text.join(", "));
}

#[test]
fn lines_of_boards_of_other_sizes() {
    let two = Board::from_string("X O | X B");
    assert_eq!(two.check_rows(), GameStatus::StillPlaying);
    assert_eq!(two.check_cols(), GameStatus::XWin);
    assert_eq!(two.check_diag(), GameStatus::StillPlaying);
    assert_eq!(two.check_status(), GameStatus::XWin);
    let four = Board::from_string(
        "X O X O |
         X X O X |
         X O X O |
         O X B O",
    );
    assert_eq!(four.size(), 4);
    assert_eq!(four.check_rows(), GameStatus::StillPlaying);
    assert_eq!(four.check_cols(), GameStatus::StillPlaying);
    assert_eq!(four.check_diag(), GameStatus::OWin);
    assert_eq!(four.check_status(), GameStatus::OWin);
    assert_eq!(four.game_status(), GameStatus::OWin);
    let full = Board::from_string("X X | O X");
    assert_eq!(full.check_rows(), GameStatus::XWin);
    assert_eq!(full.check_cols(), GameStatus::XWin);
    assert_eq!(full.check_diag(), GameStatus::XWin);
    assert_eq!(full.blank_squares().len(), 0);
}

#[test]
fn search_of_limited_depth_stops_in_the_middle_of_the_game() {
    let board = Board::initialize_blank_board(3);
    let found = board.alpha_beta(
        &Player::X,
        2,
        &MoveScoreTurns::least(),
        &MoveScoreTurns::greatest(),
    );
    assert_eq!(found.score, GameStatus::StillPlaying);
    assert_eq!(found.blank_squares_remaining, 0);
    assert_eq!(found.player_move, Point { x: 2, y: 2 });
    let near = Board::from_string("X X B | O O B | B B B");
    let found = near.alpha_beta(
        &Player::O,
        1,
        &MoveScoreTurns::least(),
        &MoveScoreTurns::greatest(),
    );
    assert_eq!(found.score, GameStatus::OWin);
    assert_eq!(found.blank_squares_remaining, 0);
    assert_eq!(found.player_move, Point { x: 1, y: 2 });
}

#[test]
fn search_within_a_narrow_window_returns_a_bound() {
    let board = Board::from_string("X X B | O O B | B B B");
    let draw = MoveScoreTurns {
        score: GameStatus::Draw,
        blank_squares_remaining: 0,
        player_move: Point { x: 0, y: 0 },
    };
    let found = board.alpha_beta(&Player::X, 9, &draw, &draw);
    assert!(found > draw);
    assert_eq!(found.score, GameStatus::XWin);
    let found = board.alpha_beta(&Player::O, 9, &draw, &draw);
    assert!(found < draw);
    assert_eq!(found.score, GameStatus::OWin);
}

#[test]
fn status_worked_out_afresh_tells_two_winners() {
    let mut board = Board::from_string("X X X | O O B | B B B");
    assert_eq!(board.checked_status(), Some(GameStatus::XWin));
    assert!(board.insert(&Point { x: 1, y: 2 }, SquareType::O).is_ok());
    assert_eq!(board.checked_status(), None);
    assert_eq!(board.game_status(), GameStatus::XWin);
    let open = Board::initialize_blank_board(3);
    assert_eq!(open.checked_status(), Some(GameStatus::StillPlaying));
}
