use connect4::board::Piece;
use connect4::board::drop_piece;
use connect4::board::new_board;
use connect4::game::TurnStep;
use connect4::game::other;
use connect4::game::run_game;
use connect4::game::take_turn;

fn lines(texts: &[&str]) -> Vec<String> {
    texts.iter().map(|t| t.to_string()).collect()
}

#[test]
fn other_alternates_the_two_players() {
    assert!(other(Piece::R) == Piece::B);
    assert!(other(Piece::B) == Piece::R);
}

#[test]
fn invalid_input_costs_no_turn_and_leaves_the_board() {
    let mut board = new_board();
    let before = board.clone();
    let step = take_turn(&mut board, Piece::R, "nope");
    assert!(matches!(step, TurnStep::InvalidInput));
    assert!(board == before);
}

#[test]
fn full_column_costs_no_turn_and_leaves_the_board() {
    let mut board = new_board();
    for n in 0..6 {
        let piece = if n % 2 == 0 { Piece::R } else { Piece::B };
        assert!(drop_piece(&mut board, 4, piece).is_ok());
    }
    let before = board.clone();
    let step = take_turn(&mut board, Piece::R, "5");
    assert!(matches!(step, TurnStep::ColumnFull));
    assert!(board == before);
}

#[test]
fn a_valid_move_places_the_piece_and_reports_the_outcome() {
    let mut board = new_board();
    let step = take_turn(&mut board, Piece::R, " 3 \n");
    assert!(matches!(step, TurnStep::Moved(None)));
    assert!(board[5][2] == Piece::R);
}

#[test]
fn run_game_plays_to_a_vertical_red_win() {
    let mut board = new_board();
    // Red stacks column 1 while black fills column 2.
    let script = lines(&["1", "2", "1", "2", "1", "2", "1"]);
    assert_eq!(run_game(&mut board, &script), Some(Piece::R));
    for r in 2..6 {
        assert!(board[r][0] == Piece::R);
    }
}

#[test]
fn run_game_reprompts_the_same_player_on_bad_lines() {
    let mut board = new_board();
    // Rejected lines cost red no turn: the game ends as above.
    let script = lines(&["x", "1", "8", "2", " 1 ", "2", "1", "0", "2", "1"]);
    assert_eq!(run_game(&mut board, &script), Some(Piece::R));
}

#[test]
fn run_game_without_enough_lines_stays_in_progress() {
    let mut board = new_board();
    let script = lines(&["1", "2", "1"]);
    assert_eq!(run_game(&mut board, &script), None);
    assert!(board[5][0] == Piece::R);
    assert!(board[5][1] == Piece::B);
    assert!(board[4][0] == Piece::R);
}

#[test]
fn run_game_on_a_finished_board_reads_no_lines() {
    let mut board = new_board();
    let script = lines(&["1", "2", "1", "2", "1", "2", "1"]);
    assert_eq!(run_game(&mut board, &script), Some(Piece::R));
    // The game is over: further lines are never consumed.
    let more = lines(&["2", "2", "2", "2"]);
    let before = board.clone();
    assert_eq!(run_game(&mut board, &more), Some(Piece::R));
    assert!(board == before);
}

#[test]
fn run_game_plays_a_horizontal_black_win() {
    let mut board = new_board();
    // Red stacks column 6; black lays row 5 across columns 1 to 4.
    let script = lines(&["7", "1", "7", "2", "7", "3", "6", "4"]);
    assert_eq!(run_game(&mut board, &script), Some(Piece::B));
    for c in 0..4 {
        assert!(board[5][c] == Piece::B);
    }
}
