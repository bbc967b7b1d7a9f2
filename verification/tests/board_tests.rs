use connect4::board::Board;
use connect4::board::Piece;
use connect4::board::drop_piece;
use connect4::board::new_board;

#[test]
fn new_board_is_all_empty() {
    let board = new_board();
    assert_eq!(board.len(), 6);
    for row in &board {
        assert_eq!(row.len(), 7);
        for &p in row {
            assert!(p == Piece::E);
        }
    }
}

#[test]
fn drops_fill_column_bottom_up() {
    let mut board = new_board();
    // The Nth drop into an empty column lands at row 5 - (N - 1).
    for n in 0..6 {
        let piece = if n % 2 == 0 { Piece::R } else { Piece::B };
        let r = drop_piece(&mut board, 3, piece);
        assert!(r.is_ok());
        assert!(board[5 - n][3] == piece);
        // Cells above the landing row are still empty.
        for above in 0..(5 - n) {
            assert!(board[above][3] == Piece::E);
        }
    }
}

#[test]
fn drops_are_column_local() {
    let mut board = new_board();
    assert!(drop_piece(&mut board, 2, Piece::R).is_ok());
    for r in 0..6 {
        for c in 0..7 {
            if r == 5 && c == 2 {
                assert!(board[r][c] == Piece::R);
            } else {
                assert!(board[r][c] == Piece::E);
            }
        }
    }
}

#[test]
fn drop_into_full_column_fails_and_leaves_board() {
    let mut board = new_board();
    for n in 0..6 {
        let piece = if n % 2 == 0 { Piece::R } else { Piece::B };
        assert!(drop_piece(&mut board, 0, piece).is_ok());
    }
    assert!(board[0][0] != Piece::E);
    let before: Board = board.clone();
    let r = drop_piece(&mut board, 0, Piece::R);
    assert!(r.is_err());
    assert_eq!(r.unwrap_err().msg, "Column is full.");
    assert!(board == before);
}
