use connect4::board::Piece;
use connect4::board::drop_piece;
use connect4::board::new_board;
use connect4::render::render;

#[test]
fn renders_the_empty_board_exactly() {
    let board = new_board();
    let expected = "\n 1 2 3 4 5 6 7\n\
        +-------------+\n\
        | | | | | | | |\n\
        |-+-+-+-+-+-+-|\n\
        | | | | | | | |\n\
        |-+-+-+-+-+-+-|\n\
        | | | | | | | |\n\
        |-+-+-+-+-+-+-|\n\
        | | | | | | | |\n\
        |-+-+-+-+-+-+-|\n\
        | | | | | | | |\n\
        |-+-+-+-+-+-+-|\n\
        | | | | | | | |\n\
        +-------------+\n\n";
    assert_eq!(render(&board), expected);
}

#[test]
fn renders_pieces_in_their_cells() {
    let mut board = new_board();
    assert!(drop_piece(&mut board, 0, Piece::R).is_ok());
    assert!(drop_piece(&mut board, 1, Piece::B).is_ok());
    assert!(drop_piece(&mut board, 0, Piece::B).is_ok());
    let text = render(&board);
    let lines: Vec<&str> = text.lines().collect();
    // Line 0 is blank, line 1 the header, line 2 the top border; row r
    // stands at line 3 + 2r, the bottom border after the last row.
    assert_eq!(lines[11], "|B| | | | | | |");
    assert_eq!(lines[13], "|R|B| | | | | |");
    assert_eq!(lines[14], "+-------------+");
}

#[test]
fn rendered_header_reads_back_as_columns_one_to_seven() {
    let board = new_board();
    let text = render(&board);
    let header = text.lines().nth(1).unwrap();
    let digits: String = header.chars().filter(|c| !c.is_whitespace()).collect();
    assert_eq!(digits, "1234567");
}
