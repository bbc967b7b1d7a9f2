use vstd::prelude::*;
use vstd::pervasive::VecAdditionalExecFns;

use crate::error::GameError;
use crate::error::game_error;

verus! {

/// One cell of the grid: a red piece, a black piece, or an empty square.
#[derive(PartialEq, Eq, Structural, Clone, Copy, Debug)]
pub enum Piece {
    R,
    B,
    E,
}

/// A board is six rows of seven cells each; row 0 is the top row and
/// row 5 the bottom row.
pub type Board = Vec<Vec<Piece>>;

/// A 0-based column choice derived from user input.
pub type Move = usize;

/// The board as a mathematical grid: one sequence of cells per row.
pub open spec fn grid_view(rows: Seq<Vec<Piece>>) -> Seq<Seq<Piece>> {
    Seq::new(rows.len(), |r: int| rows[r]@)
}

/// A well-formed grid has exactly six rows of seven cells each.
pub open spec fn grid_wf(g: Seq<Seq<Piece>>) -> bool {
    &&& g.len() == 6
    &&& forall|r: int| 0 <= r < 6 ==> (#[trigger] g[r]).len() == 7
}

/// The grid with the single cell (r, c) set to `p`.
pub open spec fn grid_set(g: Seq<Seq<Piece>>, r: int, c: int, p: Piece) -> Seq<Seq<Piece>> {
    g.update(r, g[r].update(c, p))
}

/// Row `r` is where a piece dropped into column `c` settles: the lowest
/// empty cell of the column, scanning from the bottom row upward.
pub open spec fn is_landing(g: Seq<Seq<Piece>>, c: int, r: int) -> bool {
    &&& 0 <= r < 6
    &&& g[r][c] == Piece::E
    &&& forall|r2: int| r < r2 < 6 ==> g[r2][c] != Piece::E
}

/// The row where a piece dropped into column `c` settles.
pub open spec fn landing_row(g: Seq<Seq<Piece>>, c: int) -> int {
    choose|r: int| is_landing(g, c, r)
}

/// At most one row of a column is its landing row.
pub proof fn lemma_landing_unique(g: Seq<Seq<Piece>>, c: int, r1: int, r2: int)
    requires
        is_landing(g, c, r1),
        is_landing(g, c, r2),
    ensures
        r1 == r2,
{
    if r1 < r2 {
        assert(g[r2][c] != Piece::E);
    }
    if r2 < r1 {
        assert(g[r1][c] != Piece::E);
    }
}

/// If the top cell of column `c` is empty, some row of the column is
/// the landing row, and `landing_row` picks it.
pub proof fn lemma_landing_exists(g: Seq<Seq<Piece>>, c: int)
    requires
        grid_wf(g),
        0 <= c < 7,
        g[0][c] == Piece::E,
    ensures
        is_landing(g, c, landing_row(g, c)),
{
    let r = max_empty_row(g, c, 5);
    lemma_max_empty_row(g, c, 5);
    assert(is_landing(g, c, r));
    assert(exists|r0: int| is_landing(g, c, r0));
}

/// The largest row index at most `hi` whose cell in column `c` is empty
/// (assuming one exists at or below `hi`).
spec fn max_empty_row(g: Seq<Seq<Piece>>, c: int, hi: int) -> int
    decreases hi,
{
    if hi <= 0 {
        0
    } else if g[hi][c] == Piece::E {
        hi
    } else {
        max_empty_row(g, c, hi - 1)
    }
}

proof fn lemma_max_empty_row(g: Seq<Seq<Piece>>, c: int, hi: int)
    requires
        0 <= hi < 6,
        g[0][c] == Piece::E,
    ensures
        ({
            let r = max_empty_row(g, c, hi);
            &&& 0 <= r <= hi
            &&& g[r][c] == Piece::E
            &&& forall|r2: int| r < r2 <= hi ==> g[r2][c] != Piece::E
        }),
    decreases hi,
{
    if hi > 0 && g[hi][c] != Piece::E {
        lemma_max_empty_row(g, c, hi - 1);
    }
}

/// Dropping is column-local and bottom-filling. In a column whose empty
/// cells are exactly the rows from the top down to row `k`, a dropped
/// piece lands at row `k`; afterwards the empty cells of the column are
/// exactly the rows down to `k - 1`, and every other cell of the grid is
/// untouched. So repeated drops into a column fill it from row 5 (the
/// bottom) upward to row 0: the Nth drop into an empty column lands at
/// row `5 - (N - 1)`.
pub proof fn lemma_drop_bottom_filling(g: Seq<Seq<Piece>>, c: int, k: int, p: Piece)
    requires
        grid_wf(g),
        0 <= c < 7,
        0 <= k < 6,
        p != Piece::E,
        forall|r: int| 0 <= r < 6 ==> (#[trigger] g[r][c] == Piece::E <==> r <= k),
    ensures
        landing_row(g, c) == k,
        forall|r: int|
            0 <= r < 6 ==> (#[trigger] grid_set(g, k, c, p)[r][c] == Piece::E <==> r <= k - 1),
        forall|r: int, c2: int|
            0 <= r < 6 && 0 <= c2 < 7 && c2 != c ==> #[trigger] grid_set(g, k, c, p)[r][c2]
                == g[r][c2],
{
    assert(g[0][c] == Piece::E);
    assert(is_landing(g, c, k));
    lemma_landing_exists(g, c);
    lemma_landing_unique(g, c, k, landing_row(g, c));
}

/// Creates the 6x7 board with every cell empty.
pub fn new_board() -> (b: Board)
    ensures
        grid_wf(grid_view(b@)),
        forall|r: int, c: int| 0 <= r < 6 && 0 <= c < 7 ==> grid_view(b@)[r][c] == Piece::E,
{
    let mut rows: Vec<Vec<Piece>> = Vec::new();
    while rows.len() < 6
        invariant
            rows.len() <= 6,
            forall|r: int| 0 <= r < rows.len() ==> (#[trigger] rows@[r])@.len() == 7,
            forall|r: int, c: int|
                0 <= r < rows.len() && 0 <= c < 7 ==> #[trigger] rows@[r]@[c] == Piece::E,
        decreases 6 - rows.len(),
    {
        let mut row: Vec<Piece> = Vec::new();
        while row.len() < 7
            invariant
                row.len() <= 7,
                forall|c: int| 0 <= c < row.len() ==> #[trigger] row@[c] == Piece::E,
            decreases 7 - row.len(),
        {
            row.push(Piece::E);
        }
        rows.push(row);
    }
    rows
}

/// Reads the cell at row `r` of column `c`.
pub fn cell(board: &Board, r: usize, c: usize) -> (p: Piece)
    requires
        grid_wf(grid_view(board@)),
        r < 6,
        c < 7,
    ensures
        p == grid_view(board@)[r as int][c as int],
{
    board[r][c]
}

/// Drops a piece of the given color into a column: the piece settles at
/// the lowest empty cell of the column. If the column is already full
/// (its top cell is occupied), the drop fails and the board is unchanged.
pub fn drop_piece(board: &mut Board, col: usize, piece: Piece) -> (r: Result<(), GameError>)
    requires
        grid_wf(grid_view(old(board)@)),
        col < 7,
        piece != Piece::E,
    ensures
        grid_wf(grid_view(final(board)@)),
        grid_view(old(board)@)[0][col as int] == Piece::E <==> r is Ok,
        r is Ok ==> grid_view(final(board)@) == grid_set(
            grid_view(old(board)@),
            landing_row(grid_view(old(board)@), col as int),
            col as int,
            piece,
        ),
        r is Ok ==> is_landing(
            grid_view(old(board)@),
            col as int,
            landing_row(grid_view(old(board)@), col as int),
        ),
        r is Err ==> final(board)@ == old(board)@,
        r matches Err(e) ==> e.msg@ == "Column is full."@,
{
    let ghost g = grid_view(board@);
    if cell(board, 0, col) == Piece::E {
        let mut r: usize = 5;
        while cell(board, r, col) != Piece::E
            invariant
                grid_wf(g),
                g == grid_view(board@),
                col < 7,
                r < 6,
                g[0][col as int] == Piece::E,
                forall|r2: int| r < r2 < 6 ==> g[r2][col as int] != Piece::E,
            decreases r,
        {
            assert(r != 0);
            r = r - 1;
        }
        assert(is_landing(g, col as int, r as int));
        proof {
            lemma_landing_exists(g, col as int);
            lemma_landing_unique(g, col as int, r as int, landing_row(g, col as int));
        }
        let mut row: Vec<Piece> = Vec::new();
        board.set_and_swap(r, &mut row);
        row.set(col, piece);
        board.set_and_swap(r, &mut row);
        assert(grid_view(board@) =~= grid_set(g, r as int, col as int, piece));
        Ok(())
    } else {
        Err(game_error("Column is full."))
    }
}

} // verus!
