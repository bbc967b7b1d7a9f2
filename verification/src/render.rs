use vstd::prelude::*;
use vstd::string::StringExecFns;

use crate::board::Board;
use crate::board::Piece;
use crate::board::cell;
use crate::board::grid_view;
use crate::board::grid_wf;

verus! {

/// The two characters a cell contributes to its row's line: its left
/// border and a marker for its content.
pub open spec fn cell_text(p: Piece) -> Seq<char> {
    match p {
        Piece::E => "| "@,
        Piece::R => "|R"@,
        Piece::B => "|B"@,
    }
}

/// The text of the first `n` cells of a row.
pub open spec fn row_cells(row: Seq<Piece>, n: int) -> Seq<char>
    decreases n,
{
    if n <= 0 {
        Seq::empty()
    } else {
        row_cells(row, n - 1) + cell_text(row[n - 1])
    }
}

/// One row's line: its seven cells followed by the right border.
pub open spec fn row_text(row: Seq<Piece>) -> Seq<char> {
    row_cells(row, 7) + "|"@
}

/// What follows row `r`: a separator line between rows, and the bottom
/// border with a blank line after the last row.
pub open spec fn row_sep(r: int) -> Seq<char> {
    if r == 5 {
        "\n+-------------+\n\n"@
    } else {
        "\n|-+-+-+-+-+-+-|\n"@
    }
}

/// The lines of the first `n` rows, each with its trailing separator.
pub open spec fn rows_text(g: Seq<Seq<Piece>>, n: int) -> Seq<char>
    decreases n,
{
    if n <= 0 {
        Seq::empty()
    } else {
        rows_text(g, n - 1) + row_text(g[n - 1]) + row_sep(n - 1)
    }
}

/// The header: a blank line's newline, the column numbers 1 through 7,
/// and the top border.
pub open spec fn board_header() -> Seq<char> {
    "\n 1 2 3 4 5 6 7\n+-------------+\n"@
}

/// The full fixed-width depiction of a grid.
pub open spec fn render_spec(g: Seq<Seq<Piece>>) -> Seq<char> {
    board_header() + rows_text(g, 6)
}

/// Renders the grid as text: a header of column numbers, a top border,
/// one line per row with the cells between vertical bars, separator
/// lines between rows, and a bottom border. The grid is not changed.
pub fn render(board: &Board) -> (out: String)
    requires
        grid_wf(grid_view(board@)),
    ensures
        out@ == render_spec(grid_view(board@)),
{
    let ghost g = grid_view(board@);
    let mut out = String::new();
    out.append("\n 1 2 3 4 5 6 7\n+-------------+\n");
    assert(out@ =~= board_header());
    let mut r: usize = 0;
    while r < 6
        invariant
            grid_wf(g),
            g == grid_view(board@),
            r <= 6,
            out@ == board_header() + rows_text(g, r as int),
        decreases 6 - r,
    {
        let ghost prefix = out@;
        let mut c: usize = 0;
        while c < 7
            invariant
                grid_wf(g),
                g == grid_view(board@),
                r < 6,
                c <= 7,
                out@ == prefix + row_cells(g[r as int], c as int),
            decreases 7 - c,
        {
            match cell(board, r, c) {
                Piece::E => out.append("| "),
                Piece::R => out.append("|R"),
                Piece::B => out.append("|B"),
            }
            assert(out@ =~= prefix + row_cells(g[r as int], c + 1));
            c += 1;
        }
        out.append("|");
        assert(out@ =~= prefix + row_text(g[r as int]));
        if r == 5 {
            out.append("\n+-------------+\n\n");
        } else {
            out.append("\n|-+-+-+-+-+-+-|\n");
        }
        assert(out@ =~= board_header() + rows_text(g, r + 1));
        r += 1;
    }
    out
}

/// The depiction of any well-formed grid opens with the header line
/// naming the columns 1 through 7 in order, so reading the digits of
/// that line back always yields 1 through 7.
pub proof fn lemma_render_header(g: Seq<Seq<Piece>>)
    requires
        grid_wf(g),
    ensures
        render_spec(g).len() >= 16,
        render_spec(g).subrange(0, 16) == "\n 1 2 3 4 5 6 7\n"@,
        forall|i: int| 0 <= i < 7 ==> render_spec(g)[2 * i + 2] == "1234567"@[i],
{
    reveal_strlit("\n 1 2 3 4 5 6 7\n+-------------+\n");
    reveal_strlit("\n 1 2 3 4 5 6 7\n");
    reveal_strlit("1234567");
    assert(render_spec(g).subrange(0, 16) =~= "\n 1 2 3 4 5 6 7\n"@);
}

} // verus!
