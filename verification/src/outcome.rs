use vstd::prelude::*;

use crate::board::Board;
use crate::board::Piece;
use crate::board::cell;
use crate::board::grid_view;
use crate::board::grid_wf;

verus! {

/// Scan position (r2, c2) is visited before (r, c) when a scan walks the
/// grid row by row and left to right within a row.
pub open spec fn scan_before(r2: int, c2: int, r: int, c: int) -> bool {
    r2 < r || (r2 == r && c2 < c)
}

/// Four equal, non-empty cells starting at (r, c) and stepping by
/// (dr, dc): a run of four in one of the four orientations.
pub open spec fn win_at(g: Seq<Seq<Piece>>, dr: int, dc: int, r: int, c: int) -> bool {
    &&& 0 <= r < 6 && 0 <= c < 7
    &&& 0 <= r + 3 * dr < 6 && 0 <= c + 3 * dc < 7
    &&& g[r][c] != Piece::E
    &&& g[r + dr][c + dc] == g[r][c]
    &&& g[r + 2 * dr][c + 2 * dc] == g[r][c]
    &&& g[r + 3 * dr][c + 3 * dc] == g[r][c]
}

/// Some run of four exists in the orientation (dr, dc).
pub open spec fn has_win_dir(g: Seq<Seq<Piece>>, dr: int, dc: int) -> bool {
    exists|r: int, c: int| win_at(g, dr, dc, r, c)
}

/// (r, c) starts a run of four in orientation (dr, dc), and no run of
/// the same orientation starts at an earlier scan position.
pub open spec fn first_win_dir(g: Seq<Seq<Piece>>, dr: int, dc: int, r: int, c: int) -> bool {
    &&& win_at(g, dr, dc, r, c)
    &&& forall|r2: int, c2: int|
        scan_before(r2, c2, r, c) ==> !#[trigger] win_at(g, dr, dc, r2, c2)
}

/// The color of the first run of four found by a row-major scan in
/// orientation (dr, dc).
pub open spec fn win_piece(g: Seq<Seq<Piece>>, dr: int, dc: int) -> Piece {
    let (r, c) = choose|r: int, c: int| first_win_dir(g, dr, dc, r, c);
    g[r][c]
}

/// Some run of four exists in some orientation.
pub open spec fn any_win(g: Seq<Seq<Piece>>) -> bool {
    ||| has_win_dir(g, 0, 1)
    ||| has_win_dir(g, 1, 0)
    ||| has_win_dir(g, 1, 1)
    ||| has_win_dir(g, -1, 1)
}

/// Every cell of the top row is occupied.
pub open spec fn top_full(g: Seq<Seq<Piece>>) -> bool {
    forall|c: int| 0 <= c < 7 ==> #[trigger] g[0][c] != Piece::E
}

/// What the detector reports: the color of the first run of four found,
/// scanning horizontal runs first, then vertical, then down-right
/// diagonals, then up-right diagonals; `Some(Piece::E)` for a draw when
/// no run exists and the top row is full; `None` while the game is
/// still in progress.
pub open spec fn outcome_spec(g: Seq<Seq<Piece>>) -> Option<Piece> {
    if has_win_dir(g, 0, 1) {
        Some(win_piece(g, 0, 1))
    } else if has_win_dir(g, 1, 0) {
        Some(win_piece(g, 1, 0))
    } else if has_win_dir(g, 1, 1) {
        Some(win_piece(g, 1, 1))
    } else if has_win_dir(g, -1, 1) {
        Some(win_piece(g, -1, 1))
    } else if top_full(g) {
        Some(Piece::E)
    } else {
        None
    }
}

/// At most one scan position starts the first run of an orientation.
proof fn lemma_first_win_unique(
    g: Seq<Seq<Piece>>,
    dr: int,
    dc: int,
    r1: int,
    c1: int,
    r2: int,
    c2: int,
)
    requires
        first_win_dir(g, dr, dc, r1, c1),
        first_win_dir(g, dr, dc, r2, c2),
    ensures
        r1 == r2 && c1 == c2,
{
    if scan_before(r1, c1, r2, c2) {
        assert(!win_at(g, dr, dc, r1, c1));
    }
    if scan_before(r2, c2, r1, c1) {
        assert(!win_at(g, dr, dc, r2, c2));
    }
}

/// The first run of orientation (dr, dc) starts at (r, c), so the scan
/// reports the piece there.
proof fn lemma_win_piece_at(g: Seq<Seq<Piece>>, dr: int, dc: int, r: int, c: int)
    requires
        first_win_dir(g, dr, dc, r, c),
    ensures
        has_win_dir(g, dr, dc),
        win_piece(g, dr, dc) == g[r][c],
{
    assert(win_at(g, dr, dc, r, c));
    let (ra, ca) = choose|ra: int, ca: int| first_win_dir(g, dr, dc, ra, ca);
    lemma_first_win_unique(g, dr, dc, r, c, ra, ca);
}

/// Wherever some run of an orientation exists, some scan position
/// starts the first one.
proof fn lemma_first_win_from(g: Seq<Seq<Piece>>, dr: int, dc: int, r: int, c: int)
    requires
        win_at(g, dr, dc, r, c),
    ensures
        exists|ra: int, ca: int| first_win_dir(g, dr, dc, ra, ca),
    decreases 7 * r + c,
{
    if exists|r2: int, c2: int| scan_before(r2, c2, r, c) && #[trigger] win_at(g, dr, dc, r2, c2) {
        let (r2, c2) = choose|r2: int, c2: int|
            scan_before(r2, c2, r, c) && #[trigger] win_at(g, dr, dc, r2, c2);
        lemma_first_win_from(g, dr, dc, r2, c2);
    } else {
        assert(first_win_dir(g, dr, dc, r, c));
    }
}

/// The piece a scan reports is a player's piece, never the empty cell.
proof fn lemma_win_piece_not_empty(g: Seq<Seq<Piece>>, dr: int, dc: int)
    requires
        has_win_dir(g, dr, dc),
    ensures
        win_piece(g, dr, dc) != Piece::E,
{
    let (r, c) = choose|r: int, c: int| win_at(g, dr, dc, r, c);
    lemma_first_win_from(g, dr, dc, r, c);
    let (ra, ca) = choose|ra: int, ca: int| first_win_dir(g, dr, dc, ra, ca);
    assert(win_at(g, dr, dc, ra, ca));
}

/// Scans the rows for a horizontal run of four.
fn scan_horizontal(board: &Board) -> (w: Option<Piece>)
    requires
        grid_wf(grid_view(board@)),
    ensures
        ({
            let g = grid_view(board@);
            match w {
                Some(p) => has_win_dir(g, 0, 1) && p == win_piece(g, 0, 1),
                None => !has_win_dir(g, 0, 1),
            }
        }),
{
    let ghost g = grid_view(board@);
    let mut r: usize = 0;
    while r < 6
        invariant
            grid_wf(g),
            g == grid_view(board@),
            r <= 6,
            forall|r2: int, c2: int| r2 < r ==> !#[trigger] win_at(g, 0, 1, r2, c2),
        decreases 6 - r,
    {
        let mut c: usize = 0;
        while c < 4
            invariant
                grid_wf(g),
                g == grid_view(board@),
                r < 6,
                c <= 4,
                forall|r2: int, c2: int| r2 < r ==> !#[trigger] win_at(g, 0, 1, r2, c2),
                forall|c2: int| c2 < c ==> !#[trigger] win_at(g, 0, 1, r as int, c2),
            decreases 4 - c,
        {
            let p = cell(board, r, c);
            if p != Piece::E && cell(board, r, c + 1) == p && cell(board, r, c + 2) == p
                && cell(board, r, c + 3) == p {
                proof {
                    assert(win_at(g, 0, 1, r as int, c as int));
                    assert(first_win_dir(g, 0, 1, r as int, c as int));
                    lemma_win_piece_at(g, 0, 1, r as int, c as int);
                }
                return Some(p);
            }
            c += 1;
        }
        r += 1;
    }
    None
}

/// Scans the columns for a vertical run of four.
fn scan_vertical(board: &Board) -> (w: Option<Piece>)
    requires
        grid_wf(grid_view(board@)),
    ensures
        ({
            let g = grid_view(board@);
            match w {
                Some(p) => has_win_dir(g, 1, 0) && p == win_piece(g, 1, 0),
                None => !has_win_dir(g, 1, 0),
            }
        }),
{
    let ghost g = grid_view(board@);
    let mut r: usize = 0;
    while r < 3
        invariant
            grid_wf(g),
            g == grid_view(board@),
            r <= 3,
            forall|r2: int, c2: int| r2 < r ==> !#[trigger] win_at(g, 1, 0, r2, c2),
        decreases 3 - r,
    {
        let mut c: usize = 0;
        while c < 7
            invariant
                grid_wf(g),
                g == grid_view(board@),
                r < 3,
                c <= 7,
                forall|r2: int, c2: int| r2 < r ==> !#[trigger] win_at(g, 1, 0, r2, c2),
                forall|c2: int| c2 < c ==> !#[trigger] win_at(g, 1, 0, r as int, c2),
            decreases 7 - c,
        {
            let p = cell(board, r, c);
            if p != Piece::E && cell(board, r + 1, c) == p && cell(board, r + 2, c) == p
                && cell(board, r + 3, c) == p {
                proof {
                    assert(win_at(g, 1, 0, r as int, c as int));
                    assert(first_win_dir(g, 1, 0, r as int, c as int));
                    lemma_win_piece_at(g, 1, 0, r as int, c as int);
                }
                return Some(p);
            }
            c += 1;
        }
        r += 1;
    }
    None
}

/// Scans for a diagonal run of four going down and to the right.
fn scan_diagonal_down(board: &Board) -> (w: Option<Piece>)
    requires
        grid_wf(grid_view(board@)),
    ensures
        ({
            let g = grid_view(board@);
            match w {
                Some(p) => has_win_dir(g, 1, 1) && p == win_piece(g, 1, 1),
                None => !has_win_dir(g, 1, 1),
            }
        }),
{
    let ghost g = grid_view(board@);
    let mut r: usize = 0;
    while r < 3
        invariant
            grid_wf(g),
            g == grid_view(board@),
            r <= 3,
            forall|r2: int, c2: int| r2 < r ==> !#[trigger] win_at(g, 1, 1, r2, c2),
        decreases 3 - r,
    {
        let mut c: usize = 0;
        while c < 4
            invariant
                grid_wf(g),
                g == grid_view(board@),
                r < 3,
                c <= 4,
                forall|r2: int, c2: int| r2 < r ==> !#[trigger] win_at(g, 1, 1, r2, c2),
                forall|c2: int| c2 < c ==> !#[trigger] win_at(g, 1, 1, r as int, c2),
        decreases 4 - c,
        {
            let p = cell(board, r, c);
            if p != Piece::E && cell(board, r + 1, c + 1) == p && cell(board, r + 2, c + 2) == p
                && cell(board, r + 3, c + 3) == p {
                proof {
                    assert(win_at(g, 1, 1, r as int, c as int));
                    assert(first_win_dir(g, 1, 1, r as int, c as int));
                    lemma_win_piece_at(g, 1, 1, r as int, c as int);
                }
                return Some(p);
            }
            c += 1;
        }
        r += 1;
    }
    None
}

/// Scans for a diagonal run of four going up and to the right, starting
/// from the lower three rows.
fn scan_diagonal_up(board: &Board) -> (w: Option<Piece>)
    requires
        grid_wf(grid_view(board@)),
    ensures
        ({
            let g = grid_view(board@);
            match w {
                Some(p) => has_win_dir(g, -1, 1) && p == win_piece(g, -1, 1),
                None => !has_win_dir(g, -1, 1),
            }
        }),
{
    let ghost g = grid_view(board@);
    let mut r: usize = 3;
    while r < 6
        invariant
            grid_wf(g),
            g == grid_view(board@),
            3 <= r <= 6,
            forall|r2: int, c2: int| r2 < r ==> !#[trigger] win_at(g, -1, 1, r2, c2),
        decreases 6 - r,
    {
        let mut c: usize = 0;
        while c < 4
            invariant
                grid_wf(g),
                g == grid_view(board@),
                3 <= r < 6,
                c <= 4,
                forall|r2: int, c2: int| r2 < r ==> !#[trigger] win_at(g, -1, 1, r2, c2),
                forall|c2: int| c2 < c ==> !#[trigger] win_at(g, -1, 1, r as int, c2),
            decreases 4 - c,
        {
            let p = cell(board, r, c);
            if p != Piece::E && cell(board, r - 1, c + 1) == p && cell(board, r - 2, c + 2) == p
                && cell(board, r - 3, c + 3) == p {
                proof {
                    assert(win_at(g, -1, 1, r as int, c as int));
                    assert(first_win_dir(g, -1, 1, r as int, c as int));
                    lemma_win_piece_at(g, -1, 1, r as int, c as int);
                }
                return Some(p);
            }
            c += 1;
        }
        r += 1;
    }
    None
}

/// Reports the outcome of the grid: the winner's piece if a run of four
/// exists, `Some(Piece::E)` for a draw once the top row is full, and
/// `None` while the game is still in progress. The board is not changed.
pub fn check_winner(board: &Board) -> (w: Option<Piece>)
    requires
        grid_wf(grid_view(board@)),
    ensures
        w == outcome_spec(grid_view(board@)),
{
    match scan_horizontal(board) {
        Some(p) => {
            return Some(p);
        },
        None => {},
    }
    match scan_vertical(board) {
        Some(p) => {
            return Some(p);
        },
        None => {},
    }
    match scan_diagonal_down(board) {
        Some(p) => {
            return Some(p);
        },
        None => {},
    }
    match scan_diagonal_up(board) {
        Some(p) => {
            return Some(p);
        },
        None => {},
    }
    let ghost g = grid_view(board@);
    let mut full: bool = true;
    let mut c: usize = 0;
    while c < 7
        invariant
            grid_wf(g),
            g == grid_view(board@),
            c <= 7,
            full <==> (forall|c2: int| 0 <= c2 < c ==> #[trigger] g[0][c2] != Piece::E),
        decreases 7 - c,
    {
        if cell(board, 0, c) == Piece::E {
            full = false;
        }
        c += 1;
    }
    if full {
        Some(Piece::E)
    } else {
        None
    }
}

/// A grid with every cell empty has no run of four and is not a draw:
/// the game is still in progress.
pub proof fn lemma_empty_in_progress(g: Seq<Seq<Piece>>)
    requires
        grid_wf(g),
        forall|r: int, c: int| 0 <= r < 6 && 0 <= c < 7 ==> #[trigger] g[r][c] == Piece::E,
    ensures
        outcome_spec(g) == None::<Piece>,
{
    assert(forall|r: int, c: int| !#[trigger] win_at(g, 0, 1, r, c));
    assert(forall|r: int, c: int| !#[trigger] win_at(g, 1, 0, r, c));
    assert(forall|r: int, c: int| !#[trigger] win_at(g, 1, 1, r, c));
    assert(forall|r: int, c: int| !#[trigger] win_at(g, -1, 1, r, c));
    assert(g[0][0] == Piece::E);
    assert(!top_full(g));
}

/// A fully filled grid without a run of four of either color is a draw,
/// and only such a grid is: the draw check comes after the scan for a
/// winner has found nothing.
pub proof fn lemma_draw(g: Seq<Seq<Piece>>)
    requires
        grid_wf(g),
        forall|r: int, c: int| 0 <= r < 6 && 0 <= c < 7 ==> #[trigger] g[r][c] != Piece::E,
        !any_win(g),
    ensures
        outcome_spec(g) == Some(Piece::E),
{
    assert(top_full(g));
}

/// A draw is reported exactly when no run of four exists anywhere and
/// the top row is full: the draw check triggers only after the scan for
/// a winner has confirmed that no win exists.
pub proof fn lemma_draw_iff_no_win(g: Seq<Seq<Piece>>)
    requires
        grid_wf(g),
    ensures
        outcome_spec(g) == Some(Piece::E) <==> !any_win(g) && top_full(g),
{
    if has_win_dir(g, 0, 1) {
        lemma_win_piece_not_empty(g, 0, 1);
    } else if has_win_dir(g, 1, 0) {
        lemma_win_piece_not_empty(g, 1, 0);
    } else if has_win_dir(g, 1, 1) {
        lemma_win_piece_not_empty(g, 1, 1);
    } else if has_win_dir(g, -1, 1) {
        lemma_win_piece_not_empty(g, -1, 1);
    }
}

} // verus!
