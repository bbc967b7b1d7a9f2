use vstd::prelude::*;

use crate::board::Board;
use crate::board::Piece;
use crate::board::drop_piece;
use crate::board::grid_set;
use crate::board::grid_view;
use crate::board::grid_wf;
use crate::board::landing_row;
use crate::input::parse_spec;
use crate::input::trim_spec;
use crate::input::try_move;
use crate::outcome::check_winner;
use crate::outcome::outcome_spec;

verus! {

/// The player whose turn comes after `p`'s.
pub open spec fn other_player(p: Piece) -> Piece {
    if p == Piece::R {
        Piece::B
    } else {
        Piece::R
    }
}

/// Passes the turn to the other player.
pub fn other(p: Piece) -> (q: Piece)
    ensures
        q == other_player(p),
{
    if p == Piece::R {
        Piece::B
    } else {
        Piece::R
    }
}

/// What one offered line of input did to the game.
pub enum TurnStep {
    /// The line does not name a column: the board is unchanged and the
    /// same player moves again.
    InvalidInput,
    /// The named column is full: the board is unchanged and the same
    /// player moves again.
    ColumnFull,
    /// The piece was placed; carries the outcome of the updated board.
    Moved(Option<Piece>),
}

/// Offers one line of input as the given player's move. An invalid line
/// or a full column rejects the move and leaves the board unchanged;
/// otherwise the player's piece is dropped into the named column and the
/// updated board is checked for an outcome.
pub fn take_turn(board: &mut Board, player: Piece, line: &str) -> (step: TurnStep)
    requires
        grid_wf(grid_view(old(board)@)),
        player != Piece::E,
    ensures
        grid_wf(grid_view(final(board)@)),
        match step {
            TurnStep::InvalidInput => parse_spec(trim_spec(line@)) is None && final(board)@
                == old(board)@,
            TurnStep::ColumnFull => parse_spec(trim_spec(line@)) matches Some(c)
                && grid_view(old(board)@)[0][c as int] != Piece::E && final(board)@
                == old(board)@,
            TurnStep::Moved(w) => parse_spec(trim_spec(line@)) matches Some(c) && grid_view(
                old(board)@,
            )[0][c as int] == Piece::E && grid_view(final(board)@) == grid_set(
                grid_view(old(board)@),
                landing_row(grid_view(old(board)@), c as int),
                c as int,
                player,
            ) && w == outcome_spec(grid_view(final(board)@)),
        },
{
    match try_move(line) {
        Err(_) => TurnStep::InvalidInput,
        Ok(col) => match drop_piece(board, col, player) {
            Err(_) => TurnStep::ColumnFull,
            Ok(()) => TurnStep::Moved(check_winner(board)),
        },
    }
}

/// The lines of input as mathematical text.
pub open spec fn lines_view(lines: Seq<String>) -> Seq<Seq<char>> {
    Seq::new(lines.len(), |i: int| lines[i]@)
}

/// The game a sequence of input lines plays out from a grid with the
/// given player to move: each line is offered in turn, a rejected line
/// costs no turn, and an accepted one drops the player's piece and
/// passes the turn. The result is the final grid, and the outcome once
/// one is reached; `None` when the lines run out first.
pub open spec fn play_spec(g: Seq<Seq<Piece>>, player: Piece, lines: Seq<Seq<char>>) -> (
    Seq<Seq<Piece>>,
    Option<Piece>,
)
    decreases lines.len(),
{
    if outcome_spec(g) is Some {
        (g, outcome_spec(g))
    } else if lines.len() == 0 {
        (g, None)
    } else {
        match parse_spec(trim_spec(lines[0])) {
            None => play_spec(g, player, lines.drop_first()),
            Some(c) => if g[0][c as int] != Piece::E {
                play_spec(g, player, lines.drop_first())
            } else {
                play_spec(
                    grid_set(g, landing_row(g, c as int), c as int, player),
                    other_player(player),
                    lines.drop_first(),
                )
            },
        }
    }
}

/// Runs the game over a scripted sequence of input lines, red moving
/// first, and returns the outcome: the winner's piece, `Piece::E` for a
/// draw, or `None` when the lines run out before the game ends.
pub fn run_game(board: &mut Board, lines: &Vec<String>) -> (w: Option<Piece>)
    requires
        grid_wf(grid_view(old(board)@)),
    ensures
        grid_wf(grid_view(final(board)@)),
        (grid_view(final(board)@), w) == play_spec(
            grid_view(old(board)@),
            Piece::R,
            lines_view(lines@),
        ),
{
    let ghost g0 = grid_view(board@);
    let ghost script = lines_view(lines@);
    let mut player: Piece = Piece::R;
    let mut i: usize = 0;
    assert(script.subrange(0, script.len() as int) =~= script);
    while i < lines.len()
        invariant
            grid_wf(grid_view(board@)),
            player != Piece::E,
            i <= lines.len(),
            script == lines_view(lines@),
            g0 == grid_view(old(board)@),
            play_spec(g0, Piece::R, script) == play_spec(
                grid_view(board@),
                player,
                script.subrange(i as int, script.len() as int),
            ),
        decreases lines.len() - i,
    {
        let ghost rest = script.subrange(i as int, script.len() as int);
        match check_winner(board) {
            Some(p) => {
                return Some(p);
            },
            None => {},
        }
        assert(rest.drop_first() =~= script.subrange(i + 1, script.len() as int));
        let step = take_turn(board, player, lines[i].as_str());
        match step {
            TurnStep::Moved(_) => {
                player = other(player);
            },
            _ => {},
        }
        i += 1;
    }
    assert(script.subrange(i as int, script.len() as int) =~= Seq::<Seq<char>>::empty());
    check_winner(board)
}

} // verus!
