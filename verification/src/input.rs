use vstd::prelude::*;
use vstd::string::StrSliceExecFns;

use crate::board::Move;
use crate::error::GameError;
use crate::error::game_error;

verus! {

/// The whitespace stripped from both ends of a raw input line.
pub open spec fn is_space(c: char) -> bool {
    c == ' ' || c == '\t' || c == '\n' || c == '\r'
}

/// The text with leading and trailing whitespace removed.
pub open spec fn trim_spec(s: Seq<char>) -> Seq<char>
    decreases s.len(),
{
    if s.len() == 0 {
        s
    } else if is_space(s[0]) {
        trim_spec(s.subrange(1, s.len() as int))
    } else if is_space(s[s.len() - 1]) {
        trim_spec(s.subrange(0, s.len() - 1))
    } else {
        s
    }
}

/// Trimming keeps exactly the characters between the first and the last
/// non-space character.
proof fn lemma_trim_subrange(s: Seq<char>, a: int, b: int)
    requires
        0 <= a <= b <= s.len(),
        forall|i: int| 0 <= i < a ==> is_space(#[trigger] s[i]),
        forall|i: int| b <= i < s.len() ==> is_space(#[trigger] s[i]),
        a < b ==> !is_space(s[a]) && !is_space(s[b - 1]),
    ensures
        trim_spec(s) == s.subrange(a, b),
    decreases s.len(),
{
    if s.len() == 0 {
        assert(trim_spec(s) =~= s.subrange(a, b));
    } else if is_space(s[0]) {
        let t = s.subrange(1, s.len() as int);
        if a == b {
            lemma_trim_subrange(t, 0, 0);
            assert(t.subrange(0, 0) =~= s.subrange(a, b));
        } else {
            assert(a >= 1);
            lemma_trim_subrange(t, a - 1, b - 1);
            assert(t.subrange(a - 1, b - 1) =~= s.subrange(a, b));
        }
    } else if is_space(s[s.len() - 1]) {
        let t = s.subrange(0, s.len() - 1);
        if a == b {
            assert(a == 0 || !is_space(s[0]));
            assert(a == 0);
            lemma_trim_subrange(t, 0, 0);
            assert(t.subrange(0, 0) =~= s.subrange(a, b));
        } else {
            assert(b <= s.len() - 1);
            lemma_trim_subrange(t, a, b);
            assert(t.subrange(a, b) =~= s.subrange(a, b));
        }
    } else {
        assert(a == 0);
        assert(b == s.len());
        assert(trim_spec(s) =~= s.subrange(a, b));
    }
}

/// Tests one character for the whitespace that trimming strips.
fn is_space_char(c: char) -> (r: bool)
    ensures
        r == is_space(c),
{
    c == ' ' || c == '\t' || c == '\n' || c == '\r'
}

/// Strips leading and trailing whitespace from a line of input.
pub fn trim(s: &str) -> (r: &str)
    ensures
        r@ == trim_spec(s@),
{
    let len = s.unicode_len();
    let mut start: usize = 0;
    while start < len && is_space_char(s.get_char(start))
        invariant
            start <= len,
            len == s@.len(),
            forall|i: int| 0 <= i < start ==> is_space(#[trigger] s@[i]),
        decreases len - start,
    {
        start += 1;
    }
    let mut end: usize = len;
    while end > start && is_space_char(s.get_char(end - 1))
        invariant
            start <= end <= len,
            len == s@.len(),
            forall|i: int| 0 <= i < start ==> is_space(#[trigger] s@[i]),
            forall|i: int| end <= i < len ==> is_space(#[trigger] s@[i]),
        decreases end,
    {
        end -= 1;
    }
    proof {
        lemma_trim_subrange(s@, start as int, end as int);
    }
    s.substring_char(start, end)
}

/// The column index a single digit selects: '1' through '7' name the
/// seven columns, 0-based.
pub open spec fn col_of_char(c: char) -> Option<Move> {
    if c == '1' {
        Some(0usize)
    } else if c == '2' {
        Some(1usize)
    } else if c == '3' {
        Some(2usize)
    } else if c == '4' {
        Some(3usize)
    } else if c == '5' {
        Some(4usize)
    } else if c == '6' {
        Some(5usize)
    } else if c == '7' {
        Some(6usize)
    } else {
        None
    }
}

/// The column a piece of text selects: exactly the one-character texts
/// "1" through "7" are accepted.
pub open spec fn parse_spec(s: Seq<char>) -> Option<Move> {
    if s.len() == 1 {
        col_of_char(s[0])
    } else {
        None
    }
}

/// Validates and parses an already-trimmed move: a move must be a single
/// digit between 1 and 7, and maps to the 0-based column index. This
/// performs no board-state check; a full column is caught by the drop.
pub fn validate_move(col: &str) -> (r: Result<Move, GameError>)
    ensures
        r matches Ok(m) ==> parse_spec(col@) == Some(m),
        r matches Err(e) ==> parse_spec(col@) is None && e.msg@ == "column must be one of 1-7"@,
{
    if col.unicode_len() != 1 {
        return Err(game_error("column must be one of 1-7"));
    }
    let c = col.get_char(0);
    let parsed: Option<Move> = if c == '1' {
        Some(0)
    } else if c == '2' {
        Some(1)
    } else if c == '3' {
        Some(2)
    } else if c == '4' {
        Some(3)
    } else if c == '5' {
        Some(4)
    } else if c == '6' {
        Some(5)
    } else if c == '7' {
        Some(6)
    } else {
        None
    };
    match parsed {
        Some(m) => Ok(m),
        None => Err(game_error("column must be one of 1-7")),
    }
}

/// Parses a raw line of input into a move: the line is trimmed of
/// surrounding whitespace, then validated as a column digit.
pub fn try_move(line: &str) -> (r: Result<Move, GameError>)
    ensures
        r matches Ok(m) ==> parse_spec(trim_spec(line@)) == Some(m),
        r matches Err(e) ==> parse_spec(trim_spec(line@)) is None && e.msg@
            == "column must be one of 1-7"@,
{
    let trimmed = trim(line);
    validate_move(trimmed)
}

} // verus!
