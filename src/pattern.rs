use vstd::prelude::*;
use vstd::string::StrSliceExecFns;

verus! {

/// Number of rows of the hidden pattern; rows below it hold no mine.
pub const PATTERN_ROWS: usize = 19;

/// Row `y` of the hidden pattern: `X` marks a mine, a space marks none.
pub open spec fn pattern_row(y: int) -> Seq<char> {
    if y == 0 {
        "                              "@
    } else if y == 1 {
        "                              "@
    } else if y == 2 {
        "  XXXX  X   X   XXXX  X  X    "@
    } else if y == 3 {
        "  X     X   X  X      X X     "@
    } else if y == 4 {
        "  XXX   X   X  X      XX      "@
    } else if y == 5 {
        "  X     X   X  X      X X     "@
    } else if y == 6 {
        "  X      XXX    XXXX  X  X    "@
    } else if y == 7 {
        "                              "@
    } else if y == 8 {
        "  X     X   XXX   X   X       "@
    } else if y == 9 {
        "  X     X  X   X  XX  X       "@
    } else if y == 10 {
        "  X  X  X  XXXXX  X X X       "@
    } else if y == 11 {
        "  X X X X  X   X  X  XX       "@
    } else if y == 12 {
        "   X   X   X   X  X   X       "@
    } else if y == 13 {
        "                              "@
    } else if y == 14 {
        "  XXXX  X   X  X   X   XXX    "@
    } else if y == 15 {
        "  X     X   X  XX  X  X       "@
    } else if y == 16 {
        "  XXX   X   X  X X X  X XXX   "@
    } else if y == 17 {
        "  X     X   X  X  XX  X   X   "@
    } else {
        "  X      XXX   X   X   XXX    "@
    }
}

/// Whether the hidden pattern has a mine at `(x, y)`: the glyph there is
/// `X`; a position past the end of a row, or below the last row, has none.
pub open spec fn pattern_mine(x: int, y: int) -> bool {
    &&& 0 <= y < PATTERN_ROWS
    &&& 0 <= x < pattern_row(y).len()
    &&& pattern_row(y)[x] == 'X'
}

fn row_text(y: usize) -> (r: &'static str)
    requires
        y < PATTERN_ROWS,
    ensures
        r@ == pattern_row(y as int),
{
    match y {
        0 => "                              ",
        1 => "                              ",
        2 => "  XXXX  X   X   XXXX  X  X    ",
        3 => "  X     X   X  X      X X     ",
        4 => "  XXX   X   X  X      XX      ",
        5 => "  X     X   X  X      X X     ",
        6 => "  X      XXX    XXXX  X  X    ",
        7 => "                              ",
        8 => "  X     X   XXX   X   X       ",
        9 => "  X     X  X   X  XX  X       ",
        10 => "  X  X  X  XXXXX  X X X       ",
        11 => "  X X X X  X   X  X  XX       ",
        12 => "   X   X   X   X  X   X       ",
        13 => "                              ",
        14 => "  XXXX  X   X  X   X   XXX    ",
        15 => "  X     X   X  XX  X  X       ",
        16 => "  XXX   X   X  X X X  X XXX   ",
        17 => "  X     X   X  X  XX  X   X   ",
        _ => "  X      XXX   X   X   XXX    ",
    }
}

/// Whether the hidden pattern has a mine at `(x, y)`.
pub fn has_pattern_mine(x: usize, y: usize) -> (r: bool)
    ensures
        r == pattern_mine(x as int, y as int),
{
    if y >= PATTERN_ROWS {
        return false;
    }
    let row = row_text(y);
    if x >= row.unicode_len() {
        return false;
    }
    row.get_char(x) == 'X'
}

} // verus!
