//! Where each character sits on the sprite font: ten glyphs to a row.
use vstd::prelude::*;

verus! {

/// The (column, row) of `ch` on a font whose run of glyphs starting at
/// `base` begins at the start of row `starting_row`.
pub open spec fn glyph_at(ch: char, base: char, starting_row: int) -> (int, int) {
    let offset = ch as int - base as int;
    (offset % 10, offset / 10 + starting_row)
}

/// The (column, row) of a character on the font: digits from row 0,
/// lower-case letters from row 1, upper-case letters from row 4, a few
/// punctuation marks at fixed places, and a blank for anything else.
pub open spec fn char_tile_spec(ch: char) -> (int, int) {
    if '0' <= ch <= '9' {
        glyph_at(ch, '0', 0)
    } else if 'a' <= ch <= 'z' {
        glyph_at(ch, 'a', 1)
    } else if 'A' <= ch <= 'Z' {
        glyph_at(ch, 'A', 4)
    } else if ch == ':' {
        (6, 3)
    } else if ch == '-' {
        (7, 3)
    } else if ch == '?' {
        (8, 3)
    } else if ch == '!' {
        (9, 3)
    } else if ch == '.' {
        (6, 6)
    } else if ch == ',' {
        (7, 6)
    } else if ch == ' ' {
        (8, 6)
    } else {
        (9, 6)
    }
}

/// The (column, row) of a character on the font.
pub fn char_tile(ch: char) -> (r: (i32, i32))
    ensures
        (r.0 as int, r.1 as int) == char_tile_spec(ch),
{
    if '0' <= ch && ch <= '9' {
        position(ch, '0', 0)
    } else if 'a' <= ch && ch <= 'z' {
        position(ch, 'a', 1)
    } else if 'A' <= ch && ch <= 'Z' {
        position(ch, 'A', 4)
    } else if ch == ':' {
        (6, 3)
    } else if ch == '-' {
        (7, 3)
    } else if ch == '?' {
        (8, 3)
    } else if ch == '!' {
        (9, 3)
    } else if ch == '.' {
        (6, 6)
    } else if ch == ',' {
        (7, 6)
    } else if ch == ' ' {
        (8, 6)
    } else {
        (9, 6)
    }
}

/// The (column, row) of `ch` within a run of glyphs that starts at `base`
/// at the start of row `starting_row`.
pub fn position(ch: char, base: char, starting_row: i32) -> (r: (i32, i32))
    requires
        base <= ch,
        (ch as int - base as int) / 10 + starting_row <= i32::MAX,
    ensures
        (r.0 as int, r.1 as int) == glyph_at(ch, base, starting_row as int),
{
    let offset = ch as i32 - base as i32;
    (offset % 10, (offset / 10) + starting_row)
}

/// Law: digits take the first row in order, and every letter has its own
/// cell: the lower-case letters fill rows 1 to 3 and the capitals rows 4 to 6.
pub proof fn law_glyphs(ch: char, other: char)
    ensures
        '0' <= ch <= '9' ==> char_tile_spec(ch) == (ch as int - '0' as int, 0int),
        ('a' <= ch <= 'z' && 'a' <= other <= 'z' || 'A' <= ch <= 'Z' && 'A' <= other <= 'Z') && ch != other
            ==> char_tile_spec(ch) != char_tile_spec(other),
        'a' <= ch <= 'z' ==> 1 <= char_tile_spec(ch).1 <= 3 && 0 <= char_tile_spec(ch).0 < 10,
        'A' <= ch <= 'Z' ==> 4 <= char_tile_spec(ch).1 <= 6 && 0 <= char_tile_spec(ch).0 < 10,
{
}

} // verus!
