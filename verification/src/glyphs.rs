//! A fixed 5x7 bitmap font for the sixteen label glyphs the board uses:
//! the file letters 'a' through 'h' and the rank digits '1' through '8'.
//! Each glyph row is five bits wide, most significant bit leftmost.

use vstd::prelude::*;

verus! {

/// The bitmap row `row` (0 at the top, 7 rows) of the glyph for ASCII
/// character `c`; zero for characters outside the label set.
pub open spec fn spec_glyph_row(c: u8, row: int) -> u8 {
    if row == 0 {
        match c {
            49u8 => 4u8,
            50u8 => 14u8,
            51u8 => 30u8,
            52u8 => 2u8,
            53u8 => 31u8,
            54u8 => 6u8,
            55u8 => 31u8,
            56u8 => 14u8,
            97u8 => 0u8,
            98u8 => 16u8,
            99u8 => 0u8,
            100u8 => 1u8,
            101u8 => 0u8,
            102u8 => 6u8,
            103u8 => 0u8,
            104u8 => 16u8,
            _ => 0u8,
        }
    } else if row == 1 {
        match c {
            49u8 => 12u8,
            50u8 => 17u8,
            51u8 => 1u8,
            52u8 => 6u8,
            53u8 => 16u8,
            54u8 => 8u8,
            55u8 => 1u8,
            56u8 => 17u8,
            97u8 => 0u8,
            98u8 => 16u8,
            99u8 => 0u8,
            100u8 => 1u8,
            101u8 => 0u8,
            102u8 => 8u8,
            103u8 => 15u8,
            104u8 => 16u8,
            _ => 0u8,
        }
    } else if row == 2 {
        match c {
            49u8 => 4u8,
            50u8 => 1u8,
            51u8 => 2u8,
            52u8 => 10u8,
            53u8 => 30u8,
            54u8 => 16u8,
            55u8 => 2u8,
            56u8 => 17u8,
            97u8 => 14u8,
            98u8 => 30u8,
            99u8 => 14u8,
            100u8 => 15u8,
            101u8 => 14u8,
            102u8 => 30u8,
            103u8 => 17u8,
            104u8 => 30u8,
            _ => 0u8,
        }
    } else if row == 3 {
        match c {
            49u8 => 4u8,
            50u8 => 2u8,
            51u8 => 6u8,
            52u8 => 18u8,
            53u8 => 1u8,
            54u8 => 30u8,
            55u8 => 4u8,
            56u8 => 14u8,
            97u8 => 1u8,
            98u8 => 17u8,
            99u8 => 16u8,
            100u8 => 17u8,
            101u8 => 17u8,
            102u8 => 8u8,
            103u8 => 17u8,
            104u8 => 17u8,
            _ => 0u8,
        }
    } else if row == 4 {
        match c {
            49u8 => 4u8,
            50u8 => 4u8,
            51u8 => 1u8,
            52u8 => 31u8,
            53u8 => 1u8,
            54u8 => 17u8,
            55u8 => 8u8,
            56u8 => 17u8,
            97u8 => 15u8,
            98u8 => 17u8,
            99u8 => 16u8,
            100u8 => 17u8,
            101u8 => 31u8,
            102u8 => 8u8,
            103u8 => 15u8,
            104u8 => 17u8,
            _ => 0u8,
        }
    } else if row == 5 {
        match c {
            49u8 => 4u8,
            50u8 => 8u8,
            51u8 => 17u8,
            52u8 => 2u8,
            53u8 => 17u8,
            54u8 => 17u8,
            55u8 => 8u8,
            56u8 => 17u8,
            97u8 => 17u8,
            98u8 => 17u8,
            99u8 => 17u8,
            100u8 => 17u8,
            101u8 => 16u8,
            102u8 => 8u8,
            103u8 => 1u8,
            104u8 => 17u8,
            _ => 0u8,
        }
    } else if row == 6 {
        match c {
            49u8 => 14u8,
            50u8 => 31u8,
            51u8 => 14u8,
            52u8 => 2u8,
            53u8 => 14u8,
            54u8 => 14u8,
            55u8 => 8u8,
            56u8 => 14u8,
            97u8 => 15u8,
            98u8 => 30u8,
            99u8 => 14u8,
            100u8 => 15u8,
            101u8 => 14u8,
            102u8 => 8u8,
            103u8 => 14u8,
            104u8 => 17u8,
            _ => 0u8,
        }
    } else {
        0u8
    }
}

/// The weight of bitmap column `col`, leftmost first.
pub open spec fn spec_bit_place(col: int) -> u8 {
    if col == 0 {
        16u8
    } else if col == 1 {
        8u8
    } else if col == 2 {
        4u8
    } else if col == 3 {
        2u8
    } else {
        1u8
    }
}

/// Whether the glyph for `c` is inked at bitmap cell `(col, row)`.
pub open spec fn spec_glyph_on(c: u8, col: int, row: int) -> bool {
    0 <= col < 5 && 0 <= row < 7 && (spec_glyph_row(c, row) / spec_bit_place(col)) % 2 == 1
}

fn glyph_row(c: u8, row: i64) -> (r: u8)
    ensures
        r == spec_glyph_row(c, row as int),
{
    if row == 0 {
        match c {
            49u8 => 4u8,
            50u8 => 14u8,
            51u8 => 30u8,
            52u8 => 2u8,
            53u8 => 31u8,
            54u8 => 6u8,
            55u8 => 31u8,
            56u8 => 14u8,
            97u8 => 0u8,
            98u8 => 16u8,
            99u8 => 0u8,
            100u8 => 1u8,
            101u8 => 0u8,
            102u8 => 6u8,
            103u8 => 0u8,
            104u8 => 16u8,
            _ => 0u8,
        }
    } else if row == 1 {
        match c {
            49u8 => 12u8,
            50u8 => 17u8,
            51u8 => 1u8,
            52u8 => 6u8,
            53u8 => 16u8,
            54u8 => 8u8,
            55u8 => 1u8,
            56u8 => 17u8,
            97u8 => 0u8,
            98u8 => 16u8,
            99u8 => 0u8,
            100u8 => 1u8,
            101u8 => 0u8,
            102u8 => 8u8,
            103u8 => 15u8,
            104u8 => 16u8,
            _ => 0u8,
        }
    } else if row == 2 {
        match c {
            49u8 => 4u8,
            50u8 => 1u8,
            51u8 => 2u8,
            52u8 => 10u8,
            53u8 => 30u8,
            54u8 => 16u8,
            55u8 => 2u8,
            56u8 => 17u8,
            97u8 => 14u8,
            98u8 => 30u8,
            99u8 => 14u8,
            100u8 => 15u8,
            101u8 => 14u8,
            102u8 => 30u8,
            103u8 => 17u8,
            104u8 => 30u8,
            _ => 0u8,
        }
    } else if row == 3 {
        match c {
            49u8 => 4u8,
            50u8 => 2u8,
            51u8 => 6u8,
            52u8 => 18u8,
            53u8 => 1u8,
            54u8 => 30u8,
            55u8 => 4u8,
            56u8 => 14u8,
            97u8 => 1u8,
            98u8 => 17u8,
            99u8 => 16u8,
            100u8 => 17u8,
            101u8 => 17u8,
            102u8 => 8u8,
            103u8 => 17u8,
            104u8 => 17u8,
            _ => 0u8,
        }
    } else if row == 4 {
        match c {
            49u8 => 4u8,
            50u8 => 4u8,
            51u8 => 1u8,
            52u8 => 31u8,
            53u8 => 1u8,
            54u8 => 17u8,
            55u8 => 8u8,
            56u8 => 17u8,
            97u8 => 15u8,
            98u8 => 17u8,
            99u8 => 16u8,
            100u8 => 17u8,
            101u8 => 31u8,
            102u8 => 8u8,
            103u8 => 15u8,
            104u8 => 17u8,
            _ => 0u8,
        }
    } else if row == 5 {
        match c {
            49u8 => 4u8,
            50u8 => 8u8,
            51u8 => 17u8,
            52u8 => 2u8,
            53u8 => 17u8,
            54u8 => 17u8,
            55u8 => 8u8,
            56u8 => 17u8,
            97u8 => 17u8,
            98u8 => 17u8,
            99u8 => 17u8,
            100u8 => 17u8,
            101u8 => 16u8,
            102u8 => 8u8,
            103u8 => 1u8,
            104u8 => 17u8,
            _ => 0u8,
        }
    } else if row == 6 {
        match c {
            49u8 => 14u8,
            50u8 => 31u8,
            51u8 => 14u8,
            52u8 => 2u8,
            53u8 => 14u8,
            54u8 => 14u8,
            55u8 => 8u8,
            56u8 => 14u8,
            97u8 => 15u8,
            98u8 => 30u8,
            99u8 => 14u8,
            100u8 => 15u8,
            101u8 => 14u8,
            102u8 => 8u8,
            103u8 => 14u8,
            104u8 => 17u8,
            _ => 0u8,
        }
    } else {
        0u8
    }
}

/// Whether the glyph for `c` is inked at bitmap cell `(col, row)`.
pub fn glyph_on(c: u8, col: i64, row: i64) -> (r: bool)
    ensures
        r == spec_glyph_on(c, col as int, row as int),
{
    if !(0 <= col && col < 5 && 0 <= row && row < 7) {
        return false;
    }
    let place: u8 = if col == 0 {
        16u8
    } else if col == 1 {
        8u8
    } else if col == 2 {
        4u8
    } else if col == 3 {
        2u8
    } else {
        1u8
    };
    (glyph_row(c, row) / place) % 2 == 1
}

} // verus!
