//! Conversions between algebraic square names and numeric coordinates.

use vstd::prelude::*;

verus! {

/// Numeric coordinates for an algebraic square: the file letter becomes
/// its offset from `a`, the rank character drops one.
pub fn chess_to_coord(square: (char, char)) -> (r: (u8, u8))
    requires
        97 <= square.0 as int <= 104,
        1 <= square.1 as int <= 255,
    ensures
        r.0 as int == square.0 as int - 97,
        r.1 as int == square.1 as int - 1,
{
    let (x, y) = square;
    let x = x as u8 - 97;
    let y = y as u8 - 1;
    (x, y)
}

/// The algebraic name of numeric coordinates: the file index becomes a
/// letter from `a`, the rank index gains one.
pub fn coord_to_chess(coord: (u8, u8)) -> (r: (char, u8))
    requires
        coord.0 < 8,
        coord.1 < 8,
    ensures
        r.0 as int == coord.0 as int + 97,
        r.1 as int == coord.1 as int + 1,
{
    let (x, y) = coord;
    let x = (x + 97) as char;
    let y = y + 1;
    (x, y)
}

} // verus!
