//! Piece kinds, colors and the sprite catalog.
//!
//! Each of the twelve sprites (six kinds, two colors) is a fixed 16x16
//! mask drawn procedurally; a mask cell is either fully opaque piece color
//! or fully transparent. When a board tile is not 16 pixels wide the sprite
//! is resampled to the tile size with nearest-neighbor lookup.

use vstd::prelude::*;
use crate::color::Rgba;

verus! {

#[derive(Clone, Copy, PartialEq, Eq, Structural, Debug)]
pub enum PieceType {
    Pawn,
    Rook,
    Knight,
    Bishop,
    Queen,
    King,
}

/// A chess piece: a kind and a color flag (`true` is white).
#[derive(Clone, Copy, PartialEq, Eq, Structural, Debug)]
pub struct Piece {
    pub piece_type: PieceType,
    pub color: bool,
}

/// Whether the native 16x16 sprite of `pt` is opaque at cell `(u, v)`.
pub open spec fn spec_sprite_on(pt: PieceType, u: int, v: int) -> bool {
    if !(0 <= u < 16 && 0 <= v < 16) {
        false
    } else {
        match pt {
            PieceType::Pawn => (6 <= u < 10 && 2 <= v < 6) || (7 <= u < 9 && 6 <= v < 11) || (4
                <= u < 12 && 11 <= v < 14),
            PieceType::Rook => (2 <= v < 5 && ((3 <= u < 5) || (7 <= u < 9) || (11 <= u < 13)))
                || (4 <= u < 12 && 5 <= v < 11) || (3 <= u < 13 && 11 <= v < 14),
            PieceType::Knight => (5 <= u < 13 && 2 <= v < 6) || (7 <= u < 13 && 6 <= v < 10) || (3
                <= u < 13 && 10 <= v < 14),
            PieceType::Bishop => ((if u < 8 { 8 - u } else { u - 8 }) + (if v < 7 { 7 - v } else {
                v - 7
            }) <= 4) || (4 <= u < 12 && 12 <= v < 14),
            PieceType::Queen => (2 <= v < 6 && 2 <= u < 14 && u % 4 < 2) || (3 <= u < 13 && 6 <= v
                < 12) || (2 <= u < 14 && 12 <= v < 14),
            PieceType::King => (7 <= u < 9 && 1 <= v < 6) || (5 <= u < 11 && 2 <= v < 4) || (4 <= u
                < 12 && 6 <= v < 12) || (3 <= u < 13 && 12 <= v < 14),
        }
    }
}

pub fn sprite_on(pt: PieceType, u: i64, v: i64) -> (r: bool)
    ensures
        r == spec_sprite_on(pt, u as int, v as int),
{
    if !(0 <= u && u < 16 && 0 <= v && v < 16) {
        false
    } else {
        match pt {
            PieceType::Pawn => (6 <= u && u < 10 && 2 <= v && v < 6) || (7 <= u && u < 9 && 6 <= v
                && v < 11) || (4 <= u && u < 12 && 11 <= v && v < 14),
            PieceType::Rook => (2 <= v && v < 5 && ((3 <= u && u < 5) || (7 <= u && u < 9) || (11
                <= u && u < 13))) || (4 <= u && u < 12 && 5 <= v && v < 11) || (3 <= u && u < 13
                && 11 <= v && v < 14),
            PieceType::Knight => (5 <= u && u < 13 && 2 <= v && v < 6) || (7 <= u && u < 13 && 6
                <= v && v < 10) || (3 <= u && u < 13 && 10 <= v && v < 14),
            PieceType::Bishop => ((if u < 8 { 8 - u } else { u - 8 }) + (if v < 7 { 7 - v } else {
                v - 7
            }) <= 4) || (4 <= u && u < 12 && 12 <= v && v < 14),
            PieceType::Queen => (2 <= v && v < 6 && 2 <= u && u < 14 && u % 4 < 2) || (3 <= u && u
                < 13 && 6 <= v && v < 12) || (2 <= u && u < 14 && 12 <= v && v < 14),
            PieceType::King => (7 <= u && u < 9 && 1 <= v && v < 6) || (5 <= u && u < 11 && 2 <= v
                && v < 4) || (4 <= u && u < 12 && 6 <= v && v < 12) || (3 <= u && u < 13 && 12 <= v
                && v < 14),
        }
    }
}

/// The fill color of a sprite: near-white for white pieces, near-black for
/// black ones, always fully opaque.
pub open spec fn spec_piece_rgba(color: bool) -> Rgba {
    if color {
        Rgba { r: 224, g: 224, b: 224, a: 255 }
    } else {
        Rgba { r: 32, g: 32, b: 32, a: 255 }
    }
}

pub fn piece_rgba(color: bool) -> (c: Rgba)
    ensures
        c == spec_piece_rgba(color),
{
    if color {
        Rgba { r: 224, g: 224, b: 224, a: 255 }
    } else {
        Rgba { r: 32, g: 32, b: 32, a: 255 }
    }
}

/// The sprite of `p`, resampled to a `t` by `t` tile, at tile offset
/// `(u, v)`: the piece color where the nearest native cell is opaque,
/// nothing where it is transparent.
pub open spec fn spec_sprite_pixel(p: Piece, t: nat, u: int, v: int) -> Option<Rgba> {
    if spec_sprite_on(p.piece_type, u * 16 / (t as int), v * 16 / (t as int)) {
        Some(spec_piece_rgba(p.color))
    } else {
        None
    }
}

pub fn sprite_pixel(p: Piece, t: u32, u: i64, v: i64) -> (r: Option<Rgba>)
    requires
        1 <= t,
        0 <= u,
        0 <= v,
        u * 16 <= i64::MAX,
        v * 16 <= i64::MAX,
    ensures
        r == spec_sprite_pixel(p, t as nat, u as int, v as int),
{
    if sprite_on(p.piece_type, u * 16 / (t as i64), v * 16 / (t as i64)) {
        Some(piece_rgba(p.color))
    } else {
        None
    }
}

impl Piece {
    /// The sprite raster for this piece at its native resolution: a 16x16
    /// RGBA buffer, row-major, fully opaque piece color on the mask and
    /// fully transparent elsewhere.
    pub fn image(&self) -> (img: Vec<u8>)
        ensures
            img@.len() == 1024,
            forall|u: int, v: int|
                #![trigger spec_sprite_on(self.piece_type, u, v)]
                0 <= u < 16 && 0 <= v < 16 ==> {
                    let c = if spec_sprite_on(self.piece_type, u, v) {
                        spec_piece_rgba(self.color)
                    } else {
                        Rgba { r: 0, g: 0, b: 0, a: 0 }
                    };
                    img@[4 * (v * 16 + u)] == c.r && img@[4 * (v * 16 + u) + 1] == c.g && img@[4 * (
                    v * 16 + u) + 2] == c.b && img@[4 * (v * 16 + u) + 3] == c.a
                },
    {
        let mut img: Vec<u8> = Vec::new();
        let mut v: i64 = 0;
        while v < 16
            invariant
                0 <= v <= 16,
                img@.len() == 64 * v,
                forall|uu: int, vv: int|
                    #![trigger spec_sprite_on(self.piece_type, uu, vv)]
                    0 <= uu < 16 && 0 <= vv < v ==> {
                        let c = if spec_sprite_on(self.piece_type, uu, vv) {
                            spec_piece_rgba(self.color)
                        } else {
                            Rgba { r: 0, g: 0, b: 0, a: 0 }
                        };
                        img@[4 * (vv * 16 + uu)] == c.r && img@[4 * (vv * 16 + uu) + 1] == c.g
                            && img@[4 * (vv * 16 + uu) + 2] == c.b && img@[4 * (vv * 16 + uu) + 3]
                            == c.a
                    },
            decreases 16 - v,
        {
            let mut u: i64 = 0;
            while u < 16
                invariant
                    0 <= v < 16,
                    0 <= u <= 16,
                    img@.len() == 64 * v + 4 * u,
                    forall|uu: int, vv: int|
                        #![trigger spec_sprite_on(self.piece_type, uu, vv)]
                        0 <= uu < 16 && (0 <= vv < v || (vv == v && uu < u)) ==> {
                            let c = if spec_sprite_on(self.piece_type, uu, vv) {
                                spec_piece_rgba(self.color)
                            } else {
                                Rgba { r: 0, g: 0, b: 0, a: 0 }
                            };
                            img@[4 * (vv * 16 + uu)] == c.r && img@[4 * (vv * 16 + uu) + 1] == c.g
                                && img@[4 * (vv * 16 + uu) + 2] == c.b && img@[4 * (vv * 16 + uu)
                                + 3] == c.a
                        },
                decreases 16 - u,
            {
                let c = if sprite_on(self.piece_type, u, v) {
                    piece_rgba(self.color)
                } else {
                    Rgba { r: 0, g: 0, b: 0, a: 0 }
                };
                let ghost before = img@;
                img.push(c.r);
                img.push(c.g);
                img.push(c.b);
                img.push(c.a);
                proof {
                    assert(4 * (v * 16 + u) == before.len());
                    assert(img@[4 * (v * 16 + u)] == c.r);
                    assert(img@[4 * (v * 16 + u) + 1] == c.g);
                    assert(img@[4 * (v * 16 + u) + 2] == c.b);
                    assert(img@[4 * (v * 16 + u) + 3] == c.a);
                    assert(forall|k: int| 0 <= k < before.len() ==> img@[k] == before[k]);
                }
                u = u + 1;
            }
            v = v + 1;
        }
        img
    }
}

/// The piece the standard starting position puts on square index `i`
/// (`i == rank * 8 + file`): back ranks on rows 0 and 7, pawns on rows 1
/// and 6, black on rows 0 and 1, white on rows 6 and 7.
pub open spec fn spec_standard_slot(i: int) -> Option<Piece> {
    let x = i % 8;
    let y = i / 8;
    if y == 1 {
        Some(Piece { piece_type: PieceType::Pawn, color: false })
    } else if y == 6 {
        Some(Piece { piece_type: PieceType::Pawn, color: true })
    } else if y == 0 || y == 7 {
        let color = y == 7;
        if x == 0 || x == 7 {
            Some(Piece { piece_type: PieceType::Rook, color })
        } else if x == 1 || x == 6 {
            Some(Piece { piece_type: PieceType::Knight, color })
        } else if x == 2 || x == 5 {
            Some(Piece { piece_type: PieceType::Bishop, color })
        } else if x == 3 {
            Some(Piece { piece_type: PieceType::Queen, color })
        } else {
            Some(Piece { piece_type: PieceType::King, color })
        }
    } else {
        None
    }
}

/// How many of the first `n` slots of `s` hold a piece of kind `pt`.
pub open spec fn spec_count_kind(s: Seq<Option<Piece>>, pt: PieceType, n: int) -> int
    decreases n,
{
    if n <= 0 {
        0
    } else {
        spec_count_kind(s, pt, n - 1) + (match s[n - 1] {
            Some(p) => if p.piece_type == pt {
                1int
            } else {
                0int
            },
            None => 0int,
        })
    }
}

/// How many of the first `n` slots of `s` hold any piece.
pub open spec fn spec_count_pieces(s: Seq<Option<Piece>>, n: int) -> int
    decreases n,
{
    if n <= 0 {
        0
    } else {
        spec_count_pieces(s, n - 1) + (if s[n - 1] is Some {
            1int
        } else {
            0int
        })
    }
}

/// `spec_count_kind` over the standard placement itself.
pub open spec fn spec_std_count_kind(pt: PieceType, n: int) -> int
    decreases n,
{
    if n <= 0 {
        0
    } else {
        spec_std_count_kind(pt, n - 1) + (match spec_standard_slot(n - 1) {
            Some(p) => if p.piece_type == pt {
                1int
            } else {
                0int
            },
            None => 0int,
        })
    }
}

/// `spec_count_pieces` over the standard placement itself.
pub open spec fn spec_std_count_pieces(n: int) -> int
    decreases n,
{
    if n <= 0 {
        0
    } else {
        spec_std_count_pieces(n - 1) + (if spec_standard_slot(n - 1) is Some {
            1int
        } else {
            0int
        })
    }
}

proof fn lemma_count_transfer(s: Seq<Option<Piece>>, pt: PieceType, n: int)
    requires
        0 <= n <= 64,
        forall|i: int| 0 <= i < 64 ==> s[i] == spec_standard_slot(i),
    ensures
        spec_count_kind(s, pt, n) == spec_std_count_kind(pt, n),
        spec_count_pieces(s, n) == spec_std_count_pieces(n),
    decreases n,
{
    if n > 0 {
        lemma_count_transfer(s, pt, n - 1);
    }
}

proof fn proof_std_counts()
    ensures
        spec_std_count_pieces(64) == 32,
        spec_std_count_kind(PieceType::Pawn, 64) == 16,
        spec_std_count_kind(PieceType::Rook, 64) == 4,
        spec_std_count_kind(PieceType::Knight, 64) == 4,
        spec_std_count_kind(PieceType::Bishop, 64) == 4,
        spec_std_count_kind(PieceType::Queen, 64) == 2,
        spec_std_count_kind(PieceType::King, 64) == 2,
{
    reveal_with_fuel(spec_std_count_pieces, 65);
    reveal_with_fuel(spec_std_count_kind, 65);
    assert(spec_std_count_pieces(64) == 32);
    assert(spec_std_count_kind(PieceType::Pawn, 64) == 16);
    assert(spec_std_count_kind(PieceType::Rook, 64) == 4);
    assert(spec_std_count_kind(PieceType::Knight, 64) == 4);
    assert(spec_std_count_kind(PieceType::Bishop, 64) == 4);
    assert(spec_std_count_kind(PieceType::Queen, 64) == 2);
    assert(spec_std_count_kind(PieceType::King, 64) == 2);
}

/// Law: the standard starting placement holds exactly 32 pieces — 16
/// pawns, 4 rooks, 4 knights, 4 bishops, 2 queens and 2 kings — and a
/// piece on it is white exactly on the two ranks nearest white's side.
pub proof fn lemma_standard_placement_counts(s: Seq<Option<Piece>>)
    requires
        s.len() == 64,
        forall|i: int| 0 <= i < 64 ==> s[i] == spec_standard_slot(i),
    ensures
        spec_count_pieces(s, 64) == 32,
        spec_count_kind(s, PieceType::Pawn, 64) == 16,
        spec_count_kind(s, PieceType::Rook, 64) == 4,
        spec_count_kind(s, PieceType::Knight, 64) == 4,
        spec_count_kind(s, PieceType::Bishop, 64) == 4,
        spec_count_kind(s, PieceType::Queen, 64) == 2,
        spec_count_kind(s, PieceType::King, 64) == 2,
        forall|i: int|
            0 <= i < 64 ==> match #[trigger] s[i] {
                Some(p) => p.color == (i / 8 == 6 || i / 8 == 7),
                None => true,
            },
{
    lemma_count_transfer(s, PieceType::Pawn, 64);
    lemma_count_transfer(s, PieceType::Rook, 64);
    lemma_count_transfer(s, PieceType::Knight, 64);
    lemma_count_transfer(s, PieceType::Bishop, 64);
    lemma_count_transfer(s, PieceType::Queen, 64);
    lemma_count_transfer(s, PieceType::King, 64);
    proof_std_counts();
    assert forall|i: int| 0 <= i < 64 implies match #[trigger] s[i] {
        Some(p) => p.color == (i / 8 == 6 || i / 8 == 7),
        None => true,
    } by {
        assert(s[i] == spec_standard_slot(i));
    }
}

pub fn standard_slot(i: usize) -> (r: Option<Piece>)
    requires
        i < 64,
    ensures
        r == spec_standard_slot(i as int),
{
    let x = i % 8;
    let y = i / 8;
    if y == 1 {
        Some(Piece { piece_type: PieceType::Pawn, color: false })
    } else if y == 6 {
        Some(Piece { piece_type: PieceType::Pawn, color: true })
    } else if y == 0 || y == 7 {
        let color = y == 7;
        if x == 0 || x == 7 {
            Some(Piece { piece_type: PieceType::Rook, color })
        } else if x == 1 || x == 6 {
            Some(Piece { piece_type: PieceType::Knight, color })
        } else if x == 2 || x == 5 {
            Some(Piece { piece_type: PieceType::Bishop, color })
        } else if x == 3 {
            Some(Piece { piece_type: PieceType::Queen, color })
        } else {
            Some(Piece { piece_type: PieceType::King, color })
        }
    } else {
        None
    }
}

} // verus!
