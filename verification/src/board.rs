//! The board renderer: an 8x8 checkerboard raster, a piece placement, an
//! optional last-move pair, and the render pipeline that decorates a copy
//! of the raster with labels, sprites and highlights and encodes it as PNG.

use vstd::prelude::*;
use vstd::arithmetic::div_mod::lemma_fundamental_div_mod_converse;
use crate::color::{Rgba, Scheme, spec_blend, blend, spec_channel};
use crate::pieces::{Piece, spec_sprite_pixel, sprite_pixel, spec_standard_slot, standard_slot};
use crate::glyphs::{spec_glyph_on, glyph_on};
use crate::png::{spec_png_of, spec_png_decode, png_encode_rgba};

verus! {

/// The largest accepted tile size: it keeps every pixel index and every
/// raster length comfortably inside the machine's integer types.
pub const MAX_TILE_SIZE: u32 = 2048;

/// The errors a caller can see: a pixel buffer whose length does not match
/// the stated dimensions, and a square coordinate outside the board.
#[derive(Clone, Copy, PartialEq, Eq, Structural, Debug)]
pub enum RenderError {
    DimensionMismatch,
    RangeError,
}

/// The board's edge length in pixels for tile size `t`.
pub open spec fn side_len(t: nat) -> int {
    8 * (t as int)
}

/// The byte length of an RGBA raster with `side_len(t)` pixels per edge.
pub open spec fn raster_bytes(t: nat) -> int {
    4 * (side_len(t) * side_len(t))
}

/// The byte index of pixel `(x, y)` in a row-major RGBA raster.
pub open spec fn spec_pix_index(t: nat, x: int, y: int) -> int {
    4 * (y * side_len(t) + x)
}

/// The pixel `(x, y)` of raster `s`.
pub open spec fn spec_pixel_at(s: Seq<u8>, t: nat, x: int, y: int) -> Rgba {
    Rgba {
        r: s[spec_pix_index(t, x, y)],
        g: s[spec_pix_index(t, x, y) + 1],
        b: s[spec_pix_index(t, x, y) + 2],
        a: s[spec_pix_index(t, x, y) + 3],
    }
}

/// The x coordinate of the pixel that byte `k` of a raster belongs to.
pub open spec fn spec_pixel_x(t: nat, k: int) -> int {
    (k / 4) % side_len(t)
}

/// The y coordinate of the pixel that byte `k` of a raster belongs to.
pub open spec fn spec_pixel_y(t: nat, k: int) -> int {
    (k / 4) / side_len(t)
}

/// The checkerboard color of pixel `(x, y)`: `light` where the square's
/// file and rank sum to an even number, `dark` elsewhere.
pub open spec fn spec_checker_pixel(sch: Scheme, t: nat, x: int, y: int) -> Rgba {
    if (x / (t as int) + y / (t as int)) % 2 == 0 {
        sch.light
    } else {
        sch.dark
    }
}

/// The full checkerboard raster for tile size `t`.
pub open spec fn spec_checker_raster(sch: Scheme, t: nat) -> Seq<u8> {
    Seq::new(
        raster_bytes(t) as nat,
        |k: int| spec_channel(spec_checker_pixel(sch, t, spec_pixel_x(t, k), spec_pixel_y(t, k)), k % 4),
    )
}

/// A square coordinate as displayed: unchanged from white's perspective,
/// mirrored from black's.
pub open spec fn spec_mirror(white: bool, c: int) -> int {
    if white {
        c
    } else {
        7 - c
    }
}

/// `a * b <= am * bm` for nonnegative factors below their bounds.
proof fn lemma_mul_le(a: int, b: int, am: int, bm: int)
    requires
        0 <= a <= am,
        0 <= b <= bm,
    ensures
        a * b <= am * bm,
{
    assert(a * b <= am * bm) by (nonlinear_arith)
        requires
            0 <= a <= am,
            0 <= b <= bm,
    ;
}

/// `x / d < n` when `x < n * d`.
proof fn lemma_div_below(x: int, d: int, n: int)
    requires
        0 <= x,
        1 <= d,
        x < n * d,
    ensures
        0 <= x / d < n,
{
    assert(0 <= x / d < n) by (nonlinear_arith)
        requires
            0 <= x,
            1 <= d,
            x < n * d,
    ;
}

/// How byte `k = spec_pix_index(t, x, y) + j` decomposes back into its
/// pixel coordinates and channel.
proof fn lemma_pix_decomp(t: nat, x: int, y: int, j: int)
    requires
        1 <= t,
        0 <= x < side_len(t),
        0 <= y < side_len(t),
        0 <= j < 4,
    ensures
        0 <= spec_pix_index(t, x, y) + j < raster_bytes(t),
        (spec_pix_index(t, x, y) + j) % 4 == j,
        spec_pixel_x(t, spec_pix_index(t, x, y) + j) == x,
        spec_pixel_y(t, spec_pix_index(t, x, y) + j) == y,
{
    let w = side_len(t);
    let q = y * w + x;
    assert(0 <= q && q < w * w) by (nonlinear_arith)
        requires
            0 <= x < w,
            0 <= y < w,
            q == y * w + x,
    ;
    let k = spec_pix_index(t, x, y) + j;
    assert(k == q * 4 + j) by (nonlinear_arith)
        requires
            k == 4 * (y * w + x) + j,
            q == y * w + x,
    ;
    lemma_fundamental_div_mod_converse(k, 4, q, j);
    lemma_fundamental_div_mod_converse(q, w, y, x);
}

/// The board: the persisted raster, the construction parameters, the piece
/// placement (one optional piece per square, row-major), and the optional
/// last-move pair used for highlighting.
pub struct Board {
    board: Vec<u8>,
    tile_size: u32,
    colors: Scheme,
    pieces: Vec<Option<Piece>>,
    last_move: Option<((u32, u32), (u32, u32))>,
}

impl Board {
    pub closed spec fn spec_tile_size(self) -> nat {
        self.tile_size as nat
    }

    pub closed spec fn spec_colors(self) -> Scheme {
        self.colors
    }

    pub closed spec fn spec_raster(self) -> Seq<u8> {
        self.board@
    }

    pub closed spec fn spec_pieces(self) -> Seq<Option<Piece>> {
        self.pieces@
    }

    pub closed spec fn spec_last_move(self) -> Option<((u32, u32), (u32, u32))> {
        self.last_move
    }

    /// The piece standing on square `(x, y)`.
    pub open spec fn spec_piece_at(self, x: int, y: int) -> Option<Piece> {
        self.spec_pieces()[8 * y + x]
    }

    /// The board's structural invariant: a bounded tile size, fully opaque
    /// board colors, one placement slot per square, a raster of exactly the
    /// board's dimensions, and in-range last-move squares.
    pub closed spec fn wf(self) -> bool {
        &&& 1 <= self.tile_size <= MAX_TILE_SIZE
        &&& self.colors.light.spec_opaque()
        &&& self.colors.dark.spec_opaque()
        &&& self.pieces@.len() == 64
        &&& self.board@.len() == raster_bytes(self.tile_size as nat)
        &&& match self.last_move {
            None => true,
            Some((f, to)) => f.0 < 8 && f.1 < 8 && to.0 < 8 && to.1 < 8,
        }
    }

    /// Place `piece` on square `(x, y)`, replacing whatever stood there;
    /// coordinates outside the board are rejected.
    pub fn set_piece(&mut self, x: u32, y: u32, piece: Piece) -> (r: Result<(), RenderError>)
        requires
            old(self).wf(),
        ensures
            final(self).wf(),
            final(self).spec_tile_size() == old(self).spec_tile_size(),
            final(self).spec_colors() == old(self).spec_colors(),
            final(self).spec_raster() == old(self).spec_raster(),
            final(self).spec_last_move() == old(self).spec_last_move(),
            x < 8 && y < 8 ==> r is Ok && final(self).spec_pieces() == old(self).spec_pieces()
                .update(8 * (y as int) + x, Some(piece)),
            !(x < 8 && y < 8) ==> r == Err::<(), RenderError>(RenderError::RangeError) && final(
            self).spec_pieces() == old(self).spec_pieces(),
    {
        if x < 8 && y < 8 {
            let idx: usize = (8 * (y as usize)) + (x as usize);
            self.pieces[idx] = Some(piece);
            Ok(())
        } else {
            Err(RenderError::RangeError)
        }
    }

    /// Take the piece off square `(x, y)`; coordinates outside the board
    /// are rejected.
    pub fn clear_piece(&mut self, x: u32, y: u32) -> (r: Result<(), RenderError>)
        requires
            old(self).wf(),
        ensures
            final(self).wf(),
            final(self).spec_tile_size() == old(self).spec_tile_size(),
            final(self).spec_colors() == old(self).spec_colors(),
            final(self).spec_raster() == old(self).spec_raster(),
            final(self).spec_last_move() == old(self).spec_last_move(),
            x < 8 && y < 8 ==> r is Ok && final(self).spec_pieces() == old(self).spec_pieces()
                .update(8 * (y as int) + x, None::<Piece>),
            !(x < 8 && y < 8) ==> r == Err::<(), RenderError>(RenderError::RangeError) && final(
            self).spec_pieces() == old(self).spec_pieces(),
    {
        if x < 8 && y < 8 {
            let idx: usize = (8 * (y as usize)) + (x as usize);
            self.pieces[idx] = None;
            Ok(())
        } else {
            Err(RenderError::RangeError)
        }
    }

    /// Record the move to highlight; squares outside the board are
    /// rejected.
    pub fn set_last_move(&mut self, from: (u32, u32), to: (u32, u32)) -> (r: Result<
        (),
        RenderError,
    >)
        requires
            old(self).wf(),
        ensures
            final(self).wf(),
            final(self).spec_tile_size() == old(self).spec_tile_size(),
            final(self).spec_colors() == old(self).spec_colors(),
            final(self).spec_raster() == old(self).spec_raster(),
            final(self).spec_pieces() == old(self).spec_pieces(),
            from.0 < 8 && from.1 < 8 && to.0 < 8 && to.1 < 8 ==> r is Ok && final(
            self).spec_last_move() == Some((from, to)),
            !(from.0 < 8 && from.1 < 8 && to.0 < 8 && to.1 < 8) ==> r == Err::<(), RenderError>(
            RenderError::RangeError) && final(self).spec_last_move() == old(self).spec_last_move(),
    {
        if from.0 < 8 && from.1 < 8 && to.0 < 8 && to.1 < 8 {
            self.last_move = Some((from, to));
            Ok(())
        } else {
            Err(RenderError::RangeError)
        }
    }

    /// Forget the recorded move.
    pub fn clear_last_move(&mut self)
        requires
            old(self).wf(),
        ensures
            final(self).wf(),
            final(self).spec_tile_size() == old(self).spec_tile_size(),
            final(self).spec_colors() == old(self).spec_colors(),
            final(self).spec_raster() == old(self).spec_raster(),
            final(self).spec_pieces() == old(self).spec_pieces(),
            final(self).spec_last_move() is None,
    {
        self.last_move = None;
    }

    /// The tile size the board was built with.
    pub fn tile_size(&self) -> (t: u32)
        ensures
            t == self.spec_tile_size(),
    {
        self.tile_size
    }

    /// The persisted raster, as it stands between renders.
    pub fn raster(&self) -> (r: &Vec<u8>)
        ensures
            r@ == self.spec_raster(),
    {
        &self.board
    }

    /// The piece standing on square `(x, y)`; coordinates outside the
    /// board are rejected.
    pub fn piece_at(&self, x: u32, y: u32) -> (r: Result<Option<Piece>, RenderError>)
        requires
            self.wf(),
        ensures
            x < 8 && y < 8 ==> r == Ok::<Option<Piece>, RenderError>(
                self.spec_piece_at(x as int, y as int),
            ),
            !(x < 8 && y < 8) ==> r == Err::<Option<Piece>, RenderError>(RenderError::RangeError),
    {
        if x < 8 && y < 8 {
            let idx: usize = (8 * (y as usize)) + (x as usize);
            Ok(self.pieces[idx])
        } else {
            Err(RenderError::RangeError)
        }
    }
}

/// Read pixel `(x, y)` of the raster `s` built for tile size `t`.
fn read_pixel(s: &Vec<u8>, t: u32, x: usize, y: usize) -> (c: Rgba)
    requires
        1 <= t <= MAX_TILE_SIZE,
        s@.len() == raster_bytes(t as nat),
        x < side_len(t as nat),
        y < side_len(t as nat),
    ensures
        c == spec_pixel_at(s@, t as nat, x as int, y as int),
{
    let w: usize = 8 * (t as usize);
    proof {
        lemma_mul_le(y as int, w as int, 16383, 16384);
        lemma_pix_decomp(t as nat, x as int, y as int, 0);
        lemma_pix_decomp(t as nat, x as int, y as int, 3);
    }
    let idx: usize = 4 * (y * w + x);
    Rgba { r: s[idx], g: s[idx + 1], b: s[idx + 2], a: s[idx + 3] }
}

/// Build the checkerboard raster for tile size `t`.
fn checker_raster(sch: Scheme, t: u32) -> (out: Vec<u8>)
    requires
        1 <= t <= MAX_TILE_SIZE,
    ensures
        out@ == spec_checker_raster(sch, t as nat),
{
    let w: usize = 8 * (t as usize);
    let ghost target = spec_checker_raster(sch, t as nat);
    let mut out: Vec<u8> = Vec::new();
    let mut y: usize = 0;
    while y < w
        invariant
            1 <= t <= MAX_TILE_SIZE,
            w == side_len(t as nat),
            y <= w,
            out@.len() == 4 * (y * w),
            target == spec_checker_raster(sch, t as nat),
            forall|k: int| 0 <= k < out@.len() ==> out@[k] == target[k],
        decreases w - y,
    {
        let mut x: usize = 0;
        while x < w
            invariant
                1 <= t <= MAX_TILE_SIZE,
                w == side_len(t as nat),
                y < w,
                x <= w,
                out@.len() == 4 * (y * w + x),
                target == spec_checker_raster(sch, t as nat),
                forall|k: int| 0 <= k < out@.len() ==> out@[k] == target[k],
            decreases w - x,
        {
            let xq: usize = x / (t as usize);
            let yq: usize = y / (t as usize);
            let c = if (xq + yq) % 2 == 0 {
                sch.light
            } else {
                sch.dark
            };
            proof {
                assert(c == spec_checker_pixel(sch, t as nat, x as int, y as int));
            }
            let ghost before = out@;
            out.push(c.r);
            out.push(c.g);
            out.push(c.b);
            out.push(c.a);
            proof {
                assert(before.len() == spec_pix_index(t as nat, x as int, y as int));
                lemma_pix_decomp(t as nat, x as int, y as int, 0);
                lemma_pix_decomp(t as nat, x as int, y as int, 1);
                lemma_pix_decomp(t as nat, x as int, y as int, 2);
                lemma_pix_decomp(t as nat, x as int, y as int, 3);
                assert(forall|k: int| 0 <= k < before.len() ==> out@[k] == before[k]);
                assert(out@[before.len() as int + 0] == c.r);
                assert(out@[before.len() as int + 1] == c.g);
                assert(out@[before.len() as int + 2] == c.b);
                assert(out@[before.len() as int + 3] == c.a);
            }
            x = x + 1;
        }
        proof {
            assert(4 * (y * w + w) == 4 * ((y + 1) * w)) by (nonlinear_arith);
        }
        y = y + 1;
    }
    proof {
        assert(4 * (w * w) == raster_bytes(t as nat));
        assert(out@ =~= target);
    }
    out
}

/// Construction: an empty checkerboard, or the standard starting
/// placement on top of it.
pub trait Setup {
    /// An 8x8 checkerboard with no pieces: square `(x, y)` is `light`
    /// where `x + y` is even, `dark` elsewhere, each square `tile_size`
    /// pixels on an edge.
    fn empty_board(light: Rgba, dark: Rgba, tile_size: u32) -> (b: Board)
        requires
            1 <= tile_size <= MAX_TILE_SIZE,
            light.spec_opaque(),
            dark.spec_opaque(),
        ensures
            b.wf(),
            b.spec_tile_size() == tile_size,
            b.spec_colors() == (Scheme { dark, light }),
            b.spec_last_move() is None,
            b.spec_pieces().len() == 64,
            forall|i: int| 0 <= i < 64 ==> b.spec_pieces()[i] is None,
            b.spec_raster() == spec_checker_raster(Scheme { dark, light }, tile_size as nat),
            b.spec_raster().len() == raster_bytes(tile_size as nat),
            forall|x: int, y: int|
                #![trigger spec_pixel_at(b.spec_raster(), tile_size as nat, x, y)]
                0 <= x < side_len(tile_size as nat) && 0 <= y < side_len(tile_size as nat)
                    ==> spec_pixel_at(b.spec_raster(), tile_size as nat, x, y)
                    == spec_checker_pixel(Scheme { dark, light }, tile_size as nat, x, y),
    ;

    /// The checkerboard of `empty_board` with the standard chess starting
    /// position placed on it.
    fn normal_board(light: Rgba, dark: Rgba, tile_size: u32) -> (b: Board)
        requires
            1 <= tile_size <= MAX_TILE_SIZE,
            light.spec_opaque(),
            dark.spec_opaque(),
        ensures
            b.wf(),
            b.spec_tile_size() == tile_size,
            b.spec_colors() == (Scheme { dark, light }),
            b.spec_last_move() is None,
            b.spec_pieces().len() == 64,
            forall|i: int| 0 <= i < 64 ==> b.spec_pieces()[i] == spec_standard_slot(i),
            b.spec_raster() == spec_checker_raster(Scheme { dark, light }, tile_size as nat),
    ;
}

/// `spec_pixel_at` of the checkerboard raster is `spec_checker_pixel`.
pub proof fn lemma_checker_raster_at(sch: Scheme, t: nat, x: int, y: int)
    requires
        1 <= t,
        0 <= x < side_len(t),
        0 <= y < side_len(t),
    ensures
        spec_pixel_at(spec_checker_raster(sch, t), t, x, y) == spec_checker_pixel(sch, t, x, y),
{
    let s = spec_checker_raster(sch, t);
    let k0 = spec_pix_index(t, x, y);
    lemma_pix_decomp(t, x, y, 0);
    lemma_pix_decomp(t, x, y, 1);
    lemma_pix_decomp(t, x, y, 2);
    lemma_pix_decomp(t, x, y, 3);
    assert(s[k0] == spec_channel(spec_checker_pixel(sch, t, x, y), 0));
    assert(s[k0 + 1] == spec_channel(spec_checker_pixel(sch, t, x, y), 1));
    assert(s[k0 + 2] == spec_channel(spec_checker_pixel(sch, t, x, y), 2));
    assert(s[k0 + 3] == spec_channel(spec_checker_pixel(sch, t, x, y), 3));
}

impl Setup for Board {
    fn empty_board(light: Rgba, dark: Rgba, tile_size: u32) -> (b: Board) {
        let colors = Scheme { dark, light };
        let raster = checker_raster(colors, tile_size);
        let mut pieces: Vec<Option<Piece>> = Vec::new();
        let mut i: usize = 0;
        while i < 64
            invariant
                i <= 64,
                pieces@.len() == i,
                forall|j: int| 0 <= j < i ==> pieces@[j] is None,
            decreases 64 - i,
        {
            pieces.push(None);
            i = i + 1;
        }
        let b = Board { board: raster, tile_size, colors, pieces, last_move: None };
        proof {
            assert forall|x: int, y: int|
                0 <= x < side_len(tile_size as nat) && 0 <= y < side_len(tile_size as nat)
                    implies #[trigger] spec_pixel_at(b.spec_raster(), tile_size as nat, x, y)
                == spec_checker_pixel(Scheme { dark, light }, tile_size as nat, x, y) by {
                lemma_checker_raster_at(Scheme { dark, light }, tile_size as nat, x, y);
            }
        }
        b
    }

    fn normal_board(light: Rgba, dark: Rgba, tile_size: u32) -> (b: Board) {
        let mut b = Self::empty_board(light, dark, tile_size);
        let mut pieces: Vec<Option<Piece>> = Vec::new();
        let mut i: usize = 0;
        while i < 64
            invariant
                i <= 64,
                pieces@.len() == i,
                forall|j: int| 0 <= j < i ==> pieces@[j] == spec_standard_slot(j),
            decreases 64 - i,
        {
            pieces.push(standard_slot(i));
            i = i + 1;
        }
        b.pieces = pieces;
        b
    }
}

// ---------------------------------------------------------------------
// The label pass: file letters along the bottom edge, rank digits along
// the left edge, each glyph scaled to about a third of the tile and
// colored with the board color that contrasts with the square behind it.
// ---------------------------------------------------------------------

/// The glyph height for tile size `t`: close to thirty percent of a tile.
pub open spec fn spec_glyph_h(t: nat) -> int {
    3 * (t as int) / 10
}

/// The glyph width: the 5x7 bitmap's aspect ratio applied to the height.
pub open spec fn spec_glyph_w(t: nat) -> int {
    5 * spec_glyph_h(t) / 7
}

/// The label padding: a fifth of the glyph height.
pub open spec fn spec_pad(t: nat) -> int {
    spec_glyph_h(t) / 5
}

/// The rank label covering pixel `(x, y)`, if any: the digit for the
/// displayed row `y / t`, mirrored when the perspective is white so rank 1
/// sits at the bottom, near the tile's top-left corner, colored `light`
/// when the displayed row index is odd.
pub open spec fn spec_rank_label(sch: Scheme, t: nat, white: bool, x: int, y: int) -> Option<
    Rgba,
> {
    let ti = t as int;
    let d = y / ti;
    let digit = if white {
        7 - d
    } else {
        d
    };
    let gh = spec_glyph_h(t);
    let gw = spec_glyph_w(t);
    let p = spec_pad(t);
    let y0 = d * ti + p;
    if gh >= 1 && gw >= 1 && p <= x < p + gw && y0 <= y < y0 + gh && spec_glyph_on(
        (49 + digit) as u8,
        (x - p) * 5 / gw,
        (y - y0) * 7 / gh,
    ) {
        Some(
            if (d + 1) % 2 == 0 {
                sch.light
            } else {
                sch.dark
            },
        )
    } else {
        None
    }
}

/// The file label covering pixel `(x, y)`, if any: the letter for column
/// `x / t`, near the tile's bottom-right corner in the bottom row,
/// colored `light` for even columns.
pub open spec fn spec_file_label(sch: Scheme, t: nat, x: int, y: int) -> Option<Rgba> {
    let ti = t as int;
    let c = x / ti;
    let gh = spec_glyph_h(t);
    let gw = spec_glyph_w(t);
    let p = spec_pad(t);
    let x0 = (c + 1) * ti - gw - p;
    let y0 = 8 * ti - gh - p;
    if gh >= 1 && gw >= 1 && x0 <= x < x0 + gw && y0 <= y < y0 + gh && spec_glyph_on(
        (97 + c) as u8,
        (x - x0) * 5 / gw,
        (y - y0) * 7 / gh,
    ) {
        Some(
            if c % 2 == 0 {
                sch.light
            } else {
                sch.dark
            },
        )
    } else {
        None
    }
}

/// Pixel `(x, y)` after the label pass: rank labels are drawn after file
/// labels, so they win where both would ink a pixel.
pub open spec fn spec_label_pixel(
    s: Seq<u8>,
    t: nat,
    sch: Scheme,
    white: bool,
    x: int,
    y: int,
) -> Rgba {
    match spec_rank_label(sch, t, white, x, y) {
        Some(c) => c,
        None => match spec_file_label(sch, t, x, y) {
            Some(c) => c,
            None => spec_pixel_at(s, t, x, y),
        },
    }
}

/// The whole raster after the label pass.
pub open spec fn spec_label_raster(s: Seq<u8>, t: nat, sch: Scheme, white: bool) -> Seq<u8> {
    Seq::new(
        raster_bytes(t) as nat,
        |k: int|
            spec_channel(
                spec_label_pixel(s, t, sch, white, spec_pixel_x(t, k), spec_pixel_y(t, k)),
                k % 4,
            ),
    )
}

// ---------------------------------------------------------------------
// The piece pass: every placed piece's sprite, resampled to the tile
// size, composited over its displayed square.
// ---------------------------------------------------------------------

/// Pixel `(x, y)` after the piece pass: the sprite of the piece standing
/// on the square displayed under the pixel, where the sprite is opaque;
/// the underlying pixel elsewhere.
pub open spec fn spec_piece_pixel(
    s: Seq<u8>,
    pieces: Seq<Option<Piece>>,
    white: bool,
    t: nat,
    x: int,
    y: int,
) -> Rgba {
    let under = spec_pixel_at(s, t, x, y);
    let ti = t as int;
    let sx = spec_mirror(white, x / ti);
    let sy = spec_mirror(white, y / ti);
    match pieces[8 * sy + sx] {
        None => under,
        Some(p) => match spec_sprite_pixel(p, t, x % ti, y % ti) {
            None => under,
            Some(c) => c,
        },
    }
}

/// The whole raster after the piece pass.
pub open spec fn spec_piece_raster(
    s: Seq<u8>,
    pieces: Seq<Option<Piece>>,
    white: bool,
    t: nat,
) -> Seq<u8> {
    Seq::new(
        raster_bytes(t) as nat,
        |k: int|
            spec_channel(
                spec_piece_pixel(s, pieces, white, t, spec_pixel_x(t, k), spec_pixel_y(t, k)),
                k % 4,
            ),
    )
}

// ---------------------------------------------------------------------
// The highlight pass: the last move's two squares, each tinted with the
// board color opposite to the square's own checker parity at a fixed
// semi-transparent alpha, composited after the pieces.
// ---------------------------------------------------------------------

/// The tint painted over a displayed square: the dark color where the
/// square's parity is even (a light square), the light color elsewhere,
/// at alpha 100.
pub open spec fn spec_tint(sch: Scheme, sx: int, sy: int) -> Rgba {
    if (sx + sy) % 2 == 0 {
        Rgba { r: sch.dark.r, g: sch.dark.g, b: sch.dark.b, a: 100 }
    } else {
        Rgba { r: sch.light.r, g: sch.light.g, b: sch.light.b, a: 100 }
    }
}

/// Pixel `(x, y)` after the highlight pass: the from-square's tint is
/// blended first, then the to-square's, so a move onto its own square
/// blends twice.
pub open spec fn spec_highlight_pixel(
    s: Seq<u8>,
    lm: Option<((u32, u32), (u32, u32))>,
    sch: Scheme,
    white: bool,
    t: nat,
    x: int,
    y: int,
) -> Rgba {
    let under = spec_pixel_at(s, t, x, y);
    match lm {
        None => under,
        Some((f, to)) => {
            let ti = t as int;
            let fx = spec_mirror(white, f.0 as int);
            let fy = spec_mirror(white, f.1 as int);
            let tx = spec_mirror(white, to.0 as int);
            let ty = spec_mirror(white, to.1 as int);
            let c1 = if x / ti == fx && y / ti == fy {
                spec_blend(under, spec_tint(sch, fx, fy))
            } else {
                under
            };
            if x / ti == tx && y / ti == ty {
                spec_blend(c1, spec_tint(sch, tx, ty))
            } else {
                c1
            }
        },
    }
}

/// The whole raster after the highlight pass.
pub open spec fn spec_highlight_raster(
    s: Seq<u8>,
    lm: Option<((u32, u32), (u32, u32))>,
    sch: Scheme,
    white: bool,
    t: nat,
) -> Seq<u8> {
    Seq::new(
        raster_bytes(t) as nat,
        |k: int|
            spec_channel(
                spec_highlight_pixel(s, lm, sch, white, t, spec_pixel_x(t, k), spec_pixel_y(t, k)),
                k % 4,
            ),
    )
}

/// The raster a render pass produces: labels, then pieces, then the
/// last-move highlight, each pass reading the raster the previous one
/// wrote.
pub open spec fn spec_decorated_raster(
    s: Seq<u8>,
    pieces: Seq<Option<Piece>>,
    lm: Option<((u32, u32), (u32, u32))>,
    sch: Scheme,
    t: nat,
    white: bool,
) -> Seq<u8> {
    spec_highlight_raster(
        spec_piece_raster(spec_label_raster(s, t, sch, white), pieces, white, t),
        lm,
        sch,
        white,
        t,
    )
}

/// Compute pixel `(x, y)` of the label pass over `base`.
fn label_pixel(base: &Vec<u8>, t: u32, sch: Scheme, white: bool, x: usize, y: usize) -> (c: Rgba)
    requires
        1 <= t <= MAX_TILE_SIZE,
        base@.len() == raster_bytes(t as nat),
        x < side_len(t as nat),
        y < side_len(t as nat),
    ensures
        c == spec_label_pixel(base@, t as nat, sch, white, x as int, y as int),
{
    let ti = t as i64;
    let xi = x as i64;
    let yi = y as i64;
    let gh = 3 * ti / 10;
    let gw = 5 * gh / 7;
    let p = gh / 5;
    proof {
        lemma_div_below(yi as int, ti as int, 8);
        lemma_div_below(xi as int, ti as int, 8);
    }
    let d = yi / ti;
    let digit = if white {
        7 - d
    } else {
        d
    };
    proof {
        lemma_mul_le(d as int, ti as int, 7, 2048);
    }
    let y0 = d * ti + p;
    if gh >= 1 && gw >= 1 && p <= xi && xi < p + gw && y0 <= yi && yi < y0 + gh {
        let cdigit: u8 = (49 + digit) as u8;
        if glyph_on(cdigit, (xi - p) * 5 / gw, (yi - y0) * 7 / gh) {
            return if (d + 1) % 2 == 0 {
                sch.light
            } else {
                sch.dark
            };
        }
    }
    let cx = xi / ti;
    proof {
        lemma_mul_le(cx as int + 1, ti as int, 8, 2048);
    }
    let x0 = (cx + 1) * ti - gw - p;
    let y0f = 8 * ti - gh - p;
    if gh >= 1 && gw >= 1 && x0 <= xi && xi < x0 + gw && y0f <= yi && yi < y0f + gh {
        let cfile: u8 = (97 + cx) as u8;
        if glyph_on(cfile, (xi - x0) * 5 / gw, (yi - y0f) * 7 / gh) {
            return if cx % 2 == 0 {
                sch.light
            } else {
                sch.dark
            };
        }
    }
    read_pixel(base, t, x, y)
}

/// Compute pixel `(x, y)` of the piece pass over `base`.
fn piece_pixel(
    base: &Vec<u8>,
    pieces: &Vec<Option<Piece>>,
    t: u32,
    white: bool,
    x: usize,
    y: usize,
) -> (c: Rgba)
    requires
        1 <= t <= MAX_TILE_SIZE,
        base@.len() == raster_bytes(t as nat),
        pieces@.len() == 64,
        x < side_len(t as nat),
        y < side_len(t as nat),
    ensures
        c == spec_piece_pixel(base@, pieces@, white, t as nat, x as int, y as int),
{
    let tu = t as usize;
    proof {
        lemma_div_below(x as int, t as int, 8);
        lemma_div_below(y as int, t as int, 8);
    }
    let cx = x / tu;
    let cy = y / tu;
    let sx = if white {
        cx
    } else {
        7 - cx
    };
    let sy = if white {
        cy
    } else {
        7 - cy
    };
    let idx: usize = 8 * sy + sx;
    match pieces[idx] {
        None => read_pixel(base, t, x, y),
        Some(p) => {
            let u = (x % tu) as i64;
            let v = (y % tu) as i64;
            match sprite_pixel(p, t, u, v) {
                Some(c) => c,
                None => read_pixel(base, t, x, y),
            }
        },
    }
}

/// Compute pixel `(x, y)` of the highlight pass over `base`.
fn highlight_pixel(
    base: &Vec<u8>,
    lm: Option<((u32, u32), (u32, u32))>,
    sch: Scheme,
    t: u32,
    white: bool,
    x: usize,
    y: usize,
) -> (c: Rgba)
    requires
        1 <= t <= MAX_TILE_SIZE,
        base@.len() == raster_bytes(t as nat),
        x < side_len(t as nat),
        y < side_len(t as nat),
        match lm {
            None => true,
            Some((f, to)) => f.0 < 8 && f.1 < 8 && to.0 < 8 && to.1 < 8,
        },
    ensures
        c == spec_highlight_pixel(base@, lm, sch, white, t as nat, x as int, y as int),
{
    let under = read_pixel(base, t, x, y);
    match lm {
        None => under,
        Some((f, to)) => {
            let tu = t as usize;
            proof {
                lemma_div_below(x as int, t as int, 8);
                lemma_div_below(y as int, t as int, 8);
            }
            let cx = x / tu;
            let cy = y / tu;
            let fx = if white {
                f.0
            } else {
                7 - f.0
            };
            let fy = if white {
                f.1
            } else {
                7 - f.1
            };
            let tx = if white {
                to.0
            } else {
                7 - to.0
            };
            let ty = if white {
                to.1
            } else {
                7 - to.1
            };
            let tint_f = if (fx + fy) % 2 == 0 {
                Rgba { r: sch.dark.r, g: sch.dark.g, b: sch.dark.b, a: 100 }
            } else {
                Rgba { r: sch.light.r, g: sch.light.g, b: sch.light.b, a: 100 }
            };
            let c1 = if cx == fx as usize && cy == fy as usize {
                blend(under, tint_f)
            } else {
                under
            };
            let tint_t = if (tx + ty) % 2 == 0 {
                Rgba { r: sch.dark.r, g: sch.dark.g, b: sch.dark.b, a: 100 }
            } else {
                Rgba { r: sch.light.r, g: sch.light.g, b: sch.light.b, a: 100 }
            };
            if cx == tx as usize && cy == ty as usize {
                blend(c1, tint_t)
            } else {
                c1
            }
        },
    }
}

/// Build the label pass raster over `base`.
fn labels_pass(base: &Vec<u8>, t: u32, sch: Scheme, white: bool) -> (out: Vec<u8>)
    requires
        1 <= t <= MAX_TILE_SIZE,
        base@.len() == raster_bytes(t as nat),
    ensures
        out@ == spec_label_raster(base@, t as nat, sch, white),
{
    let w: usize = 8 * (t as usize);
    let ghost target = spec_label_raster(base@, t as nat, sch, white);
    let mut out: Vec<u8> = Vec::new();
    let mut y: usize = 0;
    while y < w
        invariant
            1 <= t <= MAX_TILE_SIZE,
            base@.len() == raster_bytes(t as nat),
            w == side_len(t as nat),
            y <= w,
            out@.len() == 4 * (y * w),
            target == spec_label_raster(base@, t as nat, sch, white),
            forall|k: int| 0 <= k < out@.len() ==> out@[k] == target[k],
        decreases w - y,
    {
        let mut x: usize = 0;
        while x < w
            invariant
                1 <= t <= MAX_TILE_SIZE,
                base@.len() == raster_bytes(t as nat),
                w == side_len(t as nat),
                y < w,
                x <= w,
                out@.len() == 4 * (y * w + x),
                target == spec_label_raster(base@, t as nat, sch, white),
                forall|k: int| 0 <= k < out@.len() ==> out@[k] == target[k],
            decreases w - x,
        {
            let c = label_pixel(base, t, sch, white, x, y);
            let ghost before = out@;
            out.push(c.r);
            out.push(c.g);
            out.push(c.b);
            out.push(c.a);
            proof {
                assert(before.len() == spec_pix_index(t as nat, x as int, y as int));
                lemma_pix_decomp(t as nat, x as int, y as int, 0);
                lemma_pix_decomp(t as nat, x as int, y as int, 1);
                lemma_pix_decomp(t as nat, x as int, y as int, 2);
                lemma_pix_decomp(t as nat, x as int, y as int, 3);
                assert(forall|k: int| 0 <= k < before.len() ==> out@[k] == before[k]);
                assert(out@[before.len() as int + 0] == c.r);
                assert(out@[before.len() as int + 1] == c.g);
                assert(out@[before.len() as int + 2] == c.b);
                assert(out@[before.len() as int + 3] == c.a);
            }
            x = x + 1;
        }
        proof {
            assert(4 * (y * w + w) == 4 * ((y + 1) * w)) by (nonlinear_arith);
        }
        y = y + 1;
    }
    proof {
        assert(4 * (w * w) == raster_bytes(t as nat));
        assert(out@ =~= target);
    }
    out
}

/// Build the piece pass raster over `base`.
fn pieces_pass(base: &Vec<u8>, pieces: &Vec<Option<Piece>>, t: u32, white: bool) -> (out: Vec<u8>)
    requires
        1 <= t <= MAX_TILE_SIZE,
        base@.len() == raster_bytes(t as nat),
        pieces@.len() == 64,
    ensures
        out@ == spec_piece_raster(base@, pieces@, white, t as nat),
{
    let w: usize = 8 * (t as usize);
    let ghost target = spec_piece_raster(base@, pieces@, white, t as nat);
    let mut out: Vec<u8> = Vec::new();
    let mut y: usize = 0;
    while y < w
        invariant
            1 <= t <= MAX_TILE_SIZE,
            base@.len() == raster_bytes(t as nat),
            pieces@.len() == 64,
            w == side_len(t as nat),
            y <= w,
            out@.len() == 4 * (y * w),
            target == spec_piece_raster(base@, pieces@, white, t as nat),
            forall|k: int| 0 <= k < out@.len() ==> out@[k] == target[k],
        decreases w - y,
    {
        let mut x: usize = 0;
        while x < w
            invariant
                1 <= t <= MAX_TILE_SIZE,
                base@.len() == raster_bytes(t as nat),
                pieces@.len() == 64,
                w == side_len(t as nat),
                y < w,
                x <= w,
                out@.len() == 4 * (y * w + x),
                target == spec_piece_raster(base@, pieces@, white, t as nat),
                forall|k: int| 0 <= k < out@.len() ==> out@[k] == target[k],
            decreases w - x,
        {
            let c = piece_pixel(base, pieces, t, white, x, y);
            let ghost before = out@;
            out.push(c.r);
            out.push(c.g);
            out.push(c.b);
            out.push(c.a);
            proof {
                assert(before.len() == spec_pix_index(t as nat, x as int, y as int));
                lemma_pix_decomp(t as nat, x as int, y as int, 0);
                lemma_pix_decomp(t as nat, x as int, y as int, 1);
                lemma_pix_decomp(t as nat, x as int, y as int, 2);
                lemma_pix_decomp(t as nat, x as int, y as int, 3);
                assert(forall|k: int| 0 <= k < before.len() ==> out@[k] == before[k]);
                assert(out@[before.len() as int + 0] == c.r);
                assert(out@[before.len() as int + 1] == c.g);
                assert(out@[before.len() as int + 2] == c.b);
                assert(out@[before.len() as int + 3] == c.a);
            }
            x = x + 1;
        }
        proof {
            assert(4 * (y * w + w) == 4 * ((y + 1) * w)) by (nonlinear_arith);
        }
        y = y + 1;
    }
    proof {
        assert(4 * (w * w) == raster_bytes(t as nat));
        assert(out@ =~= target);
    }
    out
}

/// Build the highlight pass raster over `base`.
fn highlight_pass(
    base: &Vec<u8>,
    lm: Option<((u32, u32), (u32, u32))>,
    sch: Scheme,
    t: u32,
    white: bool,
) -> (out: Vec<u8>)
    requires
        1 <= t <= MAX_TILE_SIZE,
        base@.len() == raster_bytes(t as nat),
        match lm {
            None => true,
            Some((f, to)) => f.0 < 8 && f.1 < 8 && to.0 < 8 && to.1 < 8,
        },
    ensures
        out@ == spec_highlight_raster(base@, lm, sch, white, t as nat),
{
    let w: usize = 8 * (t as usize);
    let ghost target = spec_highlight_raster(base@, lm, sch, white, t as nat);
    let mut out: Vec<u8> = Vec::new();
    let mut y: usize = 0;
    while y < w
        invariant
            1 <= t <= MAX_TILE_SIZE,
            base@.len() == raster_bytes(t as nat),
            w == side_len(t as nat),
            y <= w,
            out@.len() == 4 * (y * w),
            target == spec_highlight_raster(base@, lm, sch, white, t as nat),
            match lm {
                None => true,
                Some((f, to)) => f.0 < 8 && f.1 < 8 && to.0 < 8 && to.1 < 8,
            },
            forall|k: int| 0 <= k < out@.len() ==> out@[k] == target[k],
        decreases w - y,
    {
        let mut x: usize = 0;
        while x < w
            invariant
                1 <= t <= MAX_TILE_SIZE,
                base@.len() == raster_bytes(t as nat),
                w == side_len(t as nat),
                y < w,
                x <= w,
                out@.len() == 4 * (y * w + x),
                target == spec_highlight_raster(base@, lm, sch, white, t as nat),
                match lm {
                    None => true,
                    Some((f, to)) => f.0 < 8 && f.1 < 8 && to.0 < 8 && to.1 < 8,
                },
                forall|k: int| 0 <= k < out@.len() ==> out@[k] == target[k],
            decreases w - x,
        {
            let c = highlight_pixel(base, lm, sch, t, white, x, y);
            let ghost before = out@;
            out.push(c.r);
            out.push(c.g);
            out.push(c.b);
            out.push(c.a);
            proof {
                assert(before.len() == spec_pix_index(t as nat, x as int, y as int));
                lemma_pix_decomp(t as nat, x as int, y as int, 0);
                lemma_pix_decomp(t as nat, x as int, y as int, 1);
                lemma_pix_decomp(t as nat, x as int, y as int, 2);
                lemma_pix_decomp(t as nat, x as int, y as int, 3);
                assert(forall|k: int| 0 <= k < before.len() ==> out@[k] == before[k]);
                assert(out@[before.len() as int + 0] == c.r);
                assert(out@[before.len() as int + 1] == c.g);
                assert(out@[before.len() as int + 2] == c.b);
                assert(out@[before.len() as int + 3] == c.a);
            }
            x = x + 1;
        }
        proof {
            assert(4 * (y * w + w) == 4 * ((y + 1) * w)) by (nonlinear_arith);
        }
        y = y + 1;
    }
    proof {
        assert(4 * (w * w) == raster_bytes(t as nat));
        assert(out@ =~= target);
    }
    out
}

/// A byte-for-byte copy of a raster.
fn copy_bytes(v: &Vec<u8>) -> (r: Vec<u8>)
    ensures
        r@ == v@,
{
    let mut r: Vec<u8> = Vec::new();
    let mut i: usize = 0;
    while i < v.len()
        invariant
            i <= v@.len(),
            r@.len() == i,
            forall|j: int| 0 <= j < i ==> r@[j] == v@[j],
        decreases v@.len() - i,
    {
        r.push(v[i]);
        i = i + 1;
    }
    proof {
        assert(r@ =~= v@);
    }
    r
}

/// Serialize an RGBA raster of the given dimensions as PNG; a buffer
/// whose length does not match the dimensions, or a zero dimension, is a
/// `DimensionMismatch`.
pub fn encode_raster(pixels: &Vec<u8>, width: u32, height: u32) -> (r: Result<
    Vec<u8>,
    RenderError,
>)
    ensures
        match r {
            Ok(png) => 1 <= width && 1 <= height && pixels@.len() == 4 * ((width as int) * (
            height as int)) && png@ == spec_png_of(pixels@, width as nat, height as nat)
                && spec_png_decode(png@) == Some((width as nat, height as nat, pixels@)),
            Err(e) => e == RenderError::DimensionMismatch && !(1 <= width && 1 <= height
                && pixels@.len() == 4 * ((width as int) * (height as int))),
        },
{
    proof {
        lemma_mul_le(4 * (width as int), height as int, 17179869184, 4294967295);
        assert(4 * ((width as int) * (height as int)) == (4 * (width as int)) * (height as int))
            by (nonlinear_arith);
    }
    let expected: u128 = (4 * (width as u128)) * (height as u128);
    if width >= 1 && height >= 1 && (pixels.len() as u128) == expected {
        Ok(png_encode_rgba(pixels, width, height))
    } else {
        Err(RenderError::DimensionMismatch)
    }
}

/// Decoration: the three passes that paint over the live raster, and the
/// render entry point that runs them on a snapshot-and-restore cycle.
pub trait Draw {
    /// The state a board must be in to be drawn on.
    spec fn drawable(&self) -> bool;

    /// Draw the file letters and rank digits.
    fn text_decoration(&mut self, white: bool)
        requires
            old(self).drawable(),
        ensures
            final(self).drawable(),
    ;

    /// Draw every placed piece's sprite.
    fn draw_pieces(&mut self, white: bool)
        requires
            old(self).drawable(),
        ensures
            final(self).drawable(),
    ;

    /// Tint the recorded last move's squares.
    fn last_move(&mut self, white: bool)
        requires
            old(self).drawable(),
        ensures
            final(self).drawable(),
    ;

    /// Run the three passes, encode the decorated raster as PNG, and
    /// restore the raster so no decoration persists.
    fn draw_and_render(&mut self, white: bool) -> (png: Vec<u8>)
        requires
            old(self).drawable(),
        ensures
            final(self).drawable(),
    ;
}

/// Encoding the persisted raster as a PNG byte stream.
pub trait Encode {
    /// The state a board must be in to be encoded.
    spec fn encodable(&self) -> bool;

    /// The PNG bytes of the raster as it stands now.
    fn encode_png(&self) -> (png: Vec<u8>)
        requires
            self.encodable(),
    ;
}

impl Draw for Board {
    open spec fn drawable(&self) -> bool {
        self.wf()
    }

    fn text_decoration(&mut self, white: bool)
        ensures
            final(self).spec_tile_size() == old(self).spec_tile_size(),
            final(self).spec_colors() == old(self).spec_colors(),
            final(self).spec_pieces() == old(self).spec_pieces(),
            final(self).spec_last_move() == old(self).spec_last_move(),
            final(self).spec_raster() == spec_label_raster(
                old(self).spec_raster(),
                old(self).spec_tile_size(),
                old(self).spec_colors(),
                white,
            ),
    {
        let nb = labels_pass(&self.board, self.tile_size, self.colors, white);
        self.board = nb;
    }

    fn draw_pieces(&mut self, white: bool)
        ensures
            final(self).spec_tile_size() == old(self).spec_tile_size(),
            final(self).spec_colors() == old(self).spec_colors(),
            final(self).spec_pieces() == old(self).spec_pieces(),
            final(self).spec_last_move() == old(self).spec_last_move(),
            final(self).spec_raster() == spec_piece_raster(
                old(self).spec_raster(),
                old(self).spec_pieces(),
                white,
                old(self).spec_tile_size(),
            ),
    {
        let nb = pieces_pass(&self.board, &self.pieces, self.tile_size, white);
        self.board = nb;
    }

    fn last_move(&mut self, white: bool)
        ensures
            final(self).spec_tile_size() == old(self).spec_tile_size(),
            final(self).spec_colors() == old(self).spec_colors(),
            final(self).spec_pieces() == old(self).spec_pieces(),
            final(self).spec_last_move() == old(self).spec_last_move(),
            final(self).spec_raster() == spec_highlight_raster(
                old(self).spec_raster(),
                old(self).spec_last_move(),
                old(self).spec_colors(),
                white,
                old(self).spec_tile_size(),
            ),
    {
        let nb = highlight_pass(&self.board, self.last_move, self.colors, self.tile_size, white);
        self.board = nb;
    }

    fn draw_and_render(&mut self, white: bool) -> (png: Vec<u8>)
        ensures
            final(self).spec_tile_size() == old(self).spec_tile_size(),
            final(self).spec_colors() == old(self).spec_colors(),
            final(self).spec_pieces() == old(self).spec_pieces(),
            final(self).spec_last_move() == old(self).spec_last_move(),
            final(self).spec_raster() == old(self).spec_raster(),
            png@ == spec_png_of(
                spec_decorated_raster(
                    old(self).spec_raster(),
                    old(self).spec_pieces(),
                    old(self).spec_last_move(),
                    old(self).spec_colors(),
                    old(self).spec_tile_size(),
                    white,
                ),
                side_len(old(self).spec_tile_size()) as nat,
                side_len(old(self).spec_tile_size()) as nat,
            ),
            spec_png_decode(png@) == Some(
                (
                    side_len(old(self).spec_tile_size()) as nat,
                    side_len(old(self).spec_tile_size()) as nat,
                    spec_decorated_raster(
                        old(self).spec_raster(),
                        old(self).spec_pieces(),
                        old(self).spec_last_move(),
                        old(self).spec_colors(),
                        old(self).spec_tile_size(),
                        white,
                    ),
                ),
            ),
    {
        let snapshot = copy_bytes(&self.board);
        self.text_decoration(white);
        self.draw_pieces(white);
        self.last_move(white);
        let png = self.encode_png();
        self.board = snapshot;
        png
    }
}

impl Encode for Board {
    open spec fn encodable(&self) -> bool {
        self.wf()
    }

    fn encode_png(&self) -> (png: Vec<u8>)
        ensures
            png@ == spec_png_of(
                self.spec_raster(),
                side_len(self.spec_tile_size()) as nat,
                side_len(self.spec_tile_size()) as nat,
            ),
            spec_png_decode(png@) == Some(
                (
                    side_len(self.spec_tile_size()) as nat,
                    side_len(self.spec_tile_size()) as nat,
                    self.spec_raster(),
                ),
            ),
    {
        let w: u32 = 8 * self.tile_size;
        proof {
            assert(self.board@.len() == 4 * ((w as int) * (w as int)));
        }
        match encode_raster(&self.board, w, w) {
            Ok(png) => png,
            Err(_) => {
                proof {
                    assert(false);
                }
                Vec::new()
            },
        }
    }
}

/// `spec_pixel_at` of the label pass raster is `spec_label_pixel`.
pub proof fn lemma_label_raster_at(s: Seq<u8>, t: nat, sch: Scheme, white: bool, x: int, y: int)
    requires
        1 <= t,
        0 <= x < side_len(t),
        0 <= y < side_len(t),
    ensures
        spec_pixel_at(spec_label_raster(s, t, sch, white), t, x, y) == spec_label_pixel(
            s,
            t,
            sch,
            white,
            x,
            y,
        ),
{
    let r = spec_label_raster(s, t, sch, white);
    let k0 = spec_pix_index(t, x, y);
    lemma_pix_decomp(t, x, y, 0);
    lemma_pix_decomp(t, x, y, 1);
    lemma_pix_decomp(t, x, y, 2);
    lemma_pix_decomp(t, x, y, 3);
    assert(r[k0] == spec_channel(spec_label_pixel(s, t, sch, white, x, y), 0));
    assert(r[k0 + 1] == spec_channel(spec_label_pixel(s, t, sch, white, x, y), 1));
    assert(r[k0 + 2] == spec_channel(spec_label_pixel(s, t, sch, white, x, y), 2));
    assert(r[k0 + 3] == spec_channel(spec_label_pixel(s, t, sch, white, x, y), 3));
}

/// `spec_pixel_at` of the piece pass raster is `spec_piece_pixel`.
pub proof fn lemma_piece_raster_at(
    s: Seq<u8>,
    pieces: Seq<Option<Piece>>,
    white: bool,
    t: nat,
    x: int,
    y: int,
)
    requires
        1 <= t,
        0 <= x < side_len(t),
        0 <= y < side_len(t),
    ensures
        spec_pixel_at(spec_piece_raster(s, pieces, white, t), t, x, y) == spec_piece_pixel(
            s,
            pieces,
            white,
            t,
            x,
            y,
        ),
{
    let r = spec_piece_raster(s, pieces, white, t);
    let k0 = spec_pix_index(t, x, y);
    lemma_pix_decomp(t, x, y, 0);
    lemma_pix_decomp(t, x, y, 1);
    lemma_pix_decomp(t, x, y, 2);
    lemma_pix_decomp(t, x, y, 3);
    assert(r[k0] == spec_channel(spec_piece_pixel(s, pieces, white, t, x, y), 0));
    assert(r[k0 + 1] == spec_channel(spec_piece_pixel(s, pieces, white, t, x, y), 1));
    assert(r[k0 + 2] == spec_channel(spec_piece_pixel(s, pieces, white, t, x, y), 2));
    assert(r[k0 + 3] == spec_channel(spec_piece_pixel(s, pieces, white, t, x, y), 3));
}

/// `spec_pixel_at` of the highlight pass raster is `spec_highlight_pixel`.
pub proof fn lemma_highlight_raster_at(
    s: Seq<u8>,
    lm: Option<((u32, u32), (u32, u32))>,
    sch: Scheme,
    white: bool,
    t: nat,
    x: int,
    y: int,
)
    requires
        1 <= t,
        0 <= x < side_len(t),
        0 <= y < side_len(t),
    ensures
        spec_pixel_at(spec_highlight_raster(s, lm, sch, white, t), t, x, y)
            == spec_highlight_pixel(s, lm, sch, white, t, x, y),
{
    let r = spec_highlight_raster(s, lm, sch, white, t);
    let k0 = spec_pix_index(t, x, y);
    lemma_pix_decomp(t, x, y, 0);
    lemma_pix_decomp(t, x, y, 1);
    lemma_pix_decomp(t, x, y, 2);
    lemma_pix_decomp(t, x, y, 3);
    assert(r[k0] == spec_channel(spec_highlight_pixel(s, lm, sch, white, t, x, y), 0));
    assert(r[k0 + 1] == spec_channel(spec_highlight_pixel(s, lm, sch, white, t, x, y), 1));
    assert(r[k0 + 2] == spec_channel(spec_highlight_pixel(s, lm, sch, white, t, x, y), 2));
    assert(r[k0 + 3] == spec_channel(spec_highlight_pixel(s, lm, sch, white, t, x, y), 3));
}

/// Law: what one pixel of a render shows. The raster a render encodes
/// reads, at every pixel, the highlight rule over the piece rule over the
/// label rule over the persisted raster, each pass at the same pixel.
pub proof fn lemma_decorated_pixel(
    s: Seq<u8>,
    pieces: Seq<Option<Piece>>,
    lm: Option<((u32, u32), (u32, u32))>,
    sch: Scheme,
    t: nat,
    white: bool,
    x: int,
    y: int,
)
    requires
        1 <= t,
        0 <= x < side_len(t),
        0 <= y < side_len(t),
    ensures
        spec_pixel_at(spec_decorated_raster(s, pieces, lm, sch, t, white), t, x, y)
            == spec_highlight_pixel(
            spec_piece_raster(spec_label_raster(s, t, sch, white), pieces, white, t),
            lm,
            sch,
            white,
            t,
            x,
            y,
        ),
        spec_pixel_at(spec_piece_raster(spec_label_raster(s, t, sch, white), pieces, white, t), t, x, y)
            == spec_piece_pixel(spec_label_raster(s, t, sch, white), pieces, white, t, x, y),
        spec_pixel_at(spec_label_raster(s, t, sch, white), t, x, y) == spec_label_pixel(
            s,
            t,
            sch,
            white,
            x,
            y,
        ),
{
    lemma_highlight_raster_at(
        spec_piece_raster(spec_label_raster(s, t, sch, white), pieces, white, t),
        lm,
        sch,
        white,
        t,
        x,
        y,
    );
    lemma_piece_raster_at(spec_label_raster(s, t, sch, white), pieces, white, t, x, y);
    lemma_label_raster_at(s, t, sch, white, x, y);
}

/// Law: perspective mirroring. A piece standing on the board's first
/// square is drawn in the tile at the pixel origin when rendered from
/// white's side, and in the tile at the opposite corner when rendered
/// from black's: the piece pass reads the same placement slot at pixel
/// `(u, v)` under white as at `(7t + u, 7t + v)` under black, and shows
/// the same sprite offset.
pub proof fn lemma_perspective_mirror(
    s: Seq<u8>,
    pieces: Seq<Option<Piece>>,
    p: Piece,
    t: nat,
    u: int,
    v: int,
)
    requires
        1 <= t,
        0 <= u < t,
        0 <= v < t,
        pieces.len() == 64,
        pieces[0] == Some(p),
    ensures
        spec_piece_pixel(s, pieces, true, t, u, v) == (match spec_sprite_pixel(p, t, u, v) {
            Some(c) => c,
            None => spec_pixel_at(s, t, u, v),
        }),
        spec_piece_pixel(s, pieces, false, t, 7 * (t as int) + u, 7 * (t as int) + v) == (
        match spec_sprite_pixel(p, t, u, v) {
            Some(c) => c,
            None => spec_pixel_at(s, t, 7 * (t as int) + u, 7 * (t as int) + v),
        }),
{
    let ti = t as int;
    lemma_fundamental_div_mod_converse(u, ti, 0, u);
    lemma_fundamental_div_mod_converse(v, ti, 0, v);
    lemma_fundamental_div_mod_converse(7 * ti + u, ti, 7, u);
    lemma_fundamental_div_mod_converse(7 * ti + v, ti, 7, v);
    assert(spec_mirror(true, u / ti) == 0);
    assert(spec_mirror(false, (7 * ti + u) / ti) == 0);
}

/// Law: rendering is repeatable. The PNG a render returns is determined
/// by the board state alone — the raster, placement, last move, colors
/// and tile size — together with the perspective; and a render leaves
/// that state as it found it. Two renders of an unmodified board are
/// therefore byte-identical.
pub proof fn lemma_render_repeatable(b1: Board, b2: Board, white: bool)
    requires
        b1.spec_raster() == b2.spec_raster(),
        b1.spec_pieces() == b2.spec_pieces(),
        b1.spec_last_move() == b2.spec_last_move(),
        b1.spec_colors() == b2.spec_colors(),
        b1.spec_tile_size() == b2.spec_tile_size(),
    ensures
        spec_png_of(
            spec_decorated_raster(
                b1.spec_raster(),
                b1.spec_pieces(),
                b1.spec_last_move(),
                b1.spec_colors(),
                b1.spec_tile_size(),
                white,
            ),
            side_len(b1.spec_tile_size()) as nat,
            side_len(b1.spec_tile_size()) as nat,
        ) == spec_png_of(
            spec_decorated_raster(
                b2.spec_raster(),
                b2.spec_pieces(),
                b2.spec_last_move(),
                b2.spec_colors(),
                b2.spec_tile_size(),
                white,
            ),
            side_len(b2.spec_tile_size()) as nat,
            side_len(b2.spec_tile_size()) as nat,
        ),
{
}

} // verus!
