//! RGBA colors and the integer source-over blend used by the renderer.

use vstd::prelude::*;

verus! {

/// One 8-bit-per-channel RGBA color.
#[derive(Clone, Copy, PartialEq, Eq, Structural, Debug)]
pub struct Rgba {
    pub r: u8,
    pub g: u8,
    pub b: u8,
    pub a: u8,
}

/// The two colors a board is built from.
#[derive(Clone, Copy, PartialEq, Eq, Structural, Debug)]
pub struct Scheme {
    pub dark: Rgba,
    pub light: Rgba,
}

impl Rgba {
    /// A fully opaque color.
    pub open spec fn spec_opaque(self) -> bool {
        self.a == 255
    }
}

/// One channel of source-over compositing, with the destination taken as the
/// base: `(s*a + d*(255-a) + 127) / 255`, rounding to nearest.
pub open spec fn spec_blend_channel(d: u8, s: u8, a: u8) -> u8 {
    (((s * a + d * (255 - a) + 127) / 255) as u8)
}

pub fn blend_channel(d: u8, s: u8, a: u8) -> (r: u8)
    ensures
        r == spec_blend_channel(d, s, a),
{
    proof {
        assert(s * a + d * (255 - a) + 127 <= 65279) by (nonlinear_arith)
            requires
                s <= 255,
                a <= 255,
                d <= 255,
        ;
    }
    let num: u32 = (s as u32) * (a as u32) + (d as u32) * (255 - a as u32) + 127;
    (num / 255) as u8
}

/// Source-over blend of `s` (with its own alpha) onto `d`. Every raster this
/// library builds keeps its pixels fully opaque, so the result's alpha blends
/// toward full opacity.
pub open spec fn spec_blend(d: Rgba, s: Rgba) -> Rgba {
    Rgba {
        r: spec_blend_channel(d.r, s.r, s.a),
        g: spec_blend_channel(d.g, s.g, s.a),
        b: spec_blend_channel(d.b, s.b, s.a),
        a: spec_blend_channel(d.a, 255, s.a),
    }
}

pub fn blend(d: Rgba, s: Rgba) -> (r: Rgba)
    ensures
        r == spec_blend(d, s),
{
    Rgba {
        r: blend_channel(d.r, s.r, s.a),
        g: blend_channel(d.g, s.g, s.a),
        b: blend_channel(d.b, s.b, s.a),
        a: blend_channel(d.a, 255, s.a),
    }
}

/// The channel `j` (r, g, b, a in order) of a pixel, as it stands in a raster.
pub open spec fn spec_channel(c: Rgba, j: int) -> u8 {
    if j == 0 {
        c.r
    } else if j == 1 {
        c.g
    } else if j == 2 {
        c.b
    } else {
        c.a
    }
}

} // verus!
