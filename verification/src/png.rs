//! The PNG codec boundary: the one place where the library calls the
//! `image` crate. The encoded byte stream is named by an uninterpreted
//! spec function, and the lossless round trip that the PNG format
//! guarantees is stated over that name.

use vstd::prelude::*;

verus! {

/// The PNG byte stream that the `image` crate's PNG encoder produces for
/// an RGBA8 raster `pixels` of the given dimensions; a function of its
/// arguments alone.
pub uninterp spec fn spec_png_of(pixels: Seq<u8>, width: nat, height: nat) -> Seq<u8>;

/// What the `image` crate's PNG decoder makes of a byte stream: the
/// dimensions and RGBA8 raster of a well-formed PNG, nothing otherwise;
/// a function of the bytes alone.
pub uninterp spec fn spec_png_decode(bytes: Seq<u8>) -> Option<(nat, nat, Seq<u8>)>;

/// Relies on `image::codecs::png::PngEncoder::write_image` with the RGBA8
/// color type: it writes one deterministic PNG byte stream for a given
/// raster and dimensions, and PNG encoding of 8-bit RGBA data is lossless,
/// so decoding that stream yields the dimensions and raster unchanged.
/// The encoder panics when the buffer length does not match the
/// dimensions, and errors on zero dimensions, so both are excluded here.
#[verifier::external_body]
pub(crate) fn png_encode_rgba(pixels: &Vec<u8>, width: u32, height: u32) -> (r: Vec<u8>)
    requires
        1 <= width,
        1 <= height,
        pixels@.len() == 4 * ((width as int) * (height as int)),
    ensures
        r@ == spec_png_of(pixels@, width as nat, height as nat),
        spec_png_decode(r@) == Some((width as nat, height as nat, pixels@)),
{
    let mut buffer: Vec<u8> = Vec::new();
    let encoder = image::codecs::png::PngEncoder::new(&mut buffer);
    image::ImageEncoder::write_image(
        encoder,
        pixels.as_slice(),
        width,
        height,
        image::ColorType::Rgba8,
    ).unwrap();
    buffer
}

} // verus!
