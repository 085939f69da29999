//! The data-url the emote creation command uploads: the attachment bytes,
//! base64-encoded through the `base64` crate, behind a media-type prefix
//! chosen from the attachment's filename.

use vstd::prelude::*;

verus! {

/// The base64 digit for a 6-bit value: the standard alphabet
/// `A-Z a-z 0-9 + /`.
pub open spec fn spec_b64_digit(v: int) -> u8 {
    if v < 26 {
        (65 + v) as u8
    } else if v < 52 {
        (71 + v) as u8
    } else if v < 62 {
        (v - 4) as u8
    } else if v == 62 {
        43u8
    } else {
        47u8
    }
}

/// Standard base64 with `=` padding, three input bytes to four output
/// digits.
pub open spec fn spec_base64(bytes: Seq<u8>) -> Seq<u8>
    decreases bytes.len(),
{
    if bytes.len() == 0 {
        Seq::<u8>::empty()
    } else if bytes.len() == 1 {
        let b0 = bytes[0] as int;
        seq![spec_b64_digit(b0 / 4), spec_b64_digit((b0 % 4) * 16), 61u8, 61u8]
    } else if bytes.len() == 2 {
        let b0 = bytes[0] as int;
        let b1 = bytes[1] as int;
        seq![
            spec_b64_digit(b0 / 4),
            spec_b64_digit((b0 % 4) * 16 + b1 / 16),
            spec_b64_digit((b1 % 16) * 4),
            61u8,
        ]
    } else {
        let b0 = bytes[0] as int;
        let b1 = bytes[1] as int;
        let b2 = bytes[2] as int;
        seq![
            spec_b64_digit(b0 / 4),
            spec_b64_digit((b0 % 4) * 16 + b1 / 16),
            spec_b64_digit((b1 % 16) * 4 + b2 / 64),
            spec_b64_digit(b2 % 64),
        ] + spec_base64(bytes.skip(3))
    }
}

/// Relies on `base64::encode`: the standard alphabet with `=` padding,
/// four digits for every three input bytes, as `spec_base64` spells out.
#[verifier::external_body]
fn base64_bytes(bytes: &Vec<u8>) -> (r: Vec<u8>)
    ensures
        r@ == spec_base64(bytes@),
{
    base64::encode(bytes.as_slice()).into_bytes()
}

/// Whether the react commands' filename rule calls the attachment a PNG:
/// the segment after the last dot (or the whole name when it has none)
/// is exactly `png`.
pub open spec fn spec_png_named(name: Seq<u8>) -> bool {
    ||| name =~= seq![112u8, 110u8, 103u8]
    ||| (name.len() >= 4 && name.subrange(name.len() - 4, name.len() as int) =~= seq![
        46u8,
        112u8,
        110u8,
        103u8,
    ])
}

pub fn png_named(name: &Vec<u8>) -> (r: bool)
    ensures
        r == spec_png_named(name@),
{
    let n = name.len();
    if n == 3 && name[0] == 112 && name[1] == 110 && name[2] == 103 {
        proof {
            assert(name@ =~= seq![112u8, 110u8, 103u8]);
        }
        return true;
    }
    if n >= 4 && name[n - 4] == 46 && name[n - 3] == 112 && name[n - 2] == 110 && name[n - 1]
        == 103 {
        proof {
            assert(name@.subrange(n - 4, n as int) =~= seq![46u8, 112u8, 110u8, 103u8]);
        }
        return true;
    }
    proof {
        if name@.len() == 3 {
            assert(name@ =~= seq![name@[0], name@[1], name@[2]]);
        }
        if name@.len() >= 4 {
            let tail = name@.subrange(name@.len() - 4, name@.len() as int);
            assert(tail =~= seq![name@[name@.len() - 4], name@[name@.len() - 3], name@[name@.len()
                - 2], name@[name@.len() - 1]]);
        }
    }
    false
}

/// The data-url prefix for the chosen media type.
pub open spec fn spec_data_url_prefix(png: bool) -> Seq<u8> {
    if png {
        seq![
            100u8, 97u8, 116u8, 97u8, 58u8, 105u8, 109u8, 97u8, 103u8, 101u8, 47u8, 112u8, 110u8,
            103u8, 59u8, 98u8, 97u8, 115u8, 101u8, 54u8, 52u8, 44u8,
        ]
    } else {
        seq![
            100u8, 97u8, 116u8, 97u8, 58u8, 105u8, 109u8, 97u8, 103u8, 101u8, 47u8, 106u8, 112u8,
            103u8, 59u8, 98u8, 97u8, 115u8, 101u8, 54u8, 52u8, 44u8,
        ]
    }
}

/// The data-url the emote upload sends: `data:image/png;base64,` or
/// `data:image/jpg;base64,` by the filename rule, then the attachment
/// bytes in base64.
pub fn emote_data_url(bytes: &Vec<u8>, filename: &Vec<u8>) -> (r: Vec<u8>)
    ensures
        r@ == spec_data_url_prefix(spec_png_named(filename@)) + spec_base64(bytes@),
{
    let png = png_named(filename);
    let mut out: Vec<u8> = if png {
        vec![
            100u8, 97u8, 116u8, 97u8, 58u8, 105u8, 109u8, 97u8, 103u8, 101u8, 47u8, 112u8, 110u8,
            103u8, 59u8, 98u8, 97u8, 115u8, 101u8, 54u8, 52u8, 44u8,
        ]
    } else {
        vec![
            100u8, 97u8, 116u8, 97u8, 58u8, 105u8, 109u8, 97u8, 103u8, 101u8, 47u8, 106u8, 112u8,
            103u8, 59u8, 98u8, 97u8, 115u8, 101u8, 54u8, 52u8, 44u8,
        ]
    };
    proof {
        assert(out@ =~= spec_data_url_prefix(spec_png_named(filename@)));
    }
    let mut payload = base64_bytes(bytes);
    out.append(&mut payload);
    proof {
        assert(out@ =~= spec_data_url_prefix(spec_png_named(filename@)) + spec_base64(bytes@));
    }
    out
}

} // verus!
