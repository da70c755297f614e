//! Process icons as PNG data URLs: BGRA pixels read from an icon are reordered to RGBA,
//! encoded as PNG by the `image` crate and base64-encoded by the `base64` crate. Reading
//! the icon itself is the caller's (Windows GDI).

use vstd::prelude::*;
use base64::Engine;
use crate::startup::b64_encode_spec;
use crate::text::{chars_of, push_str, string_of};

verus! {

/// The PNG file that the `image` crate writes for a `width` x `height` RGBA image whose
/// pixels are the first `4 * width * height` bytes of `rgba`, or `None` when it writes
/// none.
pub uninterp spec fn png_encoding(width: u32, height: u32, rgba: Seq<u8>) -> Option<Seq<u8>>;

/// PNG encoding through `image::RgbaImage::from_raw` and `write_to` (in memory). The
/// result is named `png_encoding`; `from_raw` refuses a buffer shorter than
/// `4 * width * height` bytes, so then there is none.
#[verifier::external_body]
fn encode_png(width: u32, height: u32, rgba: Vec<u8>) -> (r: Option<Vec<u8>>)
    ensures
        match r {
            Some(v) => png_encoding(width, height, rgba@) == Some(v@),
            None => png_encoding(width, height, rgba@) is None,
        },
        rgba@.len() < 4 * width * height ==> r is None,
{
    let img = image::RgbaImage::from_raw(width, height, rgba)?;
    let mut png_buf = Vec::new();
    img.write_to(&mut std::io::Cursor::new(&mut png_buf), image::ImageFormat::Png).ok()?;
    Some(png_buf)
}

/// Standard base64 with padding (`base64::engine::general_purpose::STANDARD.encode`).
#[verifier::external_body]
fn base64_standard(data: &[u8]) -> (r: String)
    ensures
        r@ == b64_encode_spec(data@),
{
    base64::engine::general_purpose::STANDARD.encode(data)
}

/// Each four-byte pixel with its first and third byte swapped (BGRA to RGBA); a
/// trailing partial pixel is dropped.
pub open spec fn rgba_of(bgra: Seq<u8>) -> Seq<u8> {
    Seq::new(
        (bgra.len() / 4 * 4) as nat,
        |i: int| {
            let base = i - i % 4;
            if i % 4 == 0 {
                bgra[base + 2]
            } else if i % 4 == 2 {
                bgra[base]
            } else {
                bgra[i]
            }
        },
    )
}

/// BGRA pixels reordered to RGBA.
pub fn bgra_to_rgba(bgra: &[u8]) -> (r: Vec<u8>)
    ensures
        r@ == rgba_of(bgra@),
{
    let n = bgra.len() / 4;
    let mut r: Vec<u8> = Vec::new();
    let mut k: usize = 0;
    let mut b: usize = 0;
    while k < n
        invariant
            n == bgra@.len() / 4,
            k <= n,
            b == 4 * k,
            r@.len() == 4 * k,
            forall|i: int| 0 <= i < 4 * k ==> r@[i] == #[trigger] rgba_of(bgra@)[i],
        decreases n - k,
    {
        assert(4 * k + 4 <= bgra@.len()) by (nonlinear_arith)
            requires
                k < n,
                n == bgra@.len() / 4,
        ;
        r.push(bgra[b + 2]);
        r.push(bgra[b + 1]);
        r.push(bgra[b]);
        r.push(bgra[b + 3]);
        proof {
            assert forall|i: int| 4 * k <= i < 4 * k + 4 implies r@[i] == #[trigger] rgba_of(bgra@)[i] by {
                assert(i - i % 4 == 4 * k) by (nonlinear_arith)
                    requires
                        4 * k <= i < 4 * k + 4,
                ;
            }
        }
        k = k + 1;
        b = b + 4;
    }
    assert(r@ =~= rgba_of(bgra@));
    r
}

/// The data URL of a process icon given its BGRA pixels: none for an empty image or
/// when no PNG is written; else `data:image/png;base64,` and the PNG in base64.
pub open spec fn png_data_url_spec(width: u32, height: u32, bgra: Seq<u8>) -> Option<Seq<char>> {
    if width == 0 || height == 0 {
        None
    } else {
        match png_encoding(width, height, rgba_of(bgra)) {
            Some(png) => Some("data:image/png;base64,"@ + b64_encode_spec(png)),
            None => None,
        }
    }
}

/// The data URL of a process icon given its size and BGRA pixels.
pub fn png_data_url(width: u32, height: u32, bgra: &[u8]) -> (r: Option<String>)
    ensures
        match r {
            Some(s) => png_data_url_spec(width, height, bgra@) == Some(s@),
            None => png_data_url_spec(width, height, bgra@) is None,
        },
{
    if width == 0 || height == 0 {
        return None;
    }
    let rgba = bgra_to_rgba(bgra);
    let png = encode_png(width, height, rgba);
    match png {
        Some(p) => {
            let mut v = chars_of("data:image/png;base64,");
            let b = base64_standard(&p);
            push_str(&mut v, b.as_str());
            Some(string_of(&v))
        },
        None => None,
    }
}

} // verus!
