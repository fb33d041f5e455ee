//! Bitmaps as the controller sends them: base64 text that holds raw RGB
//! pixels, three bytes each.

use vstd::prelude::*;
use vstd::string::*;
use base64::Engine;

verus! {

/// What standard base64 without padding decodes a text to: the bytes, or
/// `None` where the text is not such an encoding.
pub uninterp spec fn base64_decoded(text: Seq<u8>) -> Option<Seq<u8>>;

/// `STANDARD_NO_PAD.decode` of the base64 crate: the decoded bytes, or `None`
/// where the engine reports an error.
#[verifier::external_body]
pub(crate) fn decode_base64(text: &str) -> (r: Option<Vec<u8>>)
    ensures
        match r {
            Some(bytes) => base64_decoded(text.spec_bytes()) == Some(bytes@),
            None => base64_decoded(text.spec_bytes()) is None,
        },
{
    base64::engine::general_purpose::STANDARD_NO_PAD.decode(text.as_bytes()).ok()
}

/// Number of bytes that an RGB image of the given size takes.
pub open spec fn rgb_len(width: int, height: int) -> int {
    width * height * 3
}

/// Number of bytes that an RGB image of the given size takes.
pub fn rgb_size(width: u16, height: u16) -> (r: u64)
    ensures
        r == rgb_len(width as int, height as int),
{
    assert(0 <= width * height <= 0xffff * 0xffff) by (nonlinear_arith)
        requires
            0 <= width <= 0xffff,
            0 <= height <= 0xffff,
    ;
    (width as u64) * (height as u64) * 3
}

/// `DynamicImage::resize_exact` of the image crate with the Gaussian filter,
/// on an RGB image given as raw bytes: the image scaled to `new_width` by
/// `new_height`, whatever its own proportions. Returns the new pixels, of
/// which nothing is known here but their number.
#[verifier::external_body]
pub(crate) fn resize_rgb(
    width: u16,
    height: u16,
    pixels: Vec<u8>,
    new_width: u16,
    new_height: u16,
) -> (r: Vec<u8>)
    requires
        width >= 1,
        height >= 1,
        new_width >= 1,
        new_height >= 1,
        pixels@.len() == rgb_len(width as int, height as int),
    ensures
        r@.len() == rgb_len(new_width as int, new_height as int),
{
    let buffer = image::RgbImage::from_vec(width as u32, height as u32, pixels).unwrap();
    let scaled = image::DynamicImage::ImageRgb8(buffer).resize_exact(
        new_width as u32,
        new_height as u32,
        image::imageops::FilterType::Gaussian,
    );
    scaled.into_bytes()
}

} // verus!
