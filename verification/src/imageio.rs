use vstd::prelude::*;

use crate::sampler::GrayBuffer;
use crate::sampler::RgbaBuffer;

verus! {

/// Whether the image crate's format guessing and decoding succeed on a
/// byte buffer: a function of the bytes alone.
pub uninterp spec fn decode_ok(bytes: Seq<u8>) -> bool;

/// The RGBA pixels of a decoded byte buffer after the exact resize to
/// `w x h`: a function of the bytes and the target dimensions alone.
pub uninterp spec fn decoded_rgba_of(bytes: Seq<u8>, w: int, h: int) -> Seq<u8>;

/// The image crate's luminance of one RGBA pixel: its fixed sRGB luma
/// weights over the first three channels, the alpha channel ignored.
pub open spec fn luma_of_pixel(r: int, g: int, b: int) -> int {
    (2126 * r + 7152 * g + 722 * b) / 10000
}

/// The image crate's RGBA-to-luminance conversion: one luminance byte
/// per four input bytes.
pub open spec fn luma_seq_of(rgba: Seq<u8>) -> Seq<u8> {
    Seq::new(
        rgba.len() / 4,
        |i: int| luma_of_pixel(
            rgba[4 * i] as int, rgba[4 * i + 1] as int, rgba[4 * i + 2] as int,
        ) as u8,
    )
}

/// Relies on image::load_from_memory, which decodes the byte buffer or
/// reports why it cannot, deterministically in the bytes; on
/// image::DynamicImage::resize_exact, which returns an image of exactly
/// the requested dimensions; and on image::DynamicImage::to_rgba8 with
/// ImageBuffer::into_raw, which yield the pixels as four bytes each,
/// row-major. The `requires` guards the buffer-length overflow.
#[verifier::external_body]
pub(crate) fn decode_and_resize(bytes: &[u8], w: u32, h: u32) -> (r: Result<RgbaBuffer, String>)
    requires
        4 * (w as int) * (h as int) <= usize::MAX,
    ensures
        r is Ok <==> decode_ok(bytes@),
        r matches Ok(buf) ==> {
            &&& buf.width == w
            &&& buf.height == h
            &&& buf.wf()
            &&& buf.data@ == decoded_rgba_of(bytes@, w as int, h as int)
        },
{
    match image::load_from_memory(bytes) {
        Ok(img) => {
            let resized = img.resize_exact(w, h, image::imageops::FilterType::Lanczos3);
            let data = resized.to_rgba8().into_raw();
            Ok(RgbaBuffer { width: w, height: h, data })
        },
        Err(e) => Err(format!("failed to decode image: {}", e)),
    }
}

/// Relies on image::DynamicImage::into_luma8: converts each RGBA pixel
/// to one luminance byte by the crate's fixed sRGB luma formula —
/// `(2126*r + 7152*g + 722*b) / 10000`, truncating — keeping the
/// dimensions.
#[verifier::external_body]
pub(crate) fn rgba_to_luma(buf: &RgbaBuffer) -> (r: GrayBuffer)
    requires
        buf.wf(),
    ensures
        r.width == buf.width,
        r.height == buf.height,
        r.wf(),
        r.data@ == luma_seq_of(buf.data@),
{
    let img = image::RgbaImage::from_raw(buf.width, buf.height, buf.data.clone())
        .expect("buffer length matches the dimensions");
    let gray = image::DynamicImage::ImageRgba8(img).into_luma8();
    GrayBuffer { width: buf.width, height: buf.height, data: gray.into_raw() }
}

} // verus!
