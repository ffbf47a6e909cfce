//! The boundary to the PNG encoder.

use vstd::prelude::*;

verus! {

/// The PNG stream the encoder produces for the given packed pixels and
/// dimensions: a deterministic byte computation (signature, header chunk,
/// store-mode compression and checksums) over them alone. The pixels are
/// reinterpreted as raw bytes on the way in, so the stream also depends on
/// the target's byte order: the name is well-defined on any one target.
pub uninterp spec fn png_stream(image: Seq<u32>, w: u32, h: u32) -> Seq<u8>;

/// Relies on png_encode_mini::write_rgba_from_u32: a pure byte computation
/// over the pixels and dimensions, written to the given sink. It asserts
/// that the buffer length matches the dimensions, and its row walk needs
/// at least one column and one row; within that domain every write goes to
/// the in-memory buffer, which cannot fail, so the call always succeeds.
#[verifier::external_body]
pub fn encode_png(image: &Vec<u32>, w: u32, h: u32) -> (r: Vec<u8>)
    requires
        image@.len() == w * h,
        w >= 1,
        h >= 1,
        4 * w <= u32::MAX,
        (4 * w + 1) * h <= u32::MAX,
    ensures
        r@ == png_stream(image@, w, h),
{
    let mut out: Vec<u8> = Vec::new();
    png_encode_mini::write_rgba_from_u32(&mut out, image.as_slice(), w, h).unwrap();
    out
}

} // verus!
