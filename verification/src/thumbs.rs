//! Thumbnail creation from an image's bytes.
//!
//! The image work itself is the image crate's: decoding the original's
//! bytes, scaling them down to fit the fixed bounding box with the aspect
//! ratio preserved, and encoding the result in the format named by the
//! original's file extension.  Each of those results depends on its
//! arguments alone, so each is given a name here, and the whole computation
//! is pinned as a function of the original's bytes and extension: two runs
//! on the same input produce the same bytes, which is what makes the
//! unlocked existence-check-then-write race between concurrent requests
//! benign.

use vstd::prelude::*;
use crate::content::lower_seq;

verus! {

/// The bounding box a thumbnail is scaled into, in pixels per side.
pub const THUMB_BOUND: u32 = 100;

/// Why a thumbnail could not be made from an original's bytes.
#[derive(Debug, Clone, Copy, PartialEq, Eq)]
pub enum ThumbError {
    /// The file's extension names no encodable image format.
    UnsupportedFormat,
    /// The original's bytes could not be decoded as an image.
    Decode,
    /// The scaled-down image could not be encoded.
    Encode,
}

/// The file extensions for which the image crate knows a format, after
/// ASCII lowercasing.
pub open spec fn spec_known_format_ext(e: Seq<char>) -> bool {
    e == "avif"@ || e == "jpg"@ || e == "jpeg"@ || e == "jfif"@ || e == "png"@ || e == "apng"@
        || e == "gif"@ || e == "webp"@ || e == "tif"@ || e == "tiff"@ || e == "tga"@ || e == "dds"@
        || e == "bmp"@ || e == "ico"@ || e == "hdr"@ || e == "exr"@ || e == "pbm"@ || e == "pam"@
        || e == "ppm"@ || e == "pgm"@ || e == "pnm"@ || e == "ff"@ || e == "qoi"@
}

/// Whether a byte string decodes as an image.
pub uninterp spec fn spec_decode_ok(data: Seq<u8>) -> bool;

/// The dimensions of the image a byte string decodes to.
pub uninterp spec fn spec_decoded_dims(data: Seq<u8>) -> (u32, u32);

/// The dimensions an image of size `w` by `h` is scaled to when made to
/// fit within `max_w` by `max_h` with its aspect ratio preserved.
pub uninterp spec fn spec_scaled_dims(w: u32, h: u32, max_w: u32, max_h: u32) -> (u32, u32);

/// Whether the image decoded from `src`, scaled to fit within `max_w` by
/// `max_h`, encodes in the format the lowercased extension `ext` names.
pub uninterp spec fn spec_encode_ok(src: Seq<u8>, max_w: u32, max_h: u32, ext: Seq<char>) -> bool;

/// The thumbnail's bytes: the image decoded from `src`, scaled to fit
/// within `max_w` by `max_h`, encoded in the format the lowercased
/// extension `ext` names.
pub uninterp spec fn spec_thumb_bytes(src: Seq<u8>, max_w: u32, max_h: u32, ext: Seq<char>) -> Seq<
    u8,
>;

/// Relies on image::ImageFormat::from_extension (a format is known for
/// exactly its fixed list of lowercased extensions), image::load_from_memory,
/// image::DynamicImage::thumbnail (the scaled size fits within the given
/// bounds) and image::DynamicImage::write_to.  Each call's result depends
/// on its arguments alone, and the encoded bytes decode again to an image
/// of the size that was encoded.
#[verifier::external_body]
fn thumbnail_pipeline(data: &Vec<u8>, extension: &str, max_w: u32, max_h: u32) -> (r: Result<
    Vec<u8>,
    ThumbError,
>)
    requires
        1 <= max_w,
        1 <= max_h,
    ensures
        r matches Err(ThumbError::UnsupportedFormat) <==> !spec_known_format_ext(
            lower_seq(extension@),
        ),
        r matches Err(ThumbError::Decode) <==> (spec_known_format_ext(lower_seq(extension@))
            && !spec_decode_ok(data@)),
        r is Ok ==> spec_encode_ok(data@, max_w, max_h, lower_seq(extension@)),
        r matches Err(e) ==> (e is UnsupportedFormat || e is Decode || !spec_encode_ok(
            data@,
            max_w,
            max_h,
            lower_seq(extension@),
        )),
        r matches Ok(b) ==> b@ == spec_thumb_bytes(data@, max_w, max_h, lower_seq(extension@)),
        r matches Ok(b) ==> spec_decoded_dims(b@) == spec_scaled_dims(
            spec_decoded_dims(data@).0,
            spec_decoded_dims(data@).1,
            max_w,
            max_h,
        ),
        r matches Ok(b) ==> spec_decoded_dims(b@).0 <= max_w,
        r matches Ok(b) ==> spec_decoded_dims(b@).1 <= max_h,
{
    let format = match image::ImageFormat::from_extension(extension) {
        Some(f) => f,
        None => return Err(ThumbError::UnsupportedFormat),
    };
    let img = match image::load_from_memory(data.as_slice()) {
        Ok(i) => i,
        Err(_) => return Err(ThumbError::Decode),
    };
    let mut cursor = std::io::Cursor::new(Vec::new());
    match img.thumbnail(max_w, max_h).write_to(&mut cursor, format) {
        Ok(()) => Ok(cursor.into_inner()),
        Err(_) => Err(ThumbError::Encode),
    }
}

/// What making a thumbnail from an original's bytes and extension returns:
/// each error names the first stage that cannot be done, and success
/// carries the thumbnail's bytes.
pub open spec fn spec_thumbnail_result(data: Seq<u8>, ext: Seq<char>) -> Result<
    Seq<u8>,
    ThumbError,
> {
    let e = lower_seq(ext);
    if !spec_known_format_ext(e) {
        Err(ThumbError::UnsupportedFormat)
    } else if !spec_decode_ok(data) {
        Err(ThumbError::Decode)
    } else if !spec_encode_ok(data, THUMB_BOUND, THUMB_BOUND, e) {
        Err(ThumbError::Encode)
    } else {
        Ok(spec_thumb_bytes(data, THUMB_BOUND, THUMB_BOUND, e))
    }
}

/// Make the thumbnail for an original image: its bytes decoded, scaled
/// down to fit the fixed bounding box with the aspect ratio preserved, and
/// encoded again in the format the file's extension names.  The result is
/// a function of the bytes and the extension alone, and a produced
/// thumbnail's dimensions fit within the bounding box.
pub fn thumbnail_bytes(data: &Vec<u8>, extension: &str) -> (r: Result<Vec<u8>, ThumbError>)
    ensures
        r matches Ok(b) ==> spec_thumbnail_result(data@, extension@) == Ok::<Seq<u8>, ThumbError>(
            b@,
        ),
        r matches Err(e) ==> spec_thumbnail_result(data@, extension@) == Err::<Seq<u8>, ThumbError>(
            e,
        ),
        r matches Ok(b) ==> spec_decoded_dims(b@) == spec_scaled_dims(
            spec_decoded_dims(data@).0,
            spec_decoded_dims(data@).1,
            THUMB_BOUND,
            THUMB_BOUND,
        ),
        r matches Ok(b) ==> spec_decoded_dims(b@).0 <= THUMB_BOUND && spec_decoded_dims(b@).1
            <= THUMB_BOUND,
{
    thumbnail_pipeline(data, extension, THUMB_BOUND, THUMB_BOUND)
}

/// Determinism of thumbnail creation, which makes the unlocked
/// check-then-write race between concurrent requests benign: on equal
/// bytes and equal extensions, the computation's result is equal.
pub proof fn lemma_thumbnail_deterministic(
    data1: Seq<u8>,
    ext1: Seq<char>,
    data2: Seq<u8>,
    ext2: Seq<char>,
)
    requires
        data1 == data2,
        ext1 == ext2,
    ensures
        spec_thumbnail_result(data1, ext1) == spec_thumbnail_result(data2, ext2),
{
}

} // verus!
