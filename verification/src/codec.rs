//! Decoding and encoding of images, done by the `image` crate. What stands in
//! this file is taken on trust: the verifier does not see inside the crate.

use vstd::prelude::*;

verus! {

/// The error type of the `image` crate, carried through unopened.
#[verifier::external_type_specification]
#[verifier::external_body]
pub struct ExImageError(image::ImageError);

/// What `image::load_from_memory`, followed by the conversion to eight-bit
/// RGBA, makes of the bytes of an encoded image: width, height and the pixels'
/// bytes, rows from the top; nothing where it reports an error.
pub uninterp spec fn decoded_image(encoded: Seq<u8>) -> Option<(u32, u32, Seq<u8>)>;

/// What the PNG encoder of the `image` crate writes for a frame of `width` by
/// `height` with the eight-bit RGBA bytes `pixels`; nothing where it reports
/// an error.
pub uninterp spec fn png_encoded(width: u32, height: u32, pixels: Seq<u8>) -> Option<Seq<u8>>;

/// Calls `image::load_from_memory` on `encoded` and converts the image to
/// eight-bit RGBA with `DynamicImage::to_rgba8`. The contract only gives the
/// outcome its name, `decoded_image`: the format is guessed from the bytes
/// and the decoding is a function of the bytes alone.
#[verifier::external_body]
pub(crate) fn load_rgba8(encoded: &[u8]) -> (loaded: Result<(u32, u32, Vec<u8>), image::ImageError>)
    ensures
        match loaded {
            Ok(parts) => decoded_image(encoded@) == Some((parts.0, parts.1, parts.2@)),
            Err(_) => decoded_image(encoded@) is None,
        },
{
    let frame = image::load_from_memory(encoded)?.to_rgba8();
    Ok((frame.width(), frame.height(), frame.into_raw()))
}

/// Calls `PngEncoder::write_image` of the `image` crate, with the colour type
/// `Rgba8`, on a writer over a fresh vector. The encoder panics unless
/// `pixels` holds four bytes for each pixel, which the precondition asks for.
/// The contract only gives the outcome its name, `png_encoded`.
#[verifier::external_body]
pub(crate) fn write_png(width: u32, height: u32, pixels: &[u8]) -> (written: Result<
    Vec<u8>,
    image::ImageError,
>)
    requires
        pixels@.len() == 4 * (width * height),
    ensures
        match written {
            Ok(bytes) => png_encoded(width, height, pixels@) == Some(bytes@),
            Err(_) => png_encoded(width, height, pixels@) is None,
        },
{
    let mut out: Vec<u8> = Vec::new();
    let encoder = image::codecs::png::PngEncoder::new(&mut out);
    image::ImageEncoder::write_image(encoder, pixels, width, height, image::ColorType::Rgba8)?;
    Ok(out)
}

} // verus!
