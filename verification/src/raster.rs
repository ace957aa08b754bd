//! Raster buffers as the `image` crate holds them, and the still-image files
//! that it encodes them into.

use vstd::prelude::*;

verus! {

/// A raster of four bytes per pixel (red, green, blue, alpha), held by the
/// `image` crate.
#[verifier::external_body]
pub struct RgbaRaster {
    inner: image::RgbaImage,
}

/// A raster of three bytes per pixel (red, green, blue), held by the `image`
/// crate.
#[verifier::external_body]
pub struct RgbRaster {
    inner: image::RgbImage,
}

/// Width in pixels of a raster with alpha.
pub uninterp spec fn rgba_width(raster: RgbaRaster) -> u32;

/// Height in pixels of a raster with alpha.
pub uninterp spec fn rgba_height(raster: RgbaRaster) -> u32;

/// The bytes of a raster with alpha, row by row.
pub uninterp spec fn rgba_samples(raster: RgbaRaster) -> Seq<u8>;

/// Width in pixels of a raster without alpha.
pub uninterp spec fn rgb_width(raster: RgbRaster) -> u32;

/// Height in pixels of a raster without alpha.
pub uninterp spec fn rgb_height(raster: RgbRaster) -> u32;

/// The bytes of a raster without alpha, row by row.
pub uninterp spec fn rgb_samples(raster: RgbRaster) -> Seq<u8>;

/// The file that the `image` crate writes for a raster of eight-bit samples:
/// a JPEG if `jpeg` is set and a PNG otherwise, of pixels with or without
/// alpha. It is the bytes of the file, or the words of the crate's error.
pub uninterp spec fn encoded_image(jpeg: bool, alpha: bool, width: u32, height: u32, samples: Seq<u8>) -> Result<
    Seq<u8>,
    Seq<char>,
>;

/// `ImageBuffer::from_raw` for pixels with alpha. It accepts the buffer when
/// it holds at least four bytes for each pixel, keeps it whole, and refuses
/// every shorter one.
#[verifier::external_body]
pub(crate) fn rgba_from_raw(width: u32, height: u32, data: Vec<u8>) -> (r: Option<RgbaRaster>)
    ensures
        r is Some <==> 4 * width * height <= data@.len(),
        r matches Some(raster) ==> rgba_width(raster) == width && rgba_height(raster) == height && rgba_samples(raster)
            == data@,
{
    image::RgbaImage::from_raw(width, height, data).map(|inner| RgbaRaster { inner })
}

/// `ImageBuffer::into_raw`: the buffer that the raster was made of.
#[verifier::external_body]
pub(crate) fn rgba_into_raw(raster: RgbaRaster) -> (r: Vec<u8>)
    ensures
        r@ == rgba_samples(raster),
{
    raster.inner.into_raw()
}

/// `ConvertBuffer::convert` from pixels with alpha to pixels without: the
/// same pixels in the same order, each without its fourth byte.
#[verifier::external_body]
pub(crate) fn rgba_to_rgb(raster: &RgbaRaster) -> (r: RgbRaster)
    ensures
        rgb_width(r) == rgba_width(*raster),
        rgb_height(r) == rgba_height(*raster),
        rgb_samples(r) == without_alpha(rgba_samples(*raster), rgba_width(*raster) * rgba_height(*raster)),
{
    RgbRaster { inner: image::buffer::ConvertBuffer::convert(&raster.inner) }
}

/// The first `pixels` pixels of `samples` without their alpha bytes.
pub open spec fn without_alpha(samples: Seq<u8>, pixels: int) -> Seq<u8> {
    Seq::new((3 * pixels) as nat, |i: int| samples[4 * (i / 3) + i % 3])
}

/// `ImageBuffer::write_to` as PNG, for pixels with alpha, into memory.
#[verifier::external_body]
pub(crate) fn write_png_rgba(raster: &RgbaRaster) -> (r: Result<Vec<u8>, String>)
    ensures
        same_outcome(
            r,
            encoded_image(
                false,
                true,
                rgba_width(*raster),
                rgba_height(*raster),
                rgba_samples(*raster).take(4 * rgba_width(*raster) * rgba_height(*raster)),
            ),
        ),
{
    let mut encoded = Vec::new();
    let mut cursor = std::io::Cursor::new(&mut encoded);
    match raster.inner.write_to(&mut cursor, image::ImageFormat::Png) {
        Ok(()) => Ok(encoded),
        Err(error) => Err(error.to_string()),
    }
}

/// `ImageBuffer::write_to` as PNG, for pixels without alpha, into memory.
#[verifier::external_body]
pub(crate) fn write_png_rgb(raster: &RgbRaster) -> (r: Result<Vec<u8>, String>)
    ensures
        same_outcome(r, encoded_image(false, false, rgb_width(*raster), rgb_height(*raster), rgb_samples(*raster))),
{
    let mut encoded = Vec::new();
    let mut cursor = std::io::Cursor::new(&mut encoded);
    match raster.inner.write_to(&mut cursor, image::ImageFormat::Png) {
        Ok(()) => Ok(encoded),
        Err(error) => Err(error.to_string()),
    }
}

/// `ImageBuffer::write_to` as JPEG, for pixels without alpha, into memory.
#[verifier::external_body]
pub(crate) fn write_jpeg_rgb(raster: &RgbRaster) -> (r: Result<Vec<u8>, String>)
    ensures
        same_outcome(r, encoded_image(true, false, rgb_width(*raster), rgb_height(*raster), rgb_samples(*raster))),
{
    let mut encoded = Vec::new();
    let mut cursor = std::io::Cursor::new(&mut encoded);
    match raster.inner.write_to(&mut cursor, image::ImageFormat::Jpeg) {
        Ok(()) => Ok(encoded),
        Err(error) => Err(error.to_string()),
    }
}

/// The outcome of an encoding is the named one: the same bytes, or the same
/// words of the error.
pub open spec fn same_outcome(got: Result<Vec<u8>, String>, named: Result<Seq<u8>, Seq<char>>) -> bool {
    match got {
        Ok(bytes) => named == Ok::<Seq<u8>, Seq<char>>(bytes@),
        Err(words) => named == Err::<Seq<u8>, Seq<char>>(words@),
    }
}

} // verus!
