//! The image codecs: one decoder, the resampler and three encoders, each
//! behind one call on plain pixels.

use image::ImageEncoder;
use vstd::prelude::*;
use crate::classify::ImageKind;

verus! {

/// The pixels of the `new_width` by `new_height` thumbnail of the `width` by
/// `height` picture with the pixels `rgba`.
pub uninterp spec fn thumbnail_pixels(
    rgba: Seq<u8>,
    width: u32,
    height: u32,
    new_width: u32,
    new_height: u32,
) -> Seq<u8>;

/// The JPEG file for the `width` by `height` picture with the pixels `rgb`,
/// three bytes each, at the encoder's default quality; or `None` where the
/// encoder refuses the picture.
pub uninterp spec fn jpeg_file(rgb: Seq<u8>, width: u32, height: u32) -> Option<Seq<u8>>;

/// The PNG file for the `width` by `height` picture with the pixels `rgba`,
/// four bytes each, with the encoder's default settings; or `None` where the
/// encoder refuses the picture.
pub uninterp spec fn png_file(rgba: Seq<u8>, width: u32, height: u32) -> Option<Seq<u8>>;

/// Decodes `content` with `image::ImageReader::decode`, the reader's format
/// set to `kind` or cleared where there is none, and turns the image into
/// eight-bit RGBA with `image::DynamicImage::into_rgba8`. Returns the width,
/// the height and the pixels.
///
/// Trusted: a reader without a format decodes nothing, and the pixels that
/// come back are four bytes for each of width times height pixels. Nothing
/// is claimed of what they hold, nor of which bytes a format takes: the
/// decoders pick their routines by the processor they find.
#[verifier::external_body]
pub(crate) fn decode_rgba(content: &[u8], kind: Option<ImageKind>) -> (r: Result<
    (u32, u32, Vec<u8>),
    image::ImageError,
>)
    ensures
        kind.is_none() ==> r.is_err(),
        r matches Ok(picture) ==> picture.2@.len() == 4 * picture.0 * picture.1,
{
    let mut reader = image::ImageReader::new(std::io::Cursor::new(content));
    match kind {
        Some(ImageKind::Png) => reader.set_format(image::ImageFormat::Png),
        Some(ImageKind::Jpeg) => reader.set_format(image::ImageFormat::Jpeg),
        Some(ImageKind::Bmp) => reader.set_format(image::ImageFormat::Bmp),
        Some(ImageKind::Avif) => reader.set_format(image::ImageFormat::Avif),
        Some(ImageKind::WebP) => reader.set_format(image::ImageFormat::WebP),
        None => reader.clear_format(),
    }
    let image = reader.decode()?.into_rgba8();
    Ok((image.width(), image.height(), image.into_raw()))
}

/// Resamples with `image::imageops::thumbnail`, on the pixels wrapped by
/// `image::ImageBuffer::from_raw`.
///
/// Trusted: for pixels that are as many as the sides say, the result is
/// there, is `thumbnail_pixels` of the arguments, and holds four bytes for
/// each of `new_width` times `new_height` pixels.
#[verifier::external_body]
pub(crate) fn thumbnail_rgba(
    rgba: &[u8],
    width: u32,
    height: u32,
    new_width: u32,
    new_height: u32,
) -> (r: Option<Vec<u8>>)
    requires
        rgba@.len() == 4 * width * height,
        new_width <= width,
        new_height <= height,
    ensures
        r.is_some(),
        r matches Some(out) ==> out@ == thumbnail_pixels(
            rgba@,
            width,
            height,
            new_width,
            new_height,
        ),
        r matches Some(out) ==> out@.len() == 4 * new_width * new_height,
{
    let source = image::ImageBuffer::<image::Rgba<u8>, &[u8]>::from_raw(width, height, rgba)?;
    Some(image::imageops::thumbnail(&source, new_width, new_height).into_raw())
}

/// Encodes with `image::codecs::avif::AvifEncoder`, made by `new`, through
/// `write_image` with the colour type `Rgba8`.
///
/// Nothing is claimed of the result: the encoder lays its tiles out by the
/// number of processors it finds.
#[verifier::external_body]
pub(crate) fn encode_avif(rgba: &[u8], width: u32, height: u32) -> (r: Result<
    Vec<u8>,
    image::ImageError,
>)
    requires
        rgba@.len() == 4 * width * height,
{
    let mut out = Vec::new();
    image::codecs::avif::AvifEncoder::new(&mut out).write_image(
        rgba,
        width,
        height,
        image::ExtendedColorType::Rgba8,
    )?;
    Ok(out)
}

/// Encodes with `image::codecs::jpeg::JpegEncoder`, made by `new`, through
/// `write_image` with the colour type `Rgb8`.
///
/// Trusted: what was written is `jpeg_file` of the arguments, and the
/// encoder fails exactly where that is `None`.
#[verifier::external_body]
pub(crate) fn encode_jpeg(rgb: &[u8], width: u32, height: u32) -> (r: Result<
    Vec<u8>,
    image::ImageError,
>)
    requires
        rgb@.len() == 3 * width * height,
    ensures
        match r {
            Ok(out) => jpeg_file(rgb@, width, height) == Some(out@),
            Err(_) => jpeg_file(rgb@, width, height).is_none(),
        },
{
    let mut out = Vec::new();
    image::codecs::jpeg::JpegEncoder::new(&mut out).write_image(
        rgb,
        width,
        height,
        image::ExtendedColorType::Rgb8,
    )?;
    Ok(out)
}

/// Encodes with `image::codecs::png::PngEncoder`, made by `new`, through
/// `write_image` with the colour type `Rgba8`.
///
/// Trusted: what was written is `png_file` of the arguments, and the encoder
/// fails exactly where that is `None`.
#[verifier::external_body]
pub(crate) fn encode_png(rgba: &[u8], width: u32, height: u32) -> (r: Result<
    Vec<u8>,
    image::ImageError,
>)
    requires
        rgba@.len() == 4 * width * height,
    ensures
        match r {
            Ok(out) => png_file(rgba@, width, height) == Some(out@),
            Err(_) => png_file(rgba@, width, height).is_none(),
        },
{
    let mut out = Vec::new();
    image::codecs::png::PngEncoder::new(&mut out).write_image(
        rgba,
        width,
        height,
        image::ExtendedColorType::Rgba8,
    )?;
    Ok(out)
}

} // verus!
