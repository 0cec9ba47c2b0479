//! The preprocessing boundary with the external image crate: grayscale
//! conversion and resampling of a decoded color image, yielding the
//! `GrayscaleImage` buffer that the hash algorithms consume.
//!
//! Every call into the image crate stands behind a trusted wrapper whose
//! contract states only what the crate's own code shows. Each call's result
//! is a function of its arguments alone, so it carries a name (`gray_of`,
//! `lanczos3_resized_of`, `resized_of`, `luma_seq_of`): the hash contracts
//! then pin their bits to the named preprocessing pipeline of the input
//! image.

use vstd::prelude::*;

use crate::grayscale::GrayscaleImage;

verus! {

#[verifier::external_type_specification]
#[verifier::external_body]
pub struct ExDynamicImage(image::DynamicImage);

#[verifier::external_type_specification]
#[verifier::external_body]
pub struct ExFilterType(image::imageops::FilterType);

/// The pixel width that `image::DynamicImage::width` reports.
pub uninterp spec fn image_width(img: image::DynamicImage) -> u32;

/// The pixel height that `image::DynamicImage::height` reports.
pub uninterp spec fn image_height(img: image::DynamicImage) -> u32;

/// What `image::DynamicImage::grayscale` returns: the grayscale rendering of
/// the image, a function of the image value alone.
pub uninterp spec fn gray_of(img: image::DynamicImage) -> image::DynamicImage;

/// What `image::DynamicImage::resize_exact` with the Lanczos3 filter
/// returns: the resampling of the image to the given size, a function of the
/// image and the target size alone.
pub uninterp spec fn lanczos3_resized_of(
    img: image::DynamicImage,
    width: int,
    height: int,
) -> image::DynamicImage;

/// What `image::DynamicImage::resize_exact` with the given filter returns: a
/// function of the image, the target size and the filter alone.
pub uninterp spec fn resized_of(
    img: image::DynamicImage,
    width: int,
    height: int,
    filter: image::imageops::FilterType,
) -> image::DynamicImage;

/// The luminance rendering of the image that `to_luma8` computes: one byte
/// per pixel, row-major, a function of the image value alone.
pub uninterp spec fn luma_seq_of(img: image::DynamicImage) -> Seq<u8>;

/// Relies on image::DynamicImage::width: reads the width of the pixel grid.
pub assume_specification[ image::DynamicImage::width ](img: &image::DynamicImage) -> (r: u32)
    ensures
        r == image_width(*img),
;

/// Relies on image::DynamicImage::height: reads the height of the pixel grid.
pub assume_specification[ image::DynamicImage::height ](img: &image::DynamicImage) -> (r: u32)
    ensures
        r == image_height(*img),
;

/// The resampling strategy of a hasher configuration: the default Lanczos
/// (3-lobe) windowed-sinc filter, or any other resampling filter of the
/// image crate.
pub enum Resizer {
    /// The default: `image::DynamicImage::resize_exact` with the Lanczos3
    /// filter.
    Lanczos3,
    /// `image::DynamicImage::resize_exact` with the given filter.
    Filter(image::imageops::FilterType),
}

/// Relies on image::DynamicImage::grayscale: the conversion maps each pixel
/// to its luminance, keeping the image's dimensions, and depends on the
/// image alone.
#[verifier::external_body]
fn to_grayscale(img: &image::DynamicImage) -> (r: image::DynamicImage)
    ensures
        r == gray_of(*img),
        image_width(r) == image_width(*img),
        image_height(r) == image_height(*img),
{
    img.grayscale()
}

/// Relies on image::DynamicImage::resize_exact (here with the Lanczos3
/// filter): the result depends on the image and the target size alone and
/// has exactly the requested dimensions; a zero-area source yields a blank
/// image of those dimensions rather than an error.
#[verifier::external_body]
fn resize_lanczos3(img: &image::DynamicImage, width: u32, height: u32) -> (r: image::DynamicImage)
    ensures
        r == lanczos3_resized_of(*img, width as int, height as int),
        image_width(r) == width,
        image_height(r) == height,
{
    img.resize_exact(width, height, image::imageops::FilterType::Lanczos3)
}

/// Relies on image::DynamicImage::resize_exact: whatever the filter, the
/// result depends on the image, the target size and the filter alone and
/// has exactly the requested dimensions; a zero-area source yields a blank
/// image of those dimensions rather than an error.
#[verifier::external_body]
fn resize_with(
    img: &image::DynamicImage,
    width: u32,
    height: u32,
    filter: image::imageops::FilterType,
) -> (r: image::DynamicImage)
    ensures
        r == resized_of(*img, width as int, height as int, filter),
        image_width(r) == width,
        image_height(r) == height,
{
    img.resize_exact(width, height, filter)
}

/// Relies on image::DynamicImage::to_luma8 and image::ImageBuffer::into_raw:
/// the luminance bytes of the image, one per pixel and row-major, are the
/// first width * height bytes of the returned buffer. (The buffer can be
/// longer: an image built over an oversized raw container keeps that
/// container, and `into_raw` returns it whole.)
#[verifier::external_body]
fn luma8_pixels(img: &image::DynamicImage) -> (r: Vec<u8>)
    ensures
        r@.len() >= image_width(*img) * image_height(*img),
        r@.subrange(0, image_width(*img) * image_height(*img)) == luma_seq_of(*img),
{
    img.to_luma8().into_raw()
}

/// Converts an external image to grayscale, resamples it to exactly the
/// target width and height with the given strategy, and wraps the luminance
/// samples as a `GrayscaleImage` of those dimensions, holding exactly the
/// named luminance bytes of the named resampling of the grayscale image.
pub fn preprocess(
    img: &image::DynamicImage,
    resizer: &Resizer,
    width: usize,
    height: usize,
) -> (r: GrayscaleImage)
    requires
        width <= u32::MAX,
        height <= u32::MAX,
    ensures
        r.wf(),
        r.spec_width() == width,
        r.spec_height() == height,
        *resizer is Lanczos3 ==> r.pixel_seq() == luma_seq_of(
            lanczos3_resized_of(gray_of(*img), width as int, height as int),
        ),
        *resizer matches Resizer::Filter(filter) ==> r.pixel_seq() == luma_seq_of(
            resized_of(gray_of(*img), width as int, height as int, filter),
        ),
{
    let gray = to_grayscale(img);
    let resized = match resizer {
        Resizer::Lanczos3 => resize_lanczos3(&gray, width as u32, height as u32),
        Resizer::Filter(filter) => resize_with(&gray, width as u32, height as u32, *filter),
    };
    let mut pixels = luma8_pixels(&resized);
    proof {
        assert(pixels.len() == pixels@.len());
    }
    let sample_count = width * height;
    pixels.truncate(sample_count);
    GrayscaleImage::new(pixels, width, height)
}

} // verus!
