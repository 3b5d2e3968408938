use vstd::prelude::*;
use crate::buffers::{Gray16Image, Gray8Image, Rgb8Image};

verus! {

/// What `image::imageops::blur` returns on a 16-bit single-channel image:
/// a Gaussian blur of the given pixels, a pure function of the pixels, the
/// dimensions and the sigma (whole pixels).
pub uninterp spec fn gauss_blur_u16(pixels: Seq<u16>, width: int, height: int, sigma: int) -> Seq<u16>;

/// What `image::imageops::blur` returns on an 8-bit single-channel image.
pub uninterp spec fn gauss_blur_u8(pixels: Seq<u8>, width: int, height: int, sigma: int) -> Seq<u8>;

/// What `image::imageops::resize` with the Catmull-Rom filter returns on a
/// 16-bit single-channel image, as a function of the pixels, the old and
/// the new dimensions.
pub uninterp spec fn resize_catmullrom_u16(
    pixels: Seq<u16>,
    width: int,
    height: int,
    new_width: int,
    new_height: int,
) -> Seq<u16>;

/// What `image::imageops::resize` with the Catmull-Rom filter returns on
/// an 8-bit three-channel image.
pub uninterp spec fn resize_catmullrom_rgb8(
    pixels: Seq<u8>,
    width: int,
    height: int,
    new_width: int,
    new_height: int,
) -> Seq<u8>;

/// Relies on `image::DynamicImage::blur` on a 16-bit single-channel
/// image: a separable Gaussian blur that keeps the dimensions, is a pure
/// function of pixels and sigma, writes each 16-bit result back
/// saturating (so it cannot fail on any input), and maps an all-zero
/// image to an all-zero image (every kernel-weighted sum of zeros is
/// zero).
#[verifier::external_body]
pub(crate) fn blur_gray16(img: &Gray16Image, sigma: u16) -> (r: Gray16Image)
    requires
        img.wf(),
        1 <= sigma <= 1000,
    ensures
        r.wf(),
        r.width == img.width,
        r.height == img.height,
        r.data@ == gauss_blur_u16(img.data@, img.width as int, img.height as int, sigma as int),
        (forall|i: int| 0 <= i < img.data@.len() ==> img.data@[i] == 0) ==> (forall|i: int|
            0 <= i < r.data@.len() ==> r.data@[i] == 0),
{
    let buf: image::ImageBuffer<image::Luma<u16>, Vec<u16>> =
        image::ImageBuffer::from_raw(img.width, img.height, img.data.clone()).unwrap();
    let out = image::DynamicImage::ImageLuma16(buf).blur(sigma.into());
    Gray16Image { width: img.width, height: img.height, data: out.into_luma16().into_raw() }
}

/// Relies on `image::imageops::blur` on an 8-bit single-channel image; as
/// for the 16-bit form, the result is a pure function of pixels and sigma
/// and keeps the dimensions.
#[verifier::external_body]
pub(crate) fn blur_gray8(img: &Gray8Image, sigma: u16) -> (r: Gray8Image)
    requires
        img.wf(),
        1 <= sigma <= 1000,
    ensures
        r.wf(),
        r.width == img.width,
        r.height == img.height,
        r.data@ == gauss_blur_u8(img.data@, img.width as int, img.height as int, sigma as int),
{
    let buf: image::ImageBuffer<image::Luma<u8>, Vec<u8>> =
        image::ImageBuffer::from_raw(img.width, img.height, img.data.clone()).unwrap();
    let out = image::imageops::blur(&buf, sigma.into());
    Gray8Image { width: img.width, height: img.height, data: out.into_raw() }
}

/// Relies on `image::imageops::resize` with `FilterType::CatmullRom` on a
/// 16-bit single-channel image: the result has exactly the requested
/// dimensions, is a pure function of pixels and dimensions, and is a copy
/// of the input when the dimensions do not change.
#[verifier::external_body]
pub(crate) fn resize_gray16(img: &Gray16Image, new_width: u32, new_height: u32) -> (r: Gray16Image)
    requires
        img.wf(),
        1 <= new_width,
        1 <= new_height,
        new_width * new_height <= crate::buffers::MAX_BUFFER_LEN,
    ensures
        r.wf(),
        r.width == new_width,
        r.height == new_height,
        r.data@ == resize_catmullrom_u16(
            img.data@,
            img.width as int,
            img.height as int,
            new_width as int,
            new_height as int,
        ),
        img.width == new_width && img.height == new_height ==> r.data@ == img.data@,
{
    let buf: image::ImageBuffer<image::Luma<u16>, Vec<u16>> =
        image::ImageBuffer::from_raw(img.width, img.height, img.data.clone()).unwrap();
    let out = image::imageops::resize(&buf, new_width, new_height,
        image::imageops::FilterType::CatmullRom);
    Gray16Image { width: new_width, height: new_height, data: out.into_raw() }
}

/// Relies on `image::imageops::resize` with `FilterType::CatmullRom` on an
/// 8-bit RGB image: the result has exactly the requested dimensions and is
/// a pure function of pixels and dimensions.
#[verifier::external_body]
pub(crate) fn resize_rgb8(img: &Rgb8Image, new_width: u32, new_height: u32) -> (r: Rgb8Image)
    requires
        img.wf(),
        1 <= new_width,
        1 <= new_height,
        3 * new_width * new_height <= crate::buffers::MAX_BUFFER_LEN,
    ensures
        r.wf(),
        r.width == new_width,
        r.height == new_height,
        r.data@ == resize_catmullrom_rgb8(
            img.data@,
            img.width as int,
            img.height as int,
            new_width as int,
            new_height as int,
        ),
{
    let buf: image::ImageBuffer<image::Rgb<u8>, Vec<u8>> =
        image::ImageBuffer::from_raw(img.width, img.height, img.data.clone()).unwrap();
    let out = image::imageops::resize(&buf, new_width, new_height,
        image::imageops::FilterType::CatmullRom);
    Rgb8Image { width: new_width, height: new_height, data: out.into_raw() }
}

/// The luminance of one RGB pixel as `image` computes it: the ITU-R
/// weighted sum `(2126 r + 7152 g + 722 b) / 10000`, which never exceeds
/// 255 for byte channels.
pub open spec fn luma_spec(r: u8, g: u8, b: u8) -> int {
    (2126 * r + 7152 * g + 722 * b) / 10000
}

/// A luminance value of byte channels is itself a byte: the weights sum
/// to the divisor.
pub proof fn lemma_luma_range(r: u8, g: u8, b: u8)
    ensures
        0 <= luma_spec(r, g, b) <= 255,
{
    assert(0 <= (2126 * r + 7152 * g + 722 * b) / 10000 <= 255) by (nonlinear_arith)
        requires
            r <= 255,
            g <= 255,
            b <= 255,
    ;
}

/// Relies on `image::imageops::grayscale`: each output pixel is the ITU-R
/// luminance of the RGB pixel at the same position, per `luma_spec`.
#[verifier::external_body]
pub(crate) fn grayscale_rgb8(img: &Rgb8Image) -> (r: Gray8Image)
    requires
        img.wf(),
    ensures
        r.wf(),
        r.width == img.width,
        r.height == img.height,
        r.data@.len() == img.width * img.height,
        forall|i: int|
            0 <= i < r.data@.len() ==> r.data@[i] == luma_spec(
                img.data@[3 * i],
                img.data@[3 * i + 1],
                img.data@[3 * i + 2],
            ),
{
    let buf: image::ImageBuffer<image::Rgb<u8>, Vec<u8>> =
        image::ImageBuffer::from_raw(img.width, img.height, img.data.clone()).unwrap();
    let out = image::imageops::grayscale(&buf);
    Gray8Image { width: img.width, height: img.height, data: out.into_raw() }
}

} // verus!
