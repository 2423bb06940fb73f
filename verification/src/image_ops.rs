//! The calls into `fast_image_resize`, each behind a trusted item whose
//! contract restates what that crate's source shows.
//!
//! An image is taken as a collection of bytes: `image_pixels` names the bytes
//! it holds and `image_layout` its width, height and whether its pixels are
//! RGB24 (three 8-bit channels).

use vstd::prelude::*;
use fast_image_resize::images::Image;
use fast_image_resize::{FilterType, ImageBufferError, PixelType, ResizeAlg, ResizeError, ResizeOptions, Resizer};

verus! {

#[verifier::external_type_specification]
#[verifier::external_body]
pub struct ExImage<'a>(Image<'a>);

#[verifier::external_type_specification]
#[verifier::external_body]
pub struct ExResizer(Resizer);

#[verifier::external_type_specification]
#[verifier::external_body]
pub struct ExImageBufferError(ImageBufferError);

#[verifier::external_type_specification]
#[verifier::external_body]
pub struct ExResizeError(ResizeError);

/// The bytes an image holds.
pub uninterp spec fn image_pixels(image: Image<'static>) -> Seq<u8>;

/// The width and height an image was made with, and whether its pixel type is RGB24.
pub uninterp spec fn image_layout(image: Image<'static>) -> (u32, u32, bool);

/// The number of bytes of an RGB24 image of `width` x `height` pixels.
pub open spec fn rgb_len(width: u32, height: u32) -> int {
    3 * (width as int) * (height as int)
}

/// `Image::new` with `PixelType::U8x3`: an RGB24 image of the given size whose
/// bytes are all zero. The crate computes the byte count in `usize`, hence the bound.
#[verifier::external_body]
pub(crate) fn blank_rgb_image(width: u32, height: u32) -> (image: Image<'static>)
    requires
        rgb_len(width, height) <= usize::MAX,
    ensures
        image_layout(image) == (width, height, true),
        image_pixels(image) == Seq::new(rgb_len(width, height) as nat, |i: int| 0u8),
{
    Image::new(width, height, PixelType::U8x3)
}

/// `Image::from_vec_u8` with `PixelType::U8x3`: takes `buffer` as the bytes of
/// an RGB24 image. The crate refuses a buffer shorter than the image (RGB24
/// pixels have no alignment to miss) and otherwise keeps the buffer whole.
#[verifier::external_body]
pub(crate) fn rgb_image_from_vec(width: u32, height: u32, buffer: Vec<u8>) -> (r: Result<Image<'static>, ImageBufferError>)
    requires
        rgb_len(width, height) <= usize::MAX,
    ensures
        (r is Ok) <==> buffer@.len() >= rgb_len(width, height),
        r matches Ok(image) ==> {
            &&& image_layout(image) == (width, height, true)
            &&& image_pixels(image) == buffer@
        },
{
    Image::from_vec_u8(width, height, buffer, PixelType::U8x3)
}

/// `Image::into_vec`: hands back the bytes the image holds.
#[verifier::external_body]
pub(crate) fn image_into_bytes(image: Image<'static>) -> (bytes: Vec<u8>)
    ensures
        bytes@ == image_pixels(image),
{
    image.into_vec()
}

/// `Resizer::new`: a resizer that uses the best SIMD extension the CPU offers.
#[verifier::external_body]
pub(crate) fn new_resizer() -> (resizer: Resizer)
{
    Resizer::new()
}

/// An RGB24 image whose buffer holds exactly its pixels.
pub open spec fn full_rgb(image: Image<'static>) -> bool {
    &&& image_layout(image).2
    &&& image_pixels(image).len() == rgb_len(image_layout(image).0, image_layout(image).1)
}

/// Two RGB24 images of which one has no pixels.
pub open spec fn no_pixels(src: Image<'static>, dst: Image<'static>) -> bool {
    &&& image_layout(src).2
    &&& image_layout(dst).2
    &&& (image_layout(src).0 == 0 || image_layout(src).1 == 0 || image_layout(dst).0 == 0 || image_layout(dst).1 == 0)
}

/// The bytes of the RGB24 image of `dw` x `dh` pixels that bilinear
/// interpolation makes from the RGB24 image `src` of `sw` x `sh` pixels.
pub uninterp spec fn bilinear_rgb(src: Seq<u8>, sw: u32, sh: u32, dw: u32, dh: u32) -> Seq<u8>;

/// `Resizer::resize` with bilinear interpolation (`ResizeAlg::Interpolation`
/// with `FilterType::Bilinear`) and no source cropping: scales `src` onto
/// `dst`. With the crate's default features (which this crate keeps) the
/// source shows that the size and byte count of `dst` stay; that two RGB24
/// images whose buffers hold exactly their pixels are resized without error;
/// that nothing is done when either image has no pixels; and that images of
/// equal size are copied row by row. Otherwise the scaled bytes are named
/// `bilinear_rgb`: the RGB24 paths compute them in integer fixed point with
/// the same precision and rounding on every SIMD extension, so they depend on
/// the source bytes and the two sizes alone. What the interpolation computes
/// is left to that name.
#[verifier::external_body]
pub(crate) fn resize_bilinear(resizer: &mut Resizer, src: &Image<'static>, dst: &mut Image<'static>) -> (r: Result<(), ResizeError>)
    ensures
        image_layout(*final(dst)) == image_layout(*old(dst)),
        image_pixels(*final(dst)).len() == image_pixels(*old(dst)).len(),
        full_rgb(*src) && full_rgb(*old(dst)) ==> r is Ok,
        no_pixels(*src, *old(dst)) ==> r is Ok && image_pixels(*final(dst)) == image_pixels(*old(dst)),
        full_rgb(*src) && full_rgb(*old(dst)) && image_layout(*src) == image_layout(*old(dst)) ==> image_pixels(*final(dst))
            == image_pixels(*src),
        full_rgb(*src) && full_rgb(*old(dst)) && !no_pixels(*src, *old(dst)) ==> image_pixels(*final(dst)) == bilinear_rgb(
            image_pixels(*src),
            image_layout(*src).0,
            image_layout(*src).1,
            image_layout(*old(dst)).0,
            image_layout(*old(dst)).1,
        ),
{
    resizer.resize(src, dst, &ResizeOptions::new().resize_alg(ResizeAlg::Interpolation(FilterType::Bilinear)))
}

} // verus!
