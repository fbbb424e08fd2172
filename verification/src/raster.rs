//! What this crate takes on trust about the `image` crate's `DynamicImage`.
//!
//! Nothing here is proved. Each contract restates what the source of `image`
//! shows for the call it names.

use vstd::prelude::*;

verus! {

#[verifier::external_type_specification]
#[verifier::external_body]
pub struct ExDynamicImage(image::DynamicImage);

/// The pixels that an image holds. For an image whose pixels are 8-bit RGB
/// these are its rows from `y = 0` on, each row its pixels from `x = 0` on,
/// each pixel its red, green and blue channel. An image of any other pixel
/// layout has no rows here.
pub uninterp spec fn pixel_rows(img: image::DynamicImage) -> Seq<Seq<(u8, u8, u8)>>;

/// `DynamicImage::new_rgb8`: an 8-bit RGB image of `w` by `h` pixels with
/// every channel zero. The call sizes its buffer in two checked steps, three
/// channels times the width and that times the height, and panics when
/// either step does not fit in `usize`, a zero height included. `requires`
/// rules out both.
pub assume_specification[ image::DynamicImage::new_rgb8 ](w: u32, h: u32) -> (img:
    image::DynamicImage)
    requires
        3 * w <= usize::MAX,
        3 * w * h <= usize::MAX,
    ensures
        pixel_rows(img) == Seq::new(
            h as nat,
            |y: int| Seq::new(w as nat, |x: int| (0u8, 0u8, 0u8)),
        ),
;

/// `DynamicImage::flipv`: a new image of the same layout and size whose row
/// `y` is row `height - 1 - y` of the image it was called on, so the rows
/// come out in reverse order.
pub assume_specification[ image::DynamicImage::flipv ](img: &image::DynamicImage) -> (out:
    image::DynamicImage)
    ensures
        pixel_rows(out) == pixel_rows(*img).reverse(),
;

/// `GenericImage::put_pixel` on a `DynamicImage`, handed the pixel that
/// `Pixel::from_channels` makes of the three channels and an alpha of 1. An
/// RGB image drops the alpha and stores the three channels at `(x, y)`; all
/// other pixels stay. The call panics outside the image, which `requires`
/// rules out.
#[verifier::external_body]
pub(crate) fn put_rgb(img: &mut image::DynamicImage, x: u32, y: u32, r: u8, g: u8, b: u8)
    requires
        y < pixel_rows(*old(img)).len(),
        x < pixel_rows(*old(img))[y as int].len(),
    ensures
        pixel_rows(*final(img)) == pixel_rows(*old(img)).update(
            y as int,
            pixel_rows(*old(img))[y as int].update(x as int, (r, g, b)),
        ),
{
    image::GenericImage::put_pixel(img, x, y, image::Pixel::from_channels(r, g, b, 1));
}

} // verus!
