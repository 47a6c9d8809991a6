//! Writing the assembled grid out as an `image` crate RGB image.
//!
//! The image value itself is opaque to the verifier; its observable RGB
//! contents are modeled by `rgb8_pixels`, and the two calls the logic makes
//! into the `image` crate are trusted wrappers whose contracts follow that
//! crate's source: a fresh RGB image is zeroed, and a pixel write replaces
//! exactly one entry of the contents.

use vstd::prelude::*;

use crate::assemble::ImageGrid;

verus! {

#[verifier::external_type_specification]
#[verifier::external_body]
pub struct ExDynamicImage(image::DynamicImage);

/// Whether the dynamic image is backed by an 8-bit RGB buffer.
pub uninterp spec fn rgb8_image(img: image::DynamicImage) -> bool;

/// The RGB contents of an 8-bit RGB dynamic image: the channel triple
/// stored at each in-range (column, row) coordinate.
pub uninterp spec fn rgb8_pixels(img: image::DynamicImage) -> Map<(int, int), (u8, u8, u8)>;

/// The channel triple at (column `x`, row `y`).
pub open spec fn rgb8_at(img: image::DynamicImage, x: int, y: int) -> (u8, u8, u8) {
    rgb8_pixels(img)[(x, y)]
}

/// All (column, row) coordinates of a `width` × `height` image.
pub open spec fn coord_rect(width: int, height: int) -> Set<(int, int)> {
    Set::new(|c: (int, int)| 0 <= c.0 < width && 0 <= c.1 < height)
}

/// Relies on image::DynamicImage::new_rgb8: a fresh 8-bit RGB image of the
/// given dimensions, every pixel zeroed; its backing buffer of
/// `width * height * 3` samples must fit in memory.
#[verifier::external_body]
fn new_rgb8(width: u32, height: u32) -> (img: image::DynamicImage)
    requires
        width * height * 3 <= usize::MAX,
    ensures
        rgb8_image(img),
        rgb8_pixels(img).dom() == coord_rect(width as int, height as int),
        forall|x: int, y: int|
            0 <= x < width && 0 <= y < height ==> #[trigger] rgb8_at(img, x, y) == (0u8, 0u8, 0u8),
{
    image::DynamicImage::new_rgb8(width, height)
}

/// Relies on GenericImage::put_pixel for DynamicImage: on an 8-bit RGB
/// image, an in-bounds write stores the color's RGB channels at (x, y),
/// discarding its alpha, and leaves every other pixel unchanged.
#[verifier::external_body]
fn put_rgb8(img: &mut image::DynamicImage, x: u32, y: u32, r: u8, g: u8, b: u8, a: u8)
    requires
        rgb8_image(*old(img)),
        rgb8_pixels(*old(img)).dom().contains((x as int, y as int)),
    ensures
        rgb8_image(*final(img)),
        rgb8_pixels(*final(img)) == rgb8_pixels(*old(img)).insert(
            (x as int, y as int),
            (r, g, b),
        ),
{
    image::GenericImage::put_pixel(img, x, y, image::Rgba([r, g, b, a]));
}

/// Write the grid into an `image` crate 8-bit RGB image: image pixel (x, y)
/// holds exactly the RGB channels of grid cell (x, y). The grid's alpha
/// channel (always 0) has no slot in an RGB image and is passed along only
/// to be discarded, as the downstream image format dictates.
pub fn to_rgb_image(grid: &ImageGrid) -> (img: image::DynamicImage)
    requires
        grid.wf(),
        grid.width <= u32::MAX,
        grid.height <= u32::MAX,
        grid.width * grid.height * 3 <= usize::MAX,
    ensures
        rgb8_image(img),
        rgb8_pixels(img).dom() == coord_rect(grid.width as int, grid.height as int),
        forall|x: int, y: int|
            0 <= x < grid.width && 0 <= y < grid.height ==> #[trigger] rgb8_at(img, x, y) == (
                grid.cell(x, y).r,
                grid.cell(x, y).g,
                grid.cell(x, y).b,
            ),
{
    let width = grid.width;
    let height = grid.height;
    let mut img = new_rgb8(width as u32, height as u32);
    let mut y: usize = 0;
    while y < height
        invariant
            grid.wf(),
            width == grid.width,
            height == grid.height,
            width <= u32::MAX,
            height <= u32::MAX,
            y <= height,
            rgb8_image(img),
            rgb8_pixels(img).dom() == coord_rect(width as int, height as int),
            forall|xx: int, yy: int|
                0 <= xx < width && 0 <= yy < y ==> #[trigger] rgb8_at(img, xx, yy) == (
                    grid.cell(xx, yy).r,
                    grid.cell(xx, yy).g,
                    grid.cell(xx, yy).b,
                ),
        decreases height - y,
    {
        let mut x: usize = 0;
        while x < width
            invariant
                grid.wf(),
                width == grid.width,
                height == grid.height,
                width <= u32::MAX,
                height <= u32::MAX,
                y < height,
                x <= width,
                rgb8_image(img),
                rgb8_pixels(img).dom() == coord_rect(width as int, height as int),
                forall|xx: int, yy: int|
                    0 <= xx < width && 0 <= yy < y ==> #[trigger] rgb8_at(img, xx, yy) == (
                        grid.cell(xx, yy).r,
                        grid.cell(xx, yy).g,
                        grid.cell(xx, yy).b,
                    ),
                forall|xx: int|
                    0 <= xx < x ==> #[trigger] rgb8_at(img, xx, y as int) == (
                        grid.cell(xx, y as int).r,
                        grid.cell(xx, y as int).g,
                        grid.cell(xx, y as int).b,
                    ),
            decreases width - x,
        {
            let px = grid.get(x, y);
            let ghost before = img;
            put_rgb8(&mut img, x as u32, y as u32, px.r, px.g, px.b, px.a);
            proof {
                assert(rgb8_pixels(before).dom().insert((x as int, y as int)) =~= coord_rect(
                    width as int,
                    height as int,
                ));
                assert forall|xx: int, yy: int| 0 <= xx < width && 0 <= yy < y implies #[trigger] rgb8_at(
                    img,
                    xx,
                    yy,
                ) == (grid.cell(xx, yy).r, grid.cell(xx, yy).g, grid.cell(xx, yy).b) by {
                    assert((xx, yy) != (x as int, y as int));
                    assert(rgb8_at(img, xx, yy) == rgb8_at(before, xx, yy));
                }
                assert forall|xx: int| 0 <= xx <= x implies #[trigger] rgb8_at(img, xx, y as int)
                    == (
                    grid.cell(xx, y as int).r,
                    grid.cell(xx, y as int).g,
                    grid.cell(xx, y as int).b,
                ) by {
                    if xx < x {
                        assert((xx, y as int) != (x as int, y as int));
                        assert(rgb8_at(img, xx, y as int) == rgb8_at(before, xx, y as int));
                    } else {
                        assert(rgb8_at(img, x as int, y as int) == (px.r, px.g, px.b));
                    }
                }
            }
            x = x + 1;
        }
        y = y + 1;
    }
    img
}

} // verus!
