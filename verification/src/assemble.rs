//! The image assembler: validates a flat row-major color buffer and turns it
//! into a 2D pixel grid with the alpha channel forced to 0.
//!
//! Both validation failures are surfaced as typed, catchable errors carrying
//! the offending sizes, rather than aborting the process.

use vstd::prelude::*;

verus! {

/// Why a flat buffer could not be assembled into a grid.
#[derive(Clone, Copy, Debug, PartialEq, Eq, Structural)]
pub enum BuildImageError {
    /// The buffer's byte count is not a multiple of 3, so it holds no whole
    /// number of RGB pixels.
    NotDivisibleBy3 { len: usize },
    /// The buffer's pixel count is not evenly divisible by the declared
    /// width or height.
    DimensionMismatch { len: usize, width: usize, height: usize },
}

/// One pixel of the assembled grid. The assembler always forces `a` to 0.
#[derive(Clone, Copy, Debug, PartialEq, Eq, Structural)]
pub struct Rgba {
    pub r: u8,
    pub g: u8,
    pub b: u8,
    pub a: u8,
}

/// The RGBA value grid pixel `p` takes from a flat buffer: the three bytes
/// at offset `3p`, with alpha 0.
pub open spec fn rgba_at(buf: Seq<u8>, p: int) -> Rgba {
    Rgba { r: buf[3 * p], g: buf[3 * p + 1], b: buf[3 * p + 2], a: 0 }
}

/// The assembler's validation: the buffer holds whole pixels, and the pixel
/// count divides evenly by both declared dimensions.
pub open spec fn buffer_shape_ok(len: int, width: int, height: int) -> bool {
    len % 3 == 0 && (len / 3) % width == 0 && (len / 3) % height == 0
}

/// Row-major `width` × `height` grid of RGBA pixels: the pixel at
/// (column `x`, row `y`) is stored at index `y * width + x`.
#[derive(Clone, Debug)]
pub struct ImageGrid {
    pub width: usize,
    pub height: usize,
    pub pixels: Vec<Rgba>,
}

impl ImageGrid {
    /// The grid is complete: exactly one stored pixel per coordinate.
    pub open spec fn wf(self) -> bool {
        self.pixels@.len() == self.width * self.height
    }

    /// The stored pixel at (column `x`, row `y`).
    pub open spec fn cell(self, x: int, y: int) -> Rgba {
        self.pixels@[y * self.width + x]
    }

    /// Read the pixel at (column `x`, row `y`).
    pub fn get(&self, x: usize, y: usize) -> (px: Rgba)
        requires
            self.wf(),
            x < self.width,
            y < self.height,
        ensures
            px == self.cell(x as int, y as int),
    {
        proof {
            assert(y * self.width + x < self.width * self.height) by (nonlinear_arith)
                requires
                    x < self.width,
                    y < self.height,
            ;
        }
        // A vector's length is a machine word, which bounds the index below.
        let count = self.pixels.len();
        self.pixels[y * self.width + x]
    }
}

/// The renderer's own buffer always assembles: a flat buffer of exactly
/// `width * height * 3` bytes passes both validation checks, so the
/// assembler's fatal errors can only arise on buffers of foreign origin.
pub proof fn lemma_render_buffer_assembles(width: int, height: int)
    requires
        width >= 1,
        height >= 1,
    ensures
        buffer_shape_ok(width * height * 3, width, height),
{
    let count = width * height;
    assert(width * height >= 0) by (nonlinear_arith)
        requires
            width >= 1,
            height >= 1,
    ;
    vstd::arithmetic::div_mod::lemma_mod_multiples_basic(count, 3);
    vstd::arithmetic::div_mod::lemma_div_by_multiple(count, 3);
    assert(count * 3 == width * height * 3);
    assert(count % width == 0) by {
        vstd::arithmetic::div_mod::lemma_mod_multiples_basic(height, width);
        assert(height * width == width * height) by (nonlinear_arith);
    }
    assert(count % height == 0) by {
        vstd::arithmetic::div_mod::lemma_mod_multiples_basic(width, height);
    }
}

/// Assemble a flat row-major RGB byte buffer into a `width` × `height`
/// RGBA grid with alpha forced to 0.
///
/// Fails with `NotDivisibleBy3` exactly when the byte count holds no whole
/// number of pixels, and with `DimensionMismatch` exactly when it does but
/// the pixel count is not evenly divisible by both dimensions; on success,
/// grid pixel (x, y) is read from buffer offset `(y * width + x) * 3`.
pub fn build_image(width: usize, height: usize, pixels: &Vec<u8>) -> (res: Result<
    ImageGrid,
    BuildImageError,
>)
    requires
        width >= 1,
        height >= 1,
        buffer_shape_ok(pixels@.len() as int, width as int, height as int) ==> width * height * 3
            <= pixels@.len(),
    ensures
        res is Ok <==> buffer_shape_ok(pixels@.len() as int, width as int, height as int),
        pixels@.len() % 3 != 0 ==> res == Result::<ImageGrid, BuildImageError>::Err(
            (BuildImageError::NotDivisibleBy3 { len: pixels@.len() as usize }),
        ),
        pixels@.len() % 3 == 0 && !buffer_shape_ok(
            pixels@.len() as int,
            width as int,
            height as int,
        ) ==> res == Result::<ImageGrid, BuildImageError>::Err(
            (BuildImageError::DimensionMismatch {
                len: pixels@.len() as usize,
                width: width,
                height: height,
            }),
        ),
        res matches Ok(g) ==> g.wf() && g.width == width && g.height == height && forall|p: int|
            0 <= p < width * height ==> #[trigger] g.pixels@[p] == rgba_at(pixels@, p),
        res matches Ok(g) ==> forall|x: int, y: int|
            0 <= x < width && 0 <= y < height ==> #[trigger] g.cell(x, y) == rgba_at(
                pixels@,
                y * width + x,
            ),
{
    let len = pixels.len();
    if len % 3 != 0 {
        return Result::Err(BuildImageError::NotDivisibleBy3 { len });
    }
    let count = len / 3;
    if count % width != 0 || count % height != 0 {
        return Result::Err(BuildImageError::DimensionMismatch { len, width, height });
    }
    proof {
        assert(width * height >= 0) by (nonlinear_arith);
    }
    let n: usize = width * height;
    proof {
        assert(3 * n <= pixels@.len());
    }
    let mut grid_pixels: Vec<Rgba> = Vec::new();
    let mut p: usize = 0;
    while p < n
        invariant
            n == width * height,
            3 * n <= pixels@.len(),
            pixels@.len() <= usize::MAX,
            p <= n,
            grid_pixels@.len() == p,
            forall|q: int| 0 <= q < p ==> #[trigger] grid_pixels@[q] == rgba_at(pixels@, q),
        decreases n - p,
    {
        let base: usize = 3 * p;
        let cell = Rgba { r: pixels[base], g: pixels[base + 1], b: pixels[base + 2], a: 0 };
        grid_pixels.push(cell);
        p = p + 1;
    }
    let g = ImageGrid { width, height, pixels: grid_pixels };
    proof {
        assert forall|x: int, y: int| 0 <= x < width && 0 <= y < height implies #[trigger] g.cell(
            x,
            y,
        ) == rgba_at(pixels@, y * width + x) by {
            assert(0 <= y * width + x < width * height) by (nonlinear_arith)
                requires
                    0 <= x < width,
                    0 <= y < height,
            ;
        }
    }
    Result::Ok(g)
}

} // verus!
