//! The pixel renderer's verified core: enumeration of pixels by linear
//! index and the row-major flat buffer an image render produces.
//!
//! Shading a single pixel is floating-point work done by the caller; this
//! module pins down, byte for byte, the buffer that a sequence of per-pixel
//! shading outcomes yields, including the rule that a ray which hits nothing
//! contributes an all-zero pixel.

use vstd::prelude::*;

use crate::pixel::Rgb;
use crate::pixel::pixel_bytes;

verus! {

/// The flat row-major byte buffer for a sequence of per-pixel shading
/// outcomes: pixel `p` owns bytes `[3p, 3p + 3)`, and a missed pixel
/// (no intersection) contributes `0, 0, 0`.
pub open spec fn render_spec(shaded: Seq<Option<Rgb>>) -> Seq<u8>
    decreases shaded.len(),
{
    if shaded.len() == 0 {
        Seq::empty()
    } else {
        pixel_bytes(shaded.first()) + render_spec(shaded.drop_first())
    }
}

/// The three bytes of pixel `p` inside a flat buffer.
pub open spec fn pixel_slice(buf: Seq<u8>, p: int) -> Seq<u8> {
    buf.subrange(3 * p, 3 * p + 3)
}

/// The three bytes of the pixel at row `i`, column `j` of a row-major
/// buffer of the given width.
pub open spec fn pixel_slice_at(buf: Seq<u8>, width: int, i: int, j: int) -> Seq<u8> {
    pixel_slice(buf, i * width + j)
}

pub proof fn lemma_render_spec_len(shaded: Seq<Option<Rgb>>)
    ensures
        render_spec(shaded).len() == 3 * shaded.len(),
    decreases shaded.len(),
{
    if shaded.len() > 0 {
        lemma_render_spec_len(shaded.drop_first());
    }
}

/// Each pixel of the flat buffer holds exactly the bytes of its own
/// shading outcome.
pub proof fn lemma_render_spec_pixel(shaded: Seq<Option<Rgb>>, p: int)
    requires
        0 <= p < shaded.len(),
    ensures
        pixel_slice(render_spec(shaded), p) == pixel_bytes(shaded[p]),
    decreases p,
{
    lemma_render_spec_len(shaded);
    lemma_render_spec_len(shaded.drop_first());
    let head = pixel_bytes(shaded.first());
    let tail = render_spec(shaded.drop_first());
    assert(render_spec(shaded) == head + tail);
    if p == 0 {
        assert(pixel_slice(render_spec(shaded), 0) =~= head);
    } else {
        lemma_render_spec_pixel(shaded.drop_first(), p - 1);
        assert(pixel_slice(render_spec(shaded), p) =~= pixel_slice(tail, p - 1));
        assert(shaded.drop_first()[p - 1] == shaded[p]);
    }
}

/// Determinism of the renderer: the output buffer is a function of the
/// per-pixel shading outcomes alone, so any two buffers produced from the
/// same outcomes are byte-identical, whatever order the pixels were
/// computed in.
pub proof fn lemma_render_deterministic(shaded: Seq<Option<Rgb>>, buf1: Seq<u8>, buf2: Seq<u8>)
    requires
        buf1 == render_spec(shaded),
        buf2 == render_spec(shaded),
    ensures
        buf1 == buf2,
{
}

/// Decompose a linear pixel index into (row, column) for a row-major image
/// of the given width; the pair is the unique one with
/// `row * width + column == idx` and `column < width`.
pub fn pixel_row_col(idx: usize, width: usize) -> (rc: (usize, usize))
    requires
        width >= 1,
    ensures
        rc.0 == idx as int / width as int,
        rc.1 == idx as int % width as int,
        rc.0 * width + rc.1 == idx,
        rc.1 < width,
{
    proof {
        vstd::arithmetic::div_mod::lemma_fundamental_div_mod(idx as int, width as int);
        assert((idx as int / width as int) * (width as int) == (width as int) * (idx as int
            / width as int)) by (nonlinear_arith);
    }
    (idx / width, idx % width)
}

/// Write the flat row-major byte buffer for one shading outcome per pixel
/// of a `width` × `height` image.
///
/// The buffer is always exactly `width * height * 3` bytes; pixel
/// (row `i`, column `j`) owns bytes `[(i * width + j) * 3, + 3)`, which hold
/// its outcome's channels, and a pixel whose ray intersected nothing is
/// exactly `(0, 0, 0)`.
pub fn render(width: usize, height: usize, shaded: &Vec<Option<Rgb>>) -> (buf: Vec<u8>)
    requires
        shaded@.len() == width * height,
        width * height * 3 <= usize::MAX,
    ensures
        buf@ == render_spec(shaded@),
        buf@.len() == width * height * 3,
        forall|p: int|
            0 <= p < shaded@.len() ==> #[trigger] pixel_slice(buf@, p) == pixel_bytes(shaded@[p]),
        forall|i: int, j: int|
            0 <= i < height && 0 <= j < width ==> #[trigger] pixel_slice_at(
                buf@,
                width as int,
                i,
                j,
            ) == pixel_bytes(shaded@[i * width + j]),
        forall|p: int|
            0 <= p < shaded@.len() && #[trigger] shaded@[p] is None ==> buf@[3 * p] == 0
                && buf@[3 * p + 1] == 0 && buf@[3 * p + 2] == 0,
{
    proof {
        assert(width * height >= 0) by (nonlinear_arith);
    }
    let n: usize = width * height;
    let mut buf: Vec<u8> = Vec::new();
    let mut p: usize = 0;
    proof {
        assert(shaded@.skip(0) =~= shaded@);
        assert(buf@ + render_spec(shaded@) =~= render_spec(shaded@));
    }
    while p < n
        invariant
            shaded@.len() == n,
            p <= n,
            buf@.len() == 3 * p,
            buf@ + render_spec(shaded@.skip(p as int)) == render_spec(shaded@),
        decreases n - p,
    {
        let ghost prev = buf@;
        let ghost rest = shaded@.skip(p as int);
        let c: Option<Rgb> = shaded[p];
        match c {
            Option::Some(col) => {
                buf.push(col.r);
                buf.push(col.g);
                buf.push(col.b);
                proof {
                    assert(buf@ =~= prev + pixel_bytes(shaded@[p as int]));
                }
            },
            Option::None => {
                buf.push(0);
                buf.push(0);
                buf.push(0);
                proof {
                    assert(buf@ =~= prev + pixel_bytes(shaded@[p as int]));
                }
            },
        }
        proof {
            assert(rest.first() == shaded@[p as int]);
            assert(rest.drop_first() =~= shaded@.skip(p as int + 1));
            assert(render_spec(rest) == pixel_bytes(rest.first()) + render_spec(
                rest.drop_first(),
            ));
            assert(buf@ + render_spec(shaded@.skip(p as int + 1)) =~= prev + render_spec(rest));
        }
        p = p + 1;
    }
    proof {
        assert(shaded@.skip(n as int) =~= Seq::<Option<Rgb>>::empty());
        assert(buf@ + render_spec(shaded@.skip(n as int)) =~= buf@);
        lemma_render_spec_len(shaded@);
        assert forall|q: int| 0 <= q < shaded@.len() implies #[trigger] pixel_slice(buf@, q)
            == pixel_bytes(shaded@[q]) by {
            lemma_render_spec_pixel(shaded@, q);
        }
        assert forall|i: int, j: int| 0 <= i < height && 0 <= j < width implies #[trigger] pixel_slice_at(
            buf@,
            width as int,
            i,
            j,
        ) == pixel_bytes(shaded@[i * width + j]) by {
            assert(0 <= i * width + j < width * height) by (nonlinear_arith)
                requires
                    0 <= i < height,
                    0 <= j < width,
            ;
            lemma_render_spec_pixel(shaded@, i * width + j);
        }
        assert forall|q: int|
            0 <= q < shaded@.len() && #[trigger] shaded@[q] is None implies buf@[3 * q] == 0
            && buf@[3 * q + 1] == 0 && buf@[3 * q + 2] == 0 by {
            lemma_render_spec_pixel(shaded@, q);
            assert(buf@[3 * q] == pixel_slice(buf@, q)[0]);
            assert(buf@[3 * q + 1] == pixel_slice(buf@, q)[1]);
            assert(buf@[3 * q + 2] == pixel_slice(buf@, q)[2]);
        }
    }
    buf
}

} // verus!
