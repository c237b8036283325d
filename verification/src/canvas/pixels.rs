//! The model of the pixel buffer.
//!
//! A buffer of `width * height` pixels is a byte sequence of length
//! `width * height * 4`: pixel `(x, y)` owns the four bytes starting at
//! `(x + y * width) * 4`, in red, green, blue, alpha order. The spec
//! functions here map flat byte indices back to pixel coordinates and
//! describe a fill as a pointwise repaint of the covered pixels.

use vstd::arithmetic::div_mod::{lemma_fundamental_div_mod, lemma_fundamental_div_mod_converse};
use vstd::arithmetic::mul::lemma_mul_is_commutative;
use vstd::prelude::*;

use crate::graphics::color::{channel, Color};

verus! {

/// The first byte of pixel `(x, y)`.
pub open spec fn pixel_start(width: int, x: int, y: int) -> int {
    (x + y * width) * 4
}

/// The x coordinate of the pixel that owns byte `i`.
pub open spec fn pixel_x(width: int, i: int) -> int {
    (i / 4) % width
}

/// The y coordinate of the pixel that owns byte `i`.
pub open spec fn pixel_y(width: int, i: int) -> int {
    (i / 4) / width
}

/// The buffer after every pixel that `covers` admits is repainted with `c`;
/// all other bytes keep their value.
pub open spec fn paint(
    buf: Seq<u8>,
    width: int,
    c: Color,
    covers: spec_fn(int, int) -> bool,
) -> Seq<u8> {
    Seq::new(
        buf.len(),
        |i: int|
            if covers(pixel_x(width, i), pixel_y(width, i)) {
                channel(c, i % 4)
            } else {
                buf[i]
            },
    )
}

/// The buffer after the single bounds-checked pixel write that `plot`
/// performs: pixel `(x, y)` takes the color when its four bytes fit in the
/// buffer, and nothing changes otherwise.
pub open spec fn plot_effect(buf: Seq<u8>, width: int, x: int, y: int, c: Color) -> Seq<u8> {
    let idx = pixel_start(width, x, y);
    if 0 <= idx && idx + 4 <= buf.len() {
        buf.update(idx, c.red).update(idx + 1, c.green).update(idx + 2, c.blue).update(
            idx + 3,
            c.alpha,
        )
    } else {
        buf
    }
}

/// The buffer after the pixels of `pts` are plotted in order, each through
/// the bounds-checked single-pixel write.
pub open spec fn plot_points(buf: Seq<u8>, width: int, pts: Seq<(int, int)>, c: Color) -> Seq<u8>
    decreases pts.len(),
{
    if pts.len() == 0 {
        buf
    } else {
        plot_points(
            plot_effect(buf, width, pts[0].0, pts[0].1, c),
            width,
            pts.subrange(1, pts.len() as int),
            c,
        )
    }
}

/// Plotting a point sequence never changes the buffer's length.
pub proof fn lemma_plot_points_len(buf: Seq<u8>, width: int, pts: Seq<(int, int)>, c: Color)
    ensures
        plot_points(buf, width, pts, c).len() == buf.len(),
    decreases pts.len(),
{
    if pts.len() > 0 {
        let idx = pixel_start(width, pts[0].0, pts[0].1);
        if 0 <= idx && idx + 4 <= buf.len() {
            assert(buf.update(idx, c.red).len() == buf.len());
            assert(buf.update(idx, c.red).update(idx + 1, c.green).len() == buf.len());
            assert(buf.update(idx, c.red).update(idx + 1, c.green).update(idx + 2, c.blue).len()
                == buf.len());
            assert(plot_effect(buf, width, pts[0].0, pts[0].1, c).len() == buf.len());
        }
        lemma_plot_points_len(
            plot_effect(buf, width, pts[0].0, pts[0].1, c),
            width,
            pts.subrange(1, pts.len() as int),
            c,
        );
    }
}

/// Byte `(x + y * width) * 4 + k` belongs to pixel `(x, y)` and channel `k`:
/// the coordinate maps invert the index computation.
pub proof fn lemma_pixel_decompose(width: int, x: int, y: int, k: int)
    requires
        width > 0,
        0 <= x < width,
        0 <= y,
        0 <= k < 4,
    ensures
        pixel_start(width, x, y) + k >= 0,
        (pixel_start(width, x, y) + k) % 4 == k,
        (pixel_start(width, x, y) + k) / 4 == x + y * width,
        pixel_x(width, pixel_start(width, x, y) + k) == x,
        pixel_y(width, pixel_start(width, x, y) + k) == y,
{
    let p = x + y * width;
    assert(y * width >= 0) by (nonlinear_arith)
        requires
            y >= 0,
            width > 0,
    ;
    let i = p * 4 + k;
    lemma_fundamental_div_mod_converse(i, 4, p, k);
    lemma_fundamental_div_mod_converse(p, width, y, x);
}

/// A pixel with coordinates inside the canvas owns bytes inside a buffer of
/// `width * height * 4` bytes.
pub proof fn lemma_pixel_in_buffer(width: int, height: int, x: int, y: int)
    requires
        0 <= x < width,
        0 <= y < height,
    ensures
        0 <= pixel_start(width, x, y),
        pixel_start(width, x, y) + 4 <= width * height * 4,
{
    assert(x + y * width + 1 <= width * height) by (nonlinear_arith)
        requires
            0 <= x < width,
            0 <= y < height,
    ;
    assert((x + y * width) * 4 + 4 <= width * height * 4) by (nonlinear_arith)
        requires
            x + y * width + 1 <= width * height,
            x + y * width >= 0,
    ;
    assert(x + y * width >= 0) by (nonlinear_arith)
        requires
            x >= 0,
            y >= 0,
            width > 0,
    ;
}

/// Every byte of a `width * height * 4` buffer belongs to a pixel inside the
/// canvas.
pub proof fn lemma_pixel_bounds(width: int, height: int, i: int)
    requires
        width > 0,
        height > 0,
        0 <= i < width * height * 4,
    ensures
        0 <= pixel_x(width, i) < width,
        0 <= pixel_y(width, i) < height,
        i == pixel_start(width, pixel_x(width, i), pixel_y(width, i)) + i % 4,
        0 <= i % 4 < 4,
{
    let p = i / 4;
    lemma_fundamental_div_mod(i, 4);
    assert(0 <= p < width * height) by (nonlinear_arith)
        requires
            i == 4 * p + i % 4,
            0 <= i % 4 < 4,
            0 <= i < width * height * 4,
    ;
    lemma_fundamental_div_mod(p, width);
    assert(0 <= p % width < width);
    assert(p / width < height) by (nonlinear_arith)
        requires
            p == width * (p / width) + p % width,
            0 <= p % width < width,
            0 <= p < width * height,
            width > 0,
            height > 0,
    ;
    assert(p / width >= 0) by (nonlinear_arith)
        requires
            p >= 0,
            width > 0,
    ;
    lemma_mul_is_commutative(width, p / width);
    assert(p == p % width + (p / width) * width);
    assert(i == (p % width + (p / width) * width) * 4 + i % 4);
}

/// Write the four channel bytes of pixel `(x, y)`, which must lie inside the
/// buffer. Exactly the bytes of that pixel change.
pub(crate) fn write_pixel(buffer: &mut [u8], width: usize, color: &Color, x: usize, y: usize)
    requires
        x < width,
        (x + y * width) * 4 + 4 <= usize::MAX,
        pixel_start(width as int, x as int, y as int) + 4 <= old(buffer)@.len(),
    ensures
        final(buffer)@.len() == old(buffer)@.len(),
        forall|i: int|
            0 <= i < final(buffer)@.len() ==> final(buffer)@[i] == (if pixel_x(width as int, i)
                == x && pixel_y(width as int, i) == y {
                channel(*color, i % 4)
            } else {
                old(buffer)@[i]
            }),
{
    let ghost buf0 = buffer@;
    let index = (x + y * width) * 4;

    buffer[index + 0] = color.red;
    buffer[index + 1] = color.green;
    buffer[index + 2] = color.blue;
    buffer[index + 3] = color.alpha;

    proof {
        let w = width as int;
        let xi = x as int;
        let yi = y as int;
        let idx = pixel_start(w, xi, yi);
        assert forall|i: int| 0 <= i < buffer@.len() implies buffer@[i] == (if pixel_x(w, i) == xi
            && pixel_y(w, i) == yi {
            channel(*color, i % 4)
        } else {
            buf0[i]
        }) by {
            if idx <= i < idx + 4 {
                lemma_pixel_decompose(w, xi, yi, i - idx);
            } else {
                if pixel_x(w, i) == xi && pixel_y(w, i) == yi {
                    // A byte of pixel (x, y) can only lie in the four
                    // bytes just written.
                    lemma_fundamental_div_mod(i, 4);
                    lemma_fundamental_div_mod(i / 4, w);
                    lemma_mul_is_commutative(w, yi);
                    assert(i / 4 == yi * w + xi);
                    assert(i == 4 * (i / 4) + i % 4);
                    assert(idx <= i < idx + 4);
                }
            }
        }
    }
}

/// A repaint that covers no pixel of the canvas leaves the buffer unchanged.
pub proof fn lemma_paint_nothing(
    buf: Seq<u8>,
    width: int,
    height: int,
    c: Color,
    covers: spec_fn(int, int) -> bool,
)
    requires
        width > 0,
        height > 0,
        buf.len() == width * height * 4,
        forall|x: int, y: int|
            0 <= x < width && 0 <= y < height ==> !#[trigger] covers(x, y),
    ensures
        paint(buf, width, c, covers) == buf,
{
    let out = paint(buf, width, c, covers);
    assert forall|i: int| 0 <= i < buf.len() implies out[i] == buf[i] by {
        lemma_pixel_bounds(width, height, i);
    }
    assert(out =~= buf);
}

/// Repainting one cover and then another with the same color is one repaint
/// of their union.
pub proof fn lemma_paint_compose(
    buf: Seq<u8>,
    width: int,
    c: Color,
    first: spec_fn(int, int) -> bool,
    second: spec_fn(int, int) -> bool,
    union: spec_fn(int, int) -> bool,
)
    requires
        forall|px: int, py: int| #[trigger] union(px, py) <==> first(px, py) || second(px, py),
    ensures
        paint(paint(buf, width, c, first), width, c, second) == paint(buf, width, c, union),
{
    assert(paint(paint(buf, width, c, first), width, c, second) =~= paint(buf, width, c, union));
}

/// The bounds-checked write of one pixel inside the canvas is the repaint
/// of the cover holding that pixel alone.
pub proof fn lemma_plot_effect_is_paint(buf: Seq<u8>, width: int, height: int, x: int, y: int, c: Color)
    requires
        buf.len() == width * height * 4,
        0 <= x < width,
        0 <= y < height,
    ensures
        plot_effect(buf, width, x, y, c) == paint(
            buf,
            width,
            c,
            (|px: int, py: int| px == x && py == y),
        ),
{
    let idx = pixel_start(width, x, y);
    lemma_pixel_in_buffer(width, height, x, y);
    let out = plot_effect(buf, width, x, y, c);
    let cov = (|px: int, py: int| px == x && py == y);
    assert forall|i: int| 0 <= i < buf.len() implies out[i] == (if cov(
        pixel_x(width, i),
        pixel_y(width, i),
    ) {
        channel(c, i % 4)
    } else {
        buf[i]
    }) by {
        if idx <= i < idx + 4 {
            lemma_pixel_decompose(width, x, y, i - idx);
        } else {
            if pixel_x(width, i) == x && pixel_y(width, i) == y {
                lemma_fundamental_div_mod(i, 4);
                lemma_fundamental_div_mod(i / 4, width);
                lemma_mul_is_commutative(width, y);
                assert(i / 4 == y * width + x);
                assert(i == 4 * (i / 4) + i % 4);
                assert(idx <= i < idx + 4);
            }
        }
    }
    assert(out =~= paint(buf, width, c, cov));
}

} // verus!
