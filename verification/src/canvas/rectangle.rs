use vstd::prelude::*;

use crate::canvas::pixels::{
    lemma_paint_nothing, lemma_pixel_in_buffer, paint, pixel_x, pixel_y, write_pixel,
};
use crate::canvas::line;
use crate::canvas::line::line_effect;
use crate::graphics::color::{channel, Color};
use crate::graphics::line::Line;
use crate::graphics::rectangle::Rectangle;

verus! {

/// The pixels a filled rectangle colors: the intersection of the rectangle
/// with the canvas.
pub open spec fn rect_covers(r: Rectangle, width: int, height: int) -> spec_fn(int, int) -> bool {
    |px: int, py: int|
        r.x <= px < r.x + r.width && r.y <= py < r.y + r.height && 0 <= px < width && 0 <= py
            < height
}

/// A filled rectangle that lies fully outside the canvas covers no pixel,
/// so drawing it performs no write at all.
pub proof fn lemma_rect_outside(buf: Seq<u8>, r: Rectangle, width: int, height: int, c: Color)
    requires
        width > 0,
        height > 0,
        buf.len() == width * height * 4,
        r.x >= width || r.y >= height || r.x + r.width <= 0 || r.y + r.height <= 0,
    ensures
        paint(buf, width, c, rect_covers(r, width, height)) == buf,
{
    lemma_paint_nothing(buf, width, height, c, rect_covers(r, width, height));
}

/// Fill a rectangle, clipped against the canvas: a negative origin shrinks
/// the size and clamps to zero, an overrun past the far edge truncates the
/// size, and a rectangle left empty is skipped. Exactly the pixels of the
/// intersection with the canvas take the color.
#[verifier::loop_isolation(false)]
pub fn render(buffer: &mut [u8], width: u32, height: u32, rectangle: &Rectangle, color: &Color)
    requires
        old(buffer)@.len() == width as int * height as int * 4,
        width as int * height as int * 4 <= i32::MAX,
        width <= i32::MAX,
        height <= i32::MAX,
        i32::MIN <= rectangle.x + rectangle.width <= i32::MAX,
        i32::MIN <= rectangle.y + rectangle.height <= i32::MAX,
        width == 0 ==> rectangle.x >= 0 || rectangle.x + rectangle.width <= 0,
        height == 0 ==> rectangle.y >= 0 || rectangle.y + rectangle.height <= 0,
    ensures
        final(buffer)@ == paint(
            old(buffer)@,
            width as int,
            *color,
            rect_covers(*rectangle, width as int, height as int),
        ),
{
    let ghost buf0 = buffer@;
    let ghost wi = width as int;
    let ghost hi = height as int;
    let ghost cov = rect_covers(*rectangle, wi, hi);

    let width_i = width as i32;
    let height_i = height as i32;

    let mut x = rectangle.x;
    let mut y = rectangle.y;

    if x >= width_i || y >= height_i {
        proof {
            assert(paint(buf0, wi, *color, cov) =~= buf0);
        }
        return ;
    }

    let mut w = rectangle.width;
    let mut h = rectangle.height;

    if x < 0 {
        w = w + x;
        x = 0;
    }

    if y < 0 {
        h = h + y;
        y = 0;
    }

    if w <= 0 || h <= 0 {
        proof {
            assert(paint(buf0, wi, *color, cov) =~= buf0);
        }
        return ;
    }

    if x + w > width_i {
        w = width_i - x;
    }

    if y + h > height_i {
        h = height_i - y;
    }

    // The clipped block [x, x + w) x [y, y + h) is exactly the covered set.
    assert(forall|px: int, py: int|
        #[trigger] cov(px, py) <==> x <= px < x + w && y <= py < y + h);

    let mut py = y;

    while py < y + h
        invariant
            y <= py <= y + h,
            buffer@.len() == buf0.len(),
            forall|i: int|
                0 <= i < buf0.len() ==> buffer@[i] == (if x <= pixel_x(wi, i) < x + w && y
                    <= pixel_y(wi, i) < py {
                    channel(*color, i % 4)
                } else {
                    buf0[i]
                }),
        decreases y + h - py,
    {
        let mut px = x;

        while px < x + w
            invariant
                x <= px <= x + w,
                y <= py < y + h,
                buffer@.len() == buf0.len(),
                forall|i: int|
                    0 <= i < buf0.len() ==> buffer@[i] == (if (x <= pixel_x(wi, i) < x + w && y
                        <= pixel_y(wi, i) < py) || (pixel_y(wi, i) == py && x <= pixel_x(wi, i)
                        < px) {
                        channel(*color, i % 4)
                    } else {
                        buf0[i]
                    }),
            decreases x + w - px,
        {
            proof {
                lemma_pixel_in_buffer(wi, hi, px as int, py as int);
            }
            let ghost before = buffer@;
            write_pixel(buffer, width as usize, color, px as usize, py as usize);
            proof {
                assert forall|i: int| 0 <= i < buf0.len() implies buffer@[i] == (if (x <= pixel_x(
                    wi,
                    i,
                ) < x + w && y <= pixel_y(wi, i) < py) || (pixel_y(wi, i) == py && x <= pixel_x(
                    wi,
                    i,
                ) < px + 1) {
                    channel(*color, i % 4)
                } else {
                    buf0[i]
                }) by {
                    let pxx = pixel_x(wi, i);
                    let pyy = pixel_y(wi, i);
                    assert(buffer@[i] == (if pxx == px as int && pyy == py as int {
                        channel(*color, i % 4)
                    } else {
                        before[i]
                    }));
                    assert(before[i] == (if (x <= pxx < x + w && y <= pyy < py) || (pyy == py && x
                        <= pxx < px) {
                        channel(*color, i % 4)
                    } else {
                        buf0[i]
                    }));
                }
            }
            px += 1;
        }

        proof {
            assert forall|i: int| 0 <= i < buf0.len() implies buffer@[i] == (if x <= pixel_x(wi, i)
                < x + w && y <= pixel_y(wi, i) < py + 1 {
                channel(*color, i % 4)
            } else {
                buf0[i]
            }) by {
                let pxx = pixel_x(wi, i);
                let pyy = pixel_y(wi, i);
                assert(buffer@[i] == (if (x <= pxx < x + w && y <= pyy < py) || (pyy == py && x
                    <= pxx < x + w) {
                    channel(*color, i % 4)
                } else {
                    buf0[i]
                }));
            }
        }

        py += 1;
    }

    proof {
        assert(buffer@ =~= paint(buf0, wi, *color, cov));
    }
}

/// The buffer after a rectangle outline is drawn: its left, right, top and
/// bottom edges as four segments, in that order.
pub open spec fn outline_effect(
    buf: Seq<u8>,
    width: int,
    height: int,
    r: Rectangle,
    c: Color,
) -> Seq<u8> {
    let x = r.x;
    let y = r.y;
    let w = r.width;
    let h = r.height;
    let xw = (x + w) as i32;
    let yh = (y + h) as i32;
    let left = line_effect(buf, width, height, Line { x0: x, y0: y, x1: x, y1: yh }, c);
    let right = line_effect(left, width, height, Line { x0: xw, y0: y, x1: xw, y1: yh }, c);
    let top = line_effect(right, width, height, Line { x0: x, y0: y, x1: xw, y1: y }, c);
    line_effect(top, width, height, Line { x0: x, y0: yh, x1: xw, y1: yh }, c)
}

/// Draw the outline of a rectangle as four segments, each clamped against
/// the canvas like any other segment.
pub fn render_outline(buffer: &mut [u8], width: u32, height: u32, rectangle: &Rectangle, color: &Color)
    requires
        old(buffer)@.len() % 4 == 0,
        4 * (width as int) <= i32::MAX,
        4 * (height as int) <= i32::MAX,
        (width as int + height as int * width as int) * 4 + 4 <= usize::MAX,
        i32::MIN <= rectangle.x + rectangle.width <= i32::MAX,
        i32::MIN <= rectangle.y + rectangle.height <= i32::MAX,
    ensures
        final(buffer)@ == outline_effect(
            old(buffer)@,
            width as int,
            height as int,
            *rectangle,
            *color,
        ),
        final(buffer)@.len() == old(buffer)@.len(),
{
    let x = rectangle.x;
    let y = rectangle.y;

    let w = rectangle.width;
    let h = rectangle.height;

    let left = Line::new(x, y, x, y + h);
    let right = Line::new(x + w, y, x + w, y + h);
    let top = Line::new(x, y, x + w, y);
    let bottom = Line::new(x, y + h, x + w, y + h);

    line::render(buffer, width, height, &left, color);
    line::render(buffer, width, height, &right, color);
    line::render(buffer, width, height, &top, color);
    line::render(buffer, width, height, &bottom, color);
}

} // verus!
