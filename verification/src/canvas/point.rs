use vstd::arithmetic::div_mod::lemma_mod_multiples_basic;
use vstd::prelude::*;

use crate::canvas::pixels::{lemma_pixel_in_buffer, pixel_start, plot_effect};
use crate::graphics::color::Color;
use crate::graphics::point::Point;

verus! {

/// One bounds-checked pixel write: pixel `(x, y)` takes the color when its
/// four bytes fit in the buffer, and nothing happens otherwise.
pub fn plot(buffer: &mut [u8], width: usize, _height: usize, color: &Color, x: usize, y: usize)
    requires
        old(buffer)@.len() % 4 == 0,
        (x + y * width) * 4 + 4 <= usize::MAX,
    ensures
        final(buffer)@ == plot_effect(old(buffer)@, width as int, x as int, y as int, *color),
        final(buffer)@.len() == old(buffer)@.len(),
{
    let index = (x + y * width) * 4;

    proof {
        lemma_mod_multiples_basic(x as int + y as int * width as int, 4);
    }

    if index + 3 > buffer.len() {
        proof {
            // The guard rejects exactly the writes the effect spec skips:
            // both the index and the length are multiples of four, so the
            // four bytes fit if and only if `index + 3` is in range.
            if index as int + 4 <= buffer@.len() {
                assert(index as int + 3 <= buffer@.len());
            }
        }
        return ;
    }

    proof {
        assert(index as int + 4 <= buffer@.len()) by (nonlinear_arith)
            requires
                index as int % 4 == 0,
                buffer@.len() % 4 == 0,
                index as int + 3 <= buffer@.len(),
        ;
        assert(index as int == pixel_start(width as int, x as int, y as int));
    }

    buffer[index + 0] = color.red;
    buffer[index + 1] = color.green;
    buffer[index + 2] = color.blue;
    buffer[index + 3] = color.alpha;
}

/// Draw a single point, skipped when it lies outside the canvas.
pub fn render(buffer: &mut [u8], width: u32, height: u32, point: &Point, color: &Color)
    requires
        old(buffer)@.len() == width as int * height as int * 4,
        width as int * height as int * 4 <= usize::MAX,
        width <= i32::MAX,
        height <= i32::MAX,
    ensures
        final(buffer)@ == if 0 <= point.x < width as i32 && 0 <= point.y < height as i32 {
            plot_effect(old(buffer)@, width as int, point.x as int, point.y as int, *color)
        } else {
            old(buffer)@
        },
        final(buffer)@.len() == old(buffer)@.len(),
{
    let x = point.x;
    let y = point.y;

    if x < 0 || x >= width as i32 || y < 0 || y >= height as i32 {
        return ;
    }

    proof {
        lemma_pixel_in_buffer(width as int, height as int, x as int, y as int);
        lemma_mod_multiples_basic(width as int * height as int, 4);
        assert(width as int * height as int * 4 == (width as int * height as int) * 4);
    }

    plot(buffer, width as usize, height as usize, color, x as usize, y as usize);
}

} // verus!
