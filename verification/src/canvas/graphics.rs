use vstd::prelude::*;

use crate::canvas::background;
use crate::canvas::background::background_effect;
use crate::canvas::line;
use crate::canvas::line::line_effect;
use crate::canvas::pixels::{paint, plot_effect};
use crate::canvas::point;
use crate::canvas::rectangle;
use crate::canvas::rectangle::{outline_effect, rect_covers};
use crate::graphics::graphic::Graphic;

verus! {

/// What a draw instruction asks of the machine's integers: the corners of a
/// rectangle stay representable.
pub open spec fn graphic_ok(g: Graphic) -> bool {
    match g {
        Graphic::Rectangle { rectangle, .. } => {
            &&& i32::MIN <= rectangle.x + rectangle.width <= i32::MAX
            &&& i32::MIN <= rectangle.y + rectangle.height <= i32::MAX
        },
        _ => true,
    }
}

/// The buffer after one draw instruction runs.
pub open spec fn graphic_effect(buf: Seq<u8>, width: int, height: int, g: Graphic) -> Seq<u8> {
    match g {
        Graphic::Empty => buf,
        Graphic::Background { color } => background_effect(buf, color),
        Graphic::Point { point, color } => if 0 <= point.x < width && 0 <= point.y < height {
            plot_effect(buf, width, point.x as int, point.y as int, color)
        } else {
            buf
        },
        Graphic::Line { line, color } => line_effect(buf, width, height, line, color),
        Graphic::Rectangle { rectangle, color } => if rectangle.solid {
            paint(buf, width, color, rect_covers(rectangle, width, height))
        } else {
            outline_effect(buf, width, height, rectangle, color)
        },
    }
}

/// The buffer after the first `n` instructions of a list run, in order.
pub open spec fn graphics_effect(
    buf: Seq<u8>,
    width: int,
    height: int,
    gs: Seq<&Graphic>,
    n: int,
) -> Seq<u8>
    decreases n,
{
    if n <= 0 {
        buf
    } else {
        graphic_effect(graphics_effect(buf, width, height, gs, n - 1), width, height, *gs[n - 1])
    }
}

/// Run a list of draw instructions against the buffer, in order.
#[verifier::loop_isolation(false)]
pub fn render(buffer: &mut [u8], width: u32, height: u32, graphics: &Vec<&Graphic>)
    requires
        old(buffer)@.len() == width as int * height as int * 4,
        width as int * height as int * 4 <= i32::MAX,
        (width as int + height as int * width as int) * 4 + 4 <= usize::MAX,
        1 <= width <= i32::MAX,
        1 <= height <= i32::MAX,
        forall|j: int| 0 <= j < graphics@.len() ==> graphic_ok(*#[trigger] graphics@[j]),
    ensures
        final(buffer)@ == graphics_effect(
            old(buffer)@,
            width as int,
            height as int,
            graphics@,
            graphics@.len() as int,
        ),
{
    let ghost buf0 = buffer@;
    let ghost wi = width as int;
    let ghost hi = height as int;

    proof {
        assert(wi * hi * 4 >= 1 * 1 * 4) by (nonlinear_arith)
            requires
                wi >= 1,
                hi >= 1,
        ;
        assert((wi * hi) * 4 == wi * hi * 4) by (nonlinear_arith);
        vstd::arithmetic::div_mod::lemma_mod_multiples_basic(wi * hi, 4);
        assert(4 * wi <= wi * hi * 4 && 4 * hi <= wi * hi * 4) by (nonlinear_arith)
            requires
                wi >= 1,
                hi >= 1,
        ;
    }

    let mut k: usize = 0;

    while k < graphics.len()
        invariant
            0 <= k <= graphics@.len(),
            buffer@.len() == buf0.len(),
            buffer@ == graphics_effect(buf0, wi, hi, graphics@, k as int),
        decreases graphics@.len() - k,
    {
        let graphic = graphics[k];
        let ghost before = buffer@;

        match graphic {
            Graphic::Background { color } => {
                background::render(buffer, color);
            },
            Graphic::Point { point, color } => {
                point::render(buffer, width, height, point, color);
            },
            Graphic::Line { line, color } => {
                line::render(buffer, width, height, line, color);
            },
            Graphic::Rectangle { rectangle, color } => {
                if rectangle.solid {
                    rectangle::render(buffer, width, height, rectangle, color);
                } else {
                    rectangle::render_outline(buffer, width, height, rectangle, color);
                }
            },
            _ => {},
        }

        proof {
            assert(buffer@ == graphic_effect(before, wi, hi, *graphics@[k as int]));
            assert(buffer@ == graphics_effect(buf0, wi, hi, graphics@, k as int + 1));
        }

        k += 1;
    }
}

} // verus!
