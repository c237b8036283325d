use vstd::prelude::*;

use crate::canvas::pixels::{
    lemma_paint_compose, lemma_paint_nothing, lemma_pixel_in_buffer, lemma_plot_effect_is_paint,
    lemma_plot_points_len, paint, pixel_x, pixel_y, plot_effect, plot_points, write_pixel,
};
use crate::canvas::point;
use crate::graphics::color::{channel, Color};
use crate::graphics::line::Line;

verus! {

/// Whether a run is skipped outright: its start coordinate `v` or its cross
/// coordinate is past the far edge, or the run ends before the near edge.
pub open spec fn run_skip(v: int, cross: int, length: int, v_limit: int, cross_limit: int) -> bool {
    v >= v_limit || cross >= cross_limit || v + length < 0
}

/// The first cell of a run after the near-edge clip.
pub open spec fn run_start(v: int) -> int {
    if v < 0 {
        0
    } else {
        v
    }
}

/// The length of a run after both clips: a negative start shrinks it, an
/// overrun past `limit` truncates it.
pub open spec fn run_len(v: int, length: int, limit: int) -> int {
    let shrunk = if v < 0 {
        length + v
    } else {
        length
    };
    if run_start(v) + shrunk > limit {
        limit - run_start(v)
    } else {
        shrunk
    }
}

/// The pixels a horizontal run colors: the clipped run of row `y`.
pub open spec fn h_covers(
    x: int,
    y: int,
    length: int,
    width: int,
    height: int,
) -> spec_fn(int, int) -> bool {
    |px: int, py: int|
        !run_skip(x, y, length, width, height) && py == y && run_start(x) <= px < run_start(x)
            + run_len(x, length, width)
}

/// The pixels a vertical run colors: the clipped run of column `x`. A run
/// whose clipped length is zero still colors its start cell once.
pub open spec fn v_covers(
    x: int,
    y: int,
    length: int,
    width: int,
    height: int,
) -> spec_fn(int, int) -> bool {
    |px: int, py: int|
        !run_skip(y, x, length, height, width) && px == x && run_start(y) <= py < run_start(y) + (
        if run_len(y, length, height) == 0 {
            1
        } else {
            run_len(y, length, height)
        })
}

/// The pixels of one column block: column `x`, rows `y0` up to `y1`.
pub open spec fn col_block(x: int, y0: int, y1: int) -> spec_fn(int, int) -> bool {
    |px: int, py: int| px == x && y0 <= py < y1
}

/// Fill a pixel run of the given length rightward from `(x, y)`, clipped
/// against the canvas on the x axis alone.
#[verifier::loop_isolation(false)]
pub fn horizontal(
    buffer: &mut [u8],
    width: u32,
    height: u32,
    x: i32,
    y: i32,
    length: u32,
    color: &Color,
)
    requires
        old(buffer)@.len() == width as int * height as int * 4,
        width as int * height as int * 4 <= i32::MAX,
        width <= i32::MAX,
        height <= i32::MAX,
        length <= i32::MAX,
        x + length <= i32::MAX,
        !run_skip(x as int, y as int, length as int, width as int, height as int) ==> 0 <= y
            && run_len(x as int, length as int, width as int) > 0,
    ensures
        final(buffer)@ == paint(
            old(buffer)@,
            width as int,
            *color,
            h_covers(x as int, y as int, length as int, width as int, height as int),
        ),
{
    let ghost buf0 = buffer@;
    let ghost wi = width as int;
    let ghost hi = height as int;
    let ghost cov = h_covers(x as int, y as int, length as int, wi, hi);

    let width_i = width as i32;
    let height_i = height as i32;

    let mut length = length as i32;

    if x >= width_i || y >= height_i || (x + length) < 0 {
        proof {
            assert(paint(buf0, wi, *color, cov) =~= buf0);
        }
        return ;
    }

    let mut x = x;

    if x < 0 {
        length = length + x;
        x = 0;
    }

    if x + length > width_i {
        length = width_i - x;
    }

    let mut px = x;

    while px < x + length
        invariant
            x <= px <= x + length,
            buffer@.len() == buf0.len(),
            forall|j: int|
                0 <= j < buf0.len() ==> buffer@[j] == (if pixel_y(wi, j) == y && x <= pixel_x(
                    wi,
                    j,
                ) < px {
                    channel(*color, j % 4)
                } else {
                    buf0[j]
                }),
        decreases x + length - px,
    {
        proof {
            lemma_pixel_in_buffer(wi, hi, px as int, y as int);
        }

        let ghost before = buffer@;
        write_pixel(buffer, width as usize, color, px as usize, y as usize);

        proof {
            assert forall|j: int| 0 <= j < buf0.len() implies buffer@[j] == (if pixel_y(wi, j) == y
                && x <= pixel_x(wi, j) < px + 1 {
                channel(*color, j % 4)
            } else {
                buf0[j]
            }) by {
                let pxx = pixel_x(wi, j);
                let pyy = pixel_y(wi, j);
                assert(buffer@[j] == (if pxx == px as int && pyy == y as int {
                    channel(*color, j % 4)
                } else {
                    before[j]
                }));
                assert(before[j] == (if pyy == y && x <= pxx < px {
                    channel(*color, j % 4)
                } else {
                    buf0[j]
                }));
            }
        }

        px += 1;
    }

    proof {
        assert(buffer@ =~= paint(buf0, wi, *color, cov));
    }
}

/// Fill a pixel run of the given length downward from `(x, y)`, clipped
/// against the canvas on the y axis alone.
#[verifier::loop_isolation(false)]
#[verifier::rlimit(60)]
pub fn vertical(
    buffer: &mut [u8],
    width: u32,
    height: u32,
    x: i32,
    y: i32,
    length: u32,
    color: &Color,
)
    requires
        old(buffer)@.len() == width as int * height as int * 4,
        width as int * height as int * 4 <= i32::MAX,
        width <= i32::MAX,
        height <= i32::MAX,
        length <= i32::MAX,
        y + length <= i32::MAX,
        !run_skip(y as int, x as int, length as int, height as int, width as int) ==> 0 <= x
            && run_start(y as int) < height,
    ensures
        final(buffer)@ == paint(
            old(buffer)@,
            width as int,
            *color,
            v_covers(x as int, y as int, length as int, width as int, height as int),
        ),
{
    let ghost buf0 = buffer@;
    let ghost wi = width as int;
    let ghost hi = height as int;
    let ghost cov = v_covers(x as int, y as int, length as int, wi, hi);

    let width_i = width as i32;
    let height_i = height as i32;

    let mut length = length as i32;

    if x >= width_i || y >= height_i || (y + length) < 0 {
        proof {
            assert(paint(buf0, wi, *color, cov) =~= buf0);
        }
        return ;
    }

    let mut y = y;

    if y < 0 {
        length = length + y;
        y = 0;
    }

    if y + length > height_i {
        length = height_i - y;
    }

    // A clipped length of zero still paints the start cell once: the run
    // loop of a vertical fill tests its bound only after the first pass.
    let rows = if length == 0 {
        1
    } else {
        length
    };

    fill_column(buffer, width, height, x, y, rows, color);

    proof {
        assert(paint(buf0, wi, *color, col_block(x as int, y as int, y + rows)) =~= paint(
            buf0,
            wi,
            *color,
            cov,
        ));
    }
}

#[verifier::loop_isolation(false)]
fn fill_column(buffer: &mut [u8], width: u32, height: u32, x: i32, y: i32, rows: i32, color: &Color)
    requires
        old(buffer)@.len() == width as int * height as int * 4,
        width as int * height as int * 4 <= i32::MAX,
        width <= i32::MAX,
        height <= i32::MAX,
        0 <= x < width,
        0 <= y,
        0 < rows,
        y + rows <= height,
    ensures
        final(buffer)@ == paint(
            old(buffer)@,
            width as int,
            *color,
            col_block(x as int, y as int, y + rows),
        ),
{
    let ghost buf0 = buffer@;
    let ghost wi = width as int;
    let ghost hi = height as int;

    let mut py = y;

    while py < y + rows
        invariant
            y <= py <= y + rows,
            buffer@.len() == buf0.len(),
            forall|j: int|
                0 <= j < buf0.len() ==> buffer@[j] == (if pixel_x(wi, j) == x && y <= pixel_y(
                    wi,
                    j,
                ) < py {
                    channel(*color, j % 4)
                } else {
                    buf0[j]
                }),
        decreases y + rows - py,
    {
        proof {
            lemma_pixel_in_buffer(wi, hi, x as int, py as int);
        }
        let ghost before = buffer@;
        write_pixel(buffer, width as usize, color, x as usize, py as usize);
        proof {
            assert forall|j: int| 0 <= j < buf0.len() implies buffer@[j] == (if pixel_x(wi, j) == x
                && y <= pixel_y(wi, j) < py + 1 {
                channel(*color, j % 4)
            } else {
                buf0[j]
            }) by {
                let pxx = pixel_x(wi, j);
                let pyy = pixel_y(wi, j);
                assert(buffer@[j] == (if pxx == x as int && pyy == py as int {
                    channel(*color, j % 4)
                } else {
                    before[j]
                }));
                assert(before[j] == (if pxx == x && y <= pyy < py {
                    channel(*color, j % 4)
                } else {
                    buf0[j]
                }));
            }
        }
        py += 1;
    }

    proof {
        assert(buffer@ =~= paint(buf0, wi, *color, col_block(x as int, y as int, y + rows)));
    }
}

/// The pixels an x-driven Bresenham walk plots, from `(x, y)` with error
/// term `d` until the driving coordinate reaches `x1`. `dx`, `dy` and `yi`
/// are the walk's fixed deltas and y step direction.
pub open spec fn low_trace(x: int, y: int, d: int, x1: int, dx: int, dy: int, yi: int) -> Seq<
    (int, int),
>
    decreases x1 - x,
{
    if x >= x1 {
        Seq::empty()
    } else if d > 0 {
        seq![(x, y)] + low_trace(x + 1, y + yi, d + (dy - dx) * 2, x1, dx, dy, yi)
    } else {
        seq![(x, y)] + low_trace(x + 1, y, d + dy * 2, x1, dx, dy, yi)
    }
}

/// The pixels a y-driven Bresenham walk plots, from `(x, y)` with error
/// term `d` until the driving coordinate reaches `y1`.
pub open spec fn high_trace(x: int, y: int, d: int, y1: int, dx: int, dy: int, xi: int) -> Seq<
    (int, int),
>
    decreases y1 - y,
{
    if y >= y1 {
        Seq::empty()
    } else if d > 0 {
        seq![(x, y)] + high_trace(x + xi, y + 1, d + (dx - dy) * 2, y1, dx, dy, xi)
    } else {
        seq![(x, y)] + high_trace(x, y + 1, d + dx * 2, y1, dx, dy, xi)
    }
}

/// The buffer after an x-driven Bresenham segment from `(x0, y0)` to
/// `(x1, y1)` is plotted, pixel by pixel, through the bounds-checked write.
pub open spec fn low_effect(
    buf: Seq<u8>,
    width: int,
    x0: int,
    y0: int,
    x1: int,
    y1: int,
    c: Color,
) -> Seq<u8> {
    let dx = x1 - x0;
    let dy0 = y1 - y0;
    let yi: int = if dy0 < 0 {
        -1
    } else {
        1
    };
    let dy = if dy0 < 0 {
        -dy0
    } else {
        dy0
    };
    plot_points(buf, width, low_trace(x0, y0, dy * 2 - dx, x1, dx, dy, yi), c)
}

/// The buffer after a y-driven Bresenham segment from `(x0, y0)` to
/// `(x1, y1)` is plotted, pixel by pixel, through the bounds-checked write.
pub open spec fn high_effect(
    buf: Seq<u8>,
    width: int,
    x0: int,
    y0: int,
    x1: int,
    y1: int,
    c: Color,
) -> Seq<u8> {
    let dx0 = x1 - x0;
    let dy = y1 - y0;
    let xi: int = if dx0 < 0 {
        -1
    } else {
        1
    };
    let dx = if dx0 < 0 {
        -dx0
    } else {
        dx0
    };
    plot_points(buf, width, high_trace(x0, y0, dx * 2 - dy, y1, dx, dy, xi), c)
}

/// Plot the x-driven Bresenham variant: one pixel per column from `x0` up
/// to `x1`, the row following the accumulated error term. Every write is
/// bounds-checked, so rows that leave the canvas are skipped silently.
#[verifier::loop_isolation(false)]
fn low(
    buffer: &mut [u8],
    width: usize,
    height: usize,
    color: &Color,
    x0: i32,
    y0: i32,
    x1: i32,
    y1: i32,
)
    requires
        old(buffer)@.len() % 4 == 0,
        0 <= x0 <= x1 <= width as int,
        0 <= y0 <= height as int,
        0 <= y1 <= height as int,
        (if y1 >= y0 { y1 - y0 } else { y0 - y1 }) <= x1 - x0,
        4 * (width as int) <= i32::MAX,
        4 * (height as int) <= i32::MAX,
        (width as int + height as int * width as int) * 4 + 4 <= usize::MAX,
    ensures
        final(buffer)@ == low_effect(
            old(buffer)@,
            width as int,
            x0 as int,
            y0 as int,
            x1 as int,
            y1 as int,
            *color,
        ),
{
    let ghost buf0 = buffer@;
    let ghost wi = width as int;

    let dx = x1 - x0;
    let mut dy = y1 - y0;
    let mut yi: i32 = 1;
    if dy < 0 {
        yi = -1;
        dy = -dy;
    }
    let mut d = (dy * 2) - dx;
    let mut y = y0;
    let mut x = x0;

    // m counts the y steps taken; the error term keeps it at most dy, which
    // keeps the walk between the two endpoint rows.
    let ghost mut m: int = 0;

    proof {
        assert(d == 2 * dy * (x0 - x0 + 1) - dx * (2 * 0 + 1)) by (nonlinear_arith)
            requires
                d == dy * 2 - dx,
        ;
    }

    while x < x1
        invariant
            x0 <= x <= x1,
            0 <= m <= dy,
            y == y0 + yi * m,
            d == 2 * dy * (x - x0 + 1) - dx * (2 * m + 1),
            d <= 2 * dy,
            x < x1 ==> -2 * dx < d,
            buffer@.len() == buf0.len(),
            plot_points(
                buffer@,
                wi,
                low_trace(x as int, y as int, d as int, x1 as int, dx as int, dy as int, yi as int),
                *color,
            ) == plot_points(
                buf0,
                wi,
                low_trace(
                    x0 as int,
                    y0 as int,
                    2 * dy - dx,
                    x1 as int,
                    dx as int,
                    dy as int,
                    yi as int,
                ),
                *color,
            ),
        decreases x1 - x,
    {
        let ghost tr = low_trace(
            x as int,
            y as int,
            d as int,
            x1 as int,
            dx as int,
            dy as int,
            yi as int,
        );

        proof {
            assert(0 <= y <= height as int) by {
                if yi == 1 {
                    assert(y == y0 + m);
                    assert(y0 + dy == y1);
                } else {
                    assert(y == y0 - m);
                    assert(y0 - dy == y1);
                }
            }
            assert((x as int + y as int * wi) * 4 + 4 <= usize::MAX) by (nonlinear_arith)
                requires
                    0 <= x as int <= wi,
                    0 <= y as int <= height as int,
                    (wi + height as int * wi) * 4 + 4 <= usize::MAX,
            ;
        }

        let ghost before = buffer@;
        point::plot(buffer, width, height, color, x as usize, y as usize);

        proof {
            let rest_y: int = if d > 0 {
                y + yi
            } else {
                y as int
            };
            let rest_d: int = if d > 0 {
                d + (dy - dx) * 2
            } else {
                d + dy * 2
            };
            let rest = low_trace(
                x + 1,
                rest_y,
                rest_d,
                x1 as int,
                dx as int,
                dy as int,
                yi as int,
            );
            assert(tr == seq![(x as int, y as int)] + rest);
            assert(tr.subrange(1, tr.len() as int) =~= rest);
            assert(buffer@ == plot_effect(before, wi, x as int, y as int, *color));
            assert(plot_points(before, wi, tr, *color) == plot_points(buffer@, wi, rest, *color));
        }

        if d > 0 {
            proof {
                // One more y step stays within the endpoint rows: were m to
                // pass dy, the error term would already have gone negative.
                assert(2 * dy * (x - x0 + 1) <= 2 * dy * dx) by (nonlinear_arith)
                    requires
                        0 <= dy,
                        x - x0 + 1 <= dx,
                        0 <= x - x0,
                ;
                assert(m + 1 <= dy) by (nonlinear_arith)
                    requires
                        d == 2 * dy * (x - x0 + 1) - dx * (2 * m + 1),
                        d > 0,
                        2 * dy * (x - x0 + 1) <= 2 * dy * dx,
                        dx >= 1,
                        m >= 0,
                ;
                assert(d + (dy - dx) * 2 == 2 * dy * (x + 1 - x0 + 1) - dx * (2 * (m + 1)
                    + 1)) by (nonlinear_arith)
                    requires
                        d == 2 * dy * (x - x0 + 1) - dx * (2 * m + 1),
                ;
                m = m + 1;
            }
            y = y + yi;
            d = d + ((dy - dx) * 2);
        } else {
            proof {
                assert(d + dy * 2 == 2 * dy * (x + 1 - x0 + 1) - dx * (2 * m + 1)) by (nonlinear_arith)
                    requires
                        d == 2 * dy * (x - x0 + 1) - dx * (2 * m + 1),
                ;
            }
            d = d + dy * 2;
        }

        x += 1;
    }
}

/// Plot the y-driven Bresenham variant: one pixel per row from `y0` up to
/// `y1`, the column following the accumulated error term.
#[verifier::loop_isolation(false)]
fn high(
    buffer: &mut [u8],
    width: usize,
    height: usize,
    color: &Color,
    x0: i32,
    y0: i32,
    x1: i32,
    y1: i32,
)
    requires
        old(buffer)@.len() % 4 == 0,
        0 <= y0 <= y1 <= height as int,
        0 <= x0 <= width as int,
        0 <= x1 <= width as int,
        (if x1 >= x0 { x1 - x0 } else { x0 - x1 }) <= y1 - y0,
        4 * (width as int) <= i32::MAX,
        4 * (height as int) <= i32::MAX,
        (width as int + height as int * width as int) * 4 + 4 <= usize::MAX,
    ensures
        final(buffer)@ == high_effect(
            old(buffer)@,
            width as int,
            x0 as int,
            y0 as int,
            x1 as int,
            y1 as int,
            *color,
        ),
{
    let ghost buf0 = buffer@;
    let ghost wi = width as int;

    let mut dx = x1 - x0;
    let dy = y1 - y0;
    let mut xi: i32 = 1;
    if dx < 0 {
        xi = -1;
        dx = -dx;
    }
    let mut d = (dx * 2) - dy;
    let mut x = x0;
    let mut y = y0;

    // m counts the x steps taken; the error term keeps it at most dx, which
    // keeps the walk between the two endpoint columns.
    let ghost mut m: int = 0;

    proof {
        assert(d == 2 * dx * (y0 - y0 + 1) - dy * (2 * 0 + 1)) by (nonlinear_arith)
            requires
                d == dx * 2 - dy,
        ;
    }

    while y < y1
        invariant
            y0 <= y <= y1,
            0 <= m <= dx,
            x == x0 + xi * m,
            d == 2 * dx * (y - y0 + 1) - dy * (2 * m + 1),
            d <= 2 * dx,
            y < y1 ==> -2 * dy < d,
            buffer@.len() == buf0.len(),
            plot_points(
                buffer@,
                wi,
                high_trace(
                    x as int,
                    y as int,
                    d as int,
                    y1 as int,
                    dx as int,
                    dy as int,
                    xi as int,
                ),
                *color,
            ) == plot_points(
                buf0,
                wi,
                high_trace(
                    x0 as int,
                    y0 as int,
                    2 * dx - dy,
                    y1 as int,
                    dx as int,
                    dy as int,
                    xi as int,
                ),
                *color,
            ),
        decreases y1 - y,
    {
        let ghost tr = high_trace(
            x as int,
            y as int,
            d as int,
            y1 as int,
            dx as int,
            dy as int,
            xi as int,
        );

        proof {
            assert(0 <= x <= width as int) by {
                if xi == 1 {
                    assert(x == x0 + m);
                    assert(x0 + dx == x1);
                } else {
                    assert(x == x0 - m);
                    assert(x0 - dx == x1);
                }
            }
            assert((x as int + y as int * wi) * 4 + 4 <= usize::MAX) by (nonlinear_arith)
                requires
                    0 <= x as int <= wi,
                    0 <= y as int <= height as int,
                    (wi + height as int * wi) * 4 + 4 <= usize::MAX,
            ;
        }

        let ghost before = buffer@;
        point::plot(buffer, width, height, color, x as usize, y as usize);

        proof {
            let rest_x: int = if d > 0 {
                x + xi
            } else {
                x as int
            };
            let rest_d: int = if d > 0 {
                d + (dx - dy) * 2
            } else {
                d + dx * 2
            };
            let rest = high_trace(
                rest_x,
                y + 1,
                rest_d,
                y1 as int,
                dx as int,
                dy as int,
                xi as int,
            );
            assert(tr == seq![(x as int, y as int)] + rest);
            assert(tr.subrange(1, tr.len() as int) =~= rest);
            assert(buffer@ == plot_effect(before, wi, x as int, y as int, *color));
            assert(plot_points(before, wi, tr, *color) == plot_points(buffer@, wi, rest, *color));
        }

        if d > 0 {
            proof {
                assert(2 * dx * (y - y0 + 1) <= 2 * dx * dy) by (nonlinear_arith)
                    requires
                        0 <= dx,
                        y - y0 + 1 <= dy,
                        0 <= y - y0,
                ;
                assert(m + 1 <= dx) by (nonlinear_arith)
                    requires
                        d == 2 * dx * (y - y0 + 1) - dy * (2 * m + 1),
                        d > 0,
                        2 * dx * (y - y0 + 1) <= 2 * dx * dy,
                        dy >= 1,
                        m >= 0,
                ;
                assert(d + (dx - dy) * 2 == 2 * dx * (y + 1 - y0 + 1) - dy * (2 * (m + 1)
                    + 1)) by (nonlinear_arith)
                    requires
                        d == 2 * dx * (y - y0 + 1) - dy * (2 * m + 1),
                ;
                m = m + 1;
            }
            x = x + xi;
            d = d + ((dx - dy) * 2);
        } else {
            proof {
                assert(d + dx * 2 == 2 * dx * (y + 1 - y0 + 1) - dy * (2 * m + 1)) by (nonlinear_arith)
                    requires
                        d == 2 * dx * (y - y0 + 1) - dy * (2 * m + 1),
                ;
            }
            d = d + dx * 2;
        }

        y += 1;
    }
}

/// A coordinate clamped into `[0, hi]`, both ends included: the clamp the
/// segment renderer applies to each endpoint.
pub open spec fn clamped(v: int, hi: int) -> int {
    if v < 0 {
        0
    } else if v > hi {
        hi
    } else {
        v
    }
}

/// The buffer after a segment is drawn: a segment that is axis-aligned and
/// fully outside the canvas on that axis is skipped; otherwise both
/// endpoints are clamped into the canvas (clamped, not clipped: lines that
/// cross the boundary may bend) and the flatter-than-steep test picks the
/// x-driven or the y-driven walk, normalized so the driving coordinate
/// grows.
pub open spec fn line_effect(buf: Seq<u8>, width: int, height: int, l: Line, c: Color) -> Seq<u8> {
    if l.x0 == l.x1 && (l.x0 < 0 || l.x0 >= width) {
        buf
    } else if l.y0 == l.y1 && (l.y0 < 0 || l.y0 >= height) {
        buf
    } else {
        let x0 = clamped(l.x0 as int, width);
        let y0 = clamped(l.y0 as int, height);
        let x1 = clamped(l.x1 as int, width);
        let y1 = clamped(l.y1 as int, height);
        let adx = if x1 - x0 < 0 {
            x0 - x1
        } else {
            x1 - x0
        };
        let ady = if y1 - y0 < 0 {
            y0 - y1
        } else {
            y1 - y0
        };
        if adx > ady {
            if x0 < x1 {
                low_effect(buf, width, x0, y0, x1, y1, c)
            } else {
                low_effect(buf, width, x1, y1, x0, y0, c)
            }
        } else {
            if y0 < y1 {
                high_effect(buf, width, x0, y0, x1, y1, c)
            } else {
                high_effect(buf, width, x1, y1, x0, y0, c)
            }
        }
    }
}

/// Drawing a segment never changes the buffer's length.
pub proof fn lemma_line_effect_len(buf: Seq<u8>, width: int, height: int, l: Line, c: Color)
    ensures
        line_effect(buf, width, height, l, c).len() == buf.len(),
{
    let out = line_effect(buf, width, height, l, c);
    let x0 = clamped(l.x0 as int, width);
    let y0 = clamped(l.y0 as int, height);
    let x1 = clamped(l.x1 as int, width);
    let y1 = clamped(l.y1 as int, height);
    lemma_plot_points_len(
        buf,
        width,
        low_trace(
            x0,
            y0,
            2 * (if y1 - y0 < 0 { y0 - y1 } else { y1 - y0 }) - (x1 - x0),
            x1,
            x1 - x0,
            if y1 - y0 < 0 { y0 - y1 } else { y1 - y0 },
            if y1 - y0 < 0 { -1 } else { 1 },
        ),
        c,
    );
    lemma_plot_points_len(
        buf,
        width,
        low_trace(
            x1,
            y1,
            2 * (if y0 - y1 < 0 { y1 - y0 } else { y0 - y1 }) - (x0 - x1),
            x0,
            x0 - x1,
            if y0 - y1 < 0 { y1 - y0 } else { y0 - y1 },
            if y0 - y1 < 0 { -1 } else { 1 },
        ),
        c,
    );
    lemma_plot_points_len(
        buf,
        width,
        high_trace(
            x0,
            y0,
            2 * (if x1 - x0 < 0 { x0 - x1 } else { x1 - x0 }) - (y1 - y0),
            y1,
            if x1 - x0 < 0 { x0 - x1 } else { x1 - x0 },
            y1 - y0,
            if x1 - x0 < 0 { -1 } else { 1 },
        ),
        c,
    );
    lemma_plot_points_len(
        buf,
        width,
        high_trace(
            x1,
            y1,
            2 * (if x0 - x1 < 0 { x1 - x0 } else { x0 - x1 }) - (y0 - y1),
            y0,
            if x0 - x1 < 0 { x1 - x0 } else { x0 - x1 },
            y0 - y1,
            if x0 - x1 < 0 { -1 } else { 1 },
        ),
        c,
    );
}

/// Draw a segment between the line's endpoints, each clamped into the
/// canvas, with the Bresenham variant chosen by its slope.
#[verifier::rlimit(100)]
pub fn render(buffer: &mut [u8], width: u32, height: u32, line: &Line, color: &Color)
    requires
        old(buffer)@.len() % 4 == 0,
        4 * (width as int) <= i32::MAX,
        4 * (height as int) <= i32::MAX,
        (width as int + height as int * width as int) * 4 + 4 <= usize::MAX,
    ensures
        final(buffer)@ == line_effect(
            old(buffer)@,
            width as int,
            height as int,
            *line,
            *color,
        ),
        final(buffer)@.len() == old(buffer)@.len(),
{
    proof {
        lemma_line_effect_len(buffer@, width as int, height as int, *line, *color);
    }
    let width_i = width as i32;
    let height_i = height as i32;

    let x0 = line.x0;
    let y0 = line.y0;
    let x1 = line.x1;
    let y1 = line.y1;

    if x0 == x1 && (x0 < 0 || x0 >= width_i) {
        return ;
    }

    if y0 == y1 && (y0 < 0 || y0 >= height_i) {
        return ;
    }

    let x0 = if x0 < 0 {
        0
    } else if x0 > width_i {
        width_i
    } else {
        x0
    };
    let y0 = if y0 < 0 {
        0
    } else if y0 > height_i {
        height_i
    } else {
        y0
    };
    let x1 = if x1 < 0 {
        0
    } else if x1 > width_i {
        width_i
    } else {
        x1
    };
    let y1 = if y1 < 0 {
        0
    } else if y1 > height_i {
        height_i
    } else {
        y1
    };

    let adx = if x1 - x0 < 0 {
        x0 - x1
    } else {
        x1 - x0
    };
    let ady = if y1 - y0 < 0 {
        y0 - y1
    } else {
        y1 - y0
    };

    if adx > ady {
        if x0 < x1 {
            low(buffer, width as usize, height as usize, color, x0, y0, x1, y1);
        } else {
            low(buffer, width as usize, height as usize, color, x1, y1, x0, y0);
        }
    } else {
        if y0 < y1 {
            high(buffer, width as usize, height as usize, color, x0, y0, x1, y1);
        } else {
            high(buffer, width as usize, height as usize, color, x1, y1, x0, y0);
        }
    }
}

/// The pixels of one row block: row `y`, columns `x0` up to `x1`.
pub open spec fn row_block(y: int, x0: int, x1: int) -> spec_fn(int, int) -> bool {
    |px: int, py: int| py == y && x0 <= px < x1
}

/// An x-driven walk with no y delta plots one straight row: its error term
/// never goes positive, so the row never changes, and the plotted pixels
/// are exactly the row cells from `x` up to `x1`.
proof fn lemma_flat_trace_paints_row(
    buf: Seq<u8>,
    width: int,
    height: int,
    x: int,
    x1: int,
    y: int,
    d: int,
    dx: int,
    yi: int,
    c: Color,
)
    requires
        buf.len() == width * height * 4,
        0 <= x <= x1 <= width,
        0 <= y < height,
        d <= 0,
    ensures
        plot_points(buf, width, low_trace(x, y, d, x1, dx, 0, yi), c) == paint(
            buf,
            width,
            c,
            row_block(y, x, x1),
        ),
    decreases x1 - x,
{
    let tr = low_trace(x, y, d, x1, dx, 0, yi);
    if x >= x1 {
        assert(tr == Seq::<(int, int)>::empty());
        if width > 0 {
            lemma_paint_nothing(buf, width, height, c, row_block(y, x, x1));
        } else {
            assert(buf.len() == 0) by (nonlinear_arith)
                requires
                    buf.len() == width * height * 4,
                    width == 0,
            ;
            assert(paint(buf, width, c, row_block(y, x, x1)) =~= buf);
        }
    } else {
        let rest = low_trace(x + 1, y, d, x1, dx, 0, yi);
        assert(tr == seq![(x, y)] + rest);
        assert(tr.subrange(1, tr.len() as int) =~= rest);
        let stepped = plot_effect(buf, width, x, y, c);
        assert(plot_points(buf, width, tr, c) == plot_points(stepped, width, rest, c));
        lemma_plot_effect_is_paint(buf, width, height, x, y, c);
        lemma_flat_trace_paints_row(stepped, width, height, x + 1, x1, y, d, dx, yi, c);
        assert(stepped.len() == buf.len());
        lemma_paint_compose(
            buf,
            width,
            c,
            (|px: int, py: int| px == x && py == y),
            row_block(y, x + 1, x1),
            row_block(y, x, x1),
        );
    }
}

/// A horizontal segment colors exactly the pixels of its row between its
/// endpoints: with both endpoints inside the canvas and `x0 < x1`, drawing
/// the segment repaints the row cells from `x0` up to `x1` and no other
/// byte of the buffer.
pub proof fn lemma_horizontal_line_paints_row(
    buf: Seq<u8>,
    width: int,
    height: int,
    l: Line,
    c: Color,
)
    requires
        buf.len() == width * height * 4,
        l.y0 == l.y1,
        0 <= l.x0 < l.x1 <= width,
        0 <= l.y0 < height,
    ensures
        line_effect(buf, width, height, l, c) == paint(
            buf,
            width,
            c,
            row_block(l.y0 as int, l.x0 as int, l.x1 as int),
        ),
{
    let x0 = l.x0 as int;
    let x1 = l.x1 as int;
    let y = l.y0 as int;
    assert(clamped(x0, width) == x0);
    assert(clamped(x1, width) == x1);
    assert(clamped(y, height) == y);
    assert(line_effect(buf, width, height, l, c) == low_effect(buf, width, x0, y, x1, y, c));
    lemma_flat_trace_paints_row(buf, width, height, x0, x1, y, -(x1 - x0), x1 - x0, 1, c);
}

} // verus!
