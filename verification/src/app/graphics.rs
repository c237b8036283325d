use vstd::prelude::*;

use super::state::Orientation;
use crate::canvas;
use crate::canvas::pixels::paint;
use crate::canvas::rectangle::rect_covers;
use crate::graphics::color::Color;
use crate::graphics::rectangle::Rectangle;

verus! {

/// Fill one solid rectangle given by its corner and size.
pub fn draw_rectangle(
    buffer: &mut [u8],
    width: u32,
    height: u32,
    x: i32,
    y: i32,
    w: i32,
    h: i32,
    color: &Color,
)
    requires
        old(buffer)@.len() == width as int * height as int * 4,
        width as int * height as int * 4 <= i32::MAX,
        width <= i32::MAX,
        height <= i32::MAX,
        i32::MIN <= x + w <= i32::MAX,
        i32::MIN <= y + h <= i32::MAX,
        width == 0 ==> x >= 0 || x + w <= 0,
        height == 0 ==> y >= 0 || y + h <= 0,
    ensures
        final(buffer)@ == paint(
            old(buffer)@,
            width as int,
            *color,
            rect_covers(
                Rectangle { x, y, width: w, height: h, solid: true },
                width as int,
                height as int,
            ),
        ),
{
    let rectangle = Rectangle::new(x, y, w, h, true);
    canvas::rectangle::render(buffer, width, height, &rectangle, color);
}

/// The ceiling half of the viewport: the top of the environment, half its
/// height tall.
pub open spec fn ceiling_rect(env_x: int, env_y: int, env_w: int, env_h: int) -> Rectangle {
    Rectangle {
        x: env_x as i32,
        y: env_y as i32,
        width: env_w as i32,
        height: (env_h / 2) as i32,
        solid: true,
    }
}

/// The floor half of the viewport: offset down by half the screen height,
/// half the environment's height tall.
pub open spec fn floor_rect(env_x: int, env_y: int, env_w: int, env_h: int, height: int) -> Rectangle {
    Rectangle {
        x: env_x as i32,
        y: (env_y + height / 2) as i32,
        width: env_w as i32,
        height: (env_h / 2) as i32,
        solid: true,
    }
}

/// Paint the scene backdrop: the ceiling tone over the environment's top
/// half, then the floor tone over its bottom half.
pub fn draw_surface(
    buffer: &mut [u8],
    width: u32,
    height: u32,
    env_x: u32,
    env_y: u32,
    env_w: u32,
    env_h: u32,
    ceiling: &Color,
    floor: &Color,
)
    requires
        old(buffer)@.len() == width as int * height as int * 4,
        width as int * height as int * 4 <= i32::MAX,
        width <= i32::MAX,
        height <= i32::MAX,
        env_x + env_w <= i32::MAX,
        env_y + env_h / 2 <= i32::MAX,
        env_y + height / 2 + env_h / 2 <= i32::MAX,
    ensures
        final(buffer)@ == paint(
            paint(
                old(buffer)@,
                width as int,
                *ceiling,
                rect_covers(
                    ceiling_rect(env_x as int, env_y as int, env_w as int, env_h as int),
                    width as int,
                    height as int,
                ),
            ),
            width as int,
            *floor,
            rect_covers(
                floor_rect(
                    env_x as int,
                    env_y as int,
                    env_w as int,
                    env_h as int,
                    height as int,
                ),
                width as int,
                height as int,
            ),
        ),
{
    draw_rectangle(
        buffer,
        width,
        height,
        env_x as i32,
        env_y as i32,
        env_w as i32,
        (env_h / 2) as i32,
        ceiling,
    );

    draw_rectangle(
        buffer,
        width,
        height,
        env_x as i32,
        (env_y + height / 2) as i32,
        env_w as i32,
        (env_h / 2) as i32,
        floor,
    );
}

/// Pick a wall strip's tone from the hit orientation: a hit on a vertical
/// grid line (seen left or right) takes the base tone, any other the shade.
pub fn strip_color(orientation: &Orientation, base: Color, shade: Color) -> (r: Color)
    ensures
        r == if orientation is Left || orientation is Right {
            base
        } else {
            shade
        },
{
    let horizontal = *orientation == Orientation::Left || *orientation == Orientation::Right;

    if horizontal {
        base
    } else {
        shade
    }
}

} // verus!
