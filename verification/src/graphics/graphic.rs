use vstd::prelude::*;

use super::color::Color;
use super::line::Line;
use super::point::Point;
use super::rectangle::Rectangle;

verus! {

/// One drawing instruction for the rasterizer.
#[derive(Clone, Copy, Debug)]
pub enum Graphic {
    Empty,
    Background { color: Color },
    Point { point: Point, color: Color },
    Line { line: Line, color: Color },
    Rectangle { rectangle: Rectangle, color: Color },
}

impl Graphic {
    pub fn none() -> (r: Self)
        ensures
            r is Empty,
    {
        Graphic::Empty
    }

    pub fn background(color: Color) -> (r: Self)
        ensures
            r == (Graphic::Background { color }),
    {
        Graphic::Background { color }
    }

    pub fn point(point: Point, color: Color) -> (r: Self)
        ensures
            r == (Graphic::Point { point, color }),
    {
        Graphic::Point { point, color }
    }

    pub fn line(line: Line, color: Color) -> (r: Self)
        ensures
            r == (Graphic::Line { line, color }),
    {
        Graphic::Line { line, color }
    }

    pub fn rectangle(rectangle: Rectangle, color: Color) -> (r: Self)
        ensures
            r == (Graphic::Rectangle { rectangle, color }),
    {
        Graphic::Rectangle { rectangle, color }
    }

    /// Move the graphic so that its anchor lies at `(x, y)`: a point or a
    /// rectangle keeps its size, a line keeps its extent.
    pub fn set_x_y(&mut self, x: i32, y: i32)
        requires
            match *old(self) {
                Graphic::Line { line, .. } => {
                    &&& i32::MIN <= line.x1 - line.x0 + x <= i32::MAX
                    &&& i32::MIN <= line.y1 - line.y0 + y <= i32::MAX
                    &&& i32::MIN <= line.x1 - line.x0 <= i32::MAX
                    &&& i32::MIN <= line.y1 - line.y0 <= i32::MAX
                },
                _ => true,
            },
        ensures
            match *old(self) {
                Graphic::Point { point, color } => *final(self) == (Graphic::Point {
                    point: Point { x, y },
                    color,
                }),
                Graphic::Line { line, color } => *final(self) == (Graphic::Line {
                    line: Line { x0: x, y0: y, x1: (line.x1 - line.x0 + x) as i32, y1: (line.y1
                        - line.y0 + y) as i32 },
                    color,
                }),
                Graphic::Rectangle { rectangle, color } => *final(self) == (Graphic::Rectangle {
                    rectangle: Rectangle { x, y, ..rectangle },
                    color,
                }),
                _ => *final(self) == *old(self),
            },
    {
        match self {
            Graphic::Point { point, .. } => {
                point.x = x;
                point.y = y;
            },
            Graphic::Line { line, .. } => {
                let dx = line.x1 - line.x0;
                let dy = line.y1 - line.y0;
                line.x0 = x;
                line.y0 = y;
                line.x1 = dx + x;
                line.y1 = dy + y;
            },
            Graphic::Rectangle { rectangle, .. } => {
                rectangle.x = x;
                rectangle.y = y;
            },
            _ => {},
        }
    }
}

impl Default for Graphic {
    fn default() -> (r: Graphic)
        ensures
            r is Empty,
    {
        Graphic::Empty
    }
}

} // verus!
