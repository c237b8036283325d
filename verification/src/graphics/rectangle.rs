use vstd::prelude::*;

verus! {

/// An axis-aligned rectangle in pixel coordinates. `solid` selects a filled
/// fill over an outline when the rectangle is rendered.
#[derive(Clone, Copy, Debug, PartialEq, Eq, Structural)]
pub struct Rectangle {
    pub x: i32,
    pub y: i32,
    pub width: i32,
    pub height: i32,
    pub solid: bool,
}

impl Rectangle {
    pub fn new(x: i32, y: i32, width: i32, height: i32, solid: bool) -> (r: Self)
        ensures
            r.x == x && r.y == y && r.width == width && r.height == height && r.solid == solid,
    {
        Self { x, y, width, height, solid }
    }

    pub fn from_array(r: &[i32; 4], solid: bool) -> (out: Rectangle)
        ensures
            out.x == r[0] && out.y == r[1] && out.width == r[2] && out.height == r[3],
            out.solid == solid,
    {
        let x = r[0];
        let y = r[1];
        let width = r[2];
        let height = r[3];
        Rectangle::new(x, y, width, height, solid)
    }

    pub fn from_tuple(r: &(i32, i32, u32, u32), solid: bool) -> (out: Rectangle)
        requires
            r.2 <= i32::MAX,
            r.3 <= i32::MAX,
        ensures
            out.x == r.0 && out.y == r.1 && out.width == r.2 && out.height == r.3,
            out.solid == solid,
    {
        Rectangle::new(r.0, r.1, r.2 as i32, r.3 as i32, solid)
    }

    /// Whether `(x, y)` falls inside this rectangle, borders included.
    pub fn contains(&self, x: i32, y: i32) -> (r: bool)
        requires
            i32::MIN <= self.x + self.width <= i32::MAX,
            i32::MIN <= self.y + self.height <= i32::MAX,
        ensures
            r == (self.x <= x <= self.x + self.width && self.y <= y <= self.y + self.height),
    {
        x >= self.x && y >= self.y && x <= self.x + self.width && y <= self.y + self.height
    }
}

impl Default for Rectangle {
    fn default() -> (r: Rectangle)
        ensures
            r.x == 0 && r.y == 0 && r.width == 0 && r.height == 0 && !r.solid,
    {
        Rectangle { x: 0, y: 0, width: 0, height: 0, solid: false }
    }
}

} // verus!
