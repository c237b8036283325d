use vstd::prelude::*;

verus! {

/// A position in pixel coordinates.
#[derive(Clone, Copy, Debug, PartialEq, Eq, Structural)]
pub struct Point {
    pub x: i32,
    pub y: i32,
}

impl Point {
    pub fn new(x: i32, y: i32) -> (r: Self)
        ensures
            r.x == x && r.y == y,
    {
        Self { x, y }
    }

    /// Whether `(x, y)` falls on this point.
    pub fn contains(&self, x: i32, y: i32) -> (r: bool)
        ensures
            r == (x == self.x && y == self.y),
    {
        x == self.x && y == self.y
    }
}

impl Default for Point {
    fn default() -> (r: Point)
        ensures
            r.x == 0 && r.y == 0,
    {
        Point { x: 0, y: 0 }
    }
}

} // verus!
