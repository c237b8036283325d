use vstd::prelude::*;

verus! {

/// A segment between two positions in pixel coordinates.
#[derive(Clone, Copy, Debug, PartialEq, Eq, Structural)]
pub struct Line {
    pub x0: i32,
    pub y0: i32,
    pub x1: i32,
    pub y1: i32,
}

impl Line {
    pub fn new(x0: i32, y0: i32, x1: i32, y1: i32) -> (r: Self)
        ensures
            r.x0 == x0 && r.y0 == y0 && r.x1 == x1 && r.y1 == y1,
    {
        Self { x0, y0, x1, y1 }
    }
}

impl Default for Line {
    fn default() -> (r: Line)
        ensures
            r.x0 == 0 && r.y0 == 0 && r.x1 == 0 && r.y1 == 0,
    {
        Line { x0: 0, y0: 0, x1: 0, y1: 0 }
    }
}

} // verus!
