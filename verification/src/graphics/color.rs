use vstd::prelude::*;

verus! {

/// One RGBA color, one byte per channel.
#[derive(Clone, Copy, Debug, PartialEq, Eq, Structural)]
pub struct Color {
    pub red: u8,
    pub green: u8,
    pub blue: u8,
    pub alpha: u8,
}

/// The byte a color stores for channel `k` of a pixel, in the buffer's
/// red, green, blue, alpha order.
pub open spec fn channel(c: Color, k: int) -> u8 {
    if k == 0 {
        c.red
    } else if k == 1 {
        c.green
    } else if k == 2 {
        c.blue
    } else {
        c.alpha
    }
}

impl Default for Color {
    /// The all-zero (transparent black) color.
    fn default() -> (r: Color)
        ensures
            r.red == 0 && r.green == 0 && r.blue == 0 && r.alpha == 0,
    {
        Color { red: 0, green: 0, blue: 0, alpha: 0 }
    }
}

} // verus!
