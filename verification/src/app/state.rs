use vstd::prelude::*;

use super::data::{color_list, spec_color_list, ColorGroup};
use crate::graphics::color::Color;

verus! {

/// Which passes a ray-drawing run performs: none, both, the map overlay
/// alone, or the first-person surface alone.
#[derive(Clone, Copy, Debug, PartialEq, Eq, Structural)]
pub enum Type {
    Nothing,
    All,
    Overlay,
    Surface,
}

/// Which grid-line family a collision crossed: a vertical line seen going
/// left or right, a horizontal line seen going up or down, or no hit at all.
#[derive(Clone, Copy, Debug, PartialEq, Eq, Structural)]
pub enum Orientation {
    Unset,
    Left,
    Right,
    Up,
    Down,
}

/// The session's draw colors: the fixed tones of the scene and the palette
/// of wall tints, indexed by tile id.
pub struct Colors {
    pub ceiling: Color,
    pub floor: Color,
    pub player: Color,
    pub map: Color,
    pub list: [ColorGroup; 10],
}

impl Colors {
    pub fn new() -> (r: Self)
        ensures
            r.ceiling == (Color { red: 63, green: 63, blue: 63, alpha: 1 }),
            r.floor == (Color { red: 191, green: 191, blue: 191, alpha: 1 }),
            r.player == (Color { red: 31, green: 31, blue: 31, alpha: 1 }),
            r.map == (Color { red: 223, green: 223, blue: 223, alpha: 1 }),
            r.list@ == spec_color_list(),
    {
        Self {
            ceiling: Color { red: 63, green: 63, blue: 63, alpha: 1 },
            floor: Color { red: 191, green: 191, blue: 191, alpha: 1 },
            player: Color { red: 31, green: 31, blue: 31, alpha: 1 },
            map: Color { red: 223, green: 223, blue: 223, alpha: 1 },
            list: color_list(),
        }
    }
}

} // verus!
