use vstd::prelude::*;

use super::detection::grid_wf;
use crate::graphics::color::Color;

verus! {

/// The three tones a wall id is drawn with: the base for lit faces, the
/// tint for map rays, the shade for the darker faces.
#[derive(Clone, Copy, Debug, PartialEq, Eq, Structural)]
pub struct ColorGroup {
    pub base: Color,
    pub tint: Color,
    pub shade: Color,
}

impl ColorGroup {
    pub fn new(base: Color, tint: Color, shade: Color) -> (r: Self)
        ensures
            r == (ColorGroup { base, tint, shade }),
    {
        Self { base, tint, shade }
    }
}

/// Build one color from its four channel bytes.
pub fn color(red: u8, green: u8, blue: u8, alpha: u8) -> (r: Color)
    ensures
        r == (Color { red, green, blue, alpha }),
{
    Color { red, green, blue, alpha }
}

/// One palette group, in spec form.
pub open spec fn spec_group(base: (u8, u8, u8), tint: (u8, u8, u8), shade: (u8, u8, u8)) -> ColorGroup {
    ColorGroup {
        base: Color { red: base.0, green: base.1, blue: base.2, alpha: 1 },
        tint: Color { red: tint.0, green: tint.1, blue: tint.2, alpha: 1 },
        shade: Color { red: shade.0, green: shade.1, blue: shade.2, alpha: 1 },
    }
}

/// The wall palette, one group per tile id: greys for id 0, then medium,
/// red, orange, yellow, green, cyan, blue, indigo and violet.
pub open spec fn spec_color_list() -> Seq<ColorGroup> {
    seq![
        spec_group((159, 159, 159), (127, 127, 127), (95, 95, 95)),
        spec_group((127, 135, 143), (143, 151, 159), (111, 119, 127)),
        spec_group((239, 79, 119), (255, 105, 158), (160, 53, 85)),
        spec_group((239, 123, 107), (255, 164, 142), (160, 82, 72)),
        spec_group((239, 175, 127), (255, 233, 169), (160, 117, 85)),
        spec_group((95, 175, 127), (126, 233, 169), (64, 117, 85)),
        spec_group((0, 143, 143), (0, 190, 190), (0, 96, 96)),
        spec_group((0, 87, 159), (0, 116, 211), (0, 58, 106)),
        spec_group((87, 63, 159), (116, 84, 211), (58, 42, 106)),
        spec_group((159, 63, 159), (211, 84, 211), (107, 42, 107)),
    ]
}

/// The wall palette as draw data.
pub fn color_list() -> (r: [ColorGroup; 10])
    ensures
        r@ == spec_color_list(),
{
    let list = [
        ColorGroup::new(color(159, 159, 159, 1), color(127, 127, 127, 1), color(95, 95, 95, 1)),
        ColorGroup::new(color(127, 135, 143, 1), color(143, 151, 159, 1), color(111, 119, 127, 1)),
        ColorGroup::new(color(239, 79, 119, 1), color(255, 105, 158, 1), color(160, 53, 85, 1)),
        ColorGroup::new(color(239, 123, 107, 1), color(255, 164, 142, 1), color(160, 82, 72, 1)),
        ColorGroup::new(color(239, 175, 127, 1), color(255, 233, 169, 1), color(160, 117, 85, 1)),
        ColorGroup::new(color(95, 175, 127, 1), color(126, 233, 169, 1), color(64, 117, 85, 1)),
        ColorGroup::new(color(0, 143, 143, 1), color(0, 190, 190, 1), color(0, 96, 96, 1)),
        ColorGroup::new(color(0, 87, 159, 1), color(0, 116, 211, 1), color(0, 58, 106, 1)),
        ColorGroup::new(color(87, 63, 159, 1), color(116, 84, 211, 1), color(58, 42, 106, 1)),
        ColorGroup::new(color(159, 63, 159, 1), color(211, 84, 211, 1), color(107, 42, 107, 1)),
    ];
    proof {
        assert(list@ =~= spec_color_list());
    }
    list
}

/// The session map: a 24-row, 32-column grid of tile ids, fully walled at
/// the border.
pub fn grid() -> (r: Vec<Vec<u32>>)
    ensures
        grid_wf(r.deep_view(), 32, 24),
{
    let g: Vec<Vec<u32>> = vec![
        vec![1,1,1,1,1,1,1,1,1,1,1,1,1,1,1,1,1,1,1,1,1,1,1,1,1,1,1,1,1,1,1,1],
        vec![1,0,0,0,0,0,0,0,0,0,0,0,0,0,0,0,0,0,0,0,0,0,0,0,0,0,0,0,0,0,0,1],
        vec![1,0,0,0,0,0,0,0,0,0,0,0,0,0,0,0,0,0,0,0,0,0,0,0,0,0,0,0,0,0,0,1],
        vec![1,0,0,8,8,8,0,0,8,8,8,0,0,0,0,0,0,0,0,0,0,2,0,2,2,0,2,2,2,0,0,1],
        vec![1,0,0,8,0,0,0,0,0,0,8,0,0,0,0,0,0,0,0,0,0,2,0,2,2,0,2,2,2,0,0,1],
        vec![1,0,0,8,0,9,0,0,9,0,8,0,0,0,0,0,0,0,0,0,0,2,0,2,2,0,2,2,2,0,0,1],
        vec![1,0,0,0,0,0,0,0,0,0,0,0,0,0,0,0,0,0,0,0,0,0,0,0,0,0,0,0,0,0,0,1],
        vec![1,0,0,0,0,0,0,0,0,0,0,0,0,0,0,0,0,0,0,0,0,3,0,3,3,0,3,3,3,0,0,1],
        vec![1,0,0,7,0,9,0,0,9,0,7,0,0,0,0,0,0,0,0,0,0,3,0,3,3,0,3,3,3,0,0,1],
        vec![1,0,0,7,0,0,0,0,0,0,7,0,0,0,0,0,0,0,0,0,0,0,0,0,0,0,0,0,0,0,0,1],
        vec![1,0,0,7,7,7,0,0,7,7,7,0,0,0,0,0,0,0,0,0,0,4,0,4,4,0,4,4,4,0,0,1],
        vec![1,0,0,0,0,0,0,0,0,0,0,0,0,0,0,0,0,0,0,0,0,0,0,0,0,0,0,0,0,0,0,1],
        vec![1,0,0,0,0,0,0,0,0,0,0,0,0,0,0,0,0,0,0,0,0,0,0,0,0,0,0,0,0,0,0,1],
        vec![1,0,0,8,0,9,0,0,3,0,2,0,0,0,0,0,0,0,0,0,0,6,0,6,0,0,5,0,5,0,0,1],
        vec![1,0,0,0,0,0,0,0,3,0,2,0,0,0,0,0,0,0,0,0,0,0,6,6,0,0,0,5,0,0,0,1],
        vec![1,0,0,9,0,8,0,0,3,0,2,0,0,0,0,0,0,0,0,0,0,6,0,6,0,0,5,5,5,0,0,1],
        vec![1,0,0,0,0,0,0,0,0,0,0,0,0,0,0,0,0,0,0,0,0,0,0,0,0,0,0,0,0,0,0,1],
        vec![1,0,0,0,0,0,0,0,0,0,0,0,0,0,0,0,0,0,0,0,0,0,0,0,0,0,0,0,0,0,0,1],
        vec![1,0,0,7,0,6,0,0,5,0,4,0,0,0,0,0,0,0,0,0,0,5,5,5,0,0,6,0,6,0,0,1],
        vec![1,0,0,7,0,6,0,0,0,0,0,0,0,0,0,0,0,0,0,0,0,0,5,0,0,0,6,6,0,0,0,1],
        vec![1,0,0,7,0,6,0,0,4,0,5,0,0,0,0,0,0,0,0,0,0,5,0,5,0,0,6,0,6,0,0,1],
        vec![1,0,0,0,0,0,0,0,0,0,0,0,0,0,0,0,0,0,0,0,0,0,0,0,0,0,0,0,0,0,0,1],
        vec![1,0,0,0,0,0,0,0,0,0,0,0,0,0,0,0,0,0,0,0,0,0,0,0,0,0,0,0,0,0,0,1],
        vec![1,1,1,1,1,1,1,1,1,1,1,1,1,1,1,1,1,1,1,1,1,1,1,1,1,1,1,1,1,1,1,1],
    ];
    proof {
        let dv = g.deep_view();
        assert(dv.len() == 24);
        assert forall|row: int| 0 <= row < 24 implies (#[trigger] dv[row]).len() == 32 by {
            assert(dv[row] == g@[row].deep_view());
        }
        assert forall|row: int, col: int| 0 <= row < 24 && 0 <= col < 32 implies #[trigger] dv[row][col]
            < 10 by {
            assert(dv[row] == g@[row].deep_view());
            assert(dv[row][col] == g@[row]@[col]);
        }
    }
    g
}

} // verus!
