use vstd::prelude::*;

use crate::graphics::color::{channel, Color};

verus! {

/// The buffer after a background fill: every pixel takes the color.
pub open spec fn background_effect(buf: Seq<u8>, c: Color) -> Seq<u8> {
    Seq::new(buf.len(), |i: int| channel(c, i % 4))
}

/// Stripe one RGBA quadruple across the whole buffer.
///
/// The buffer must hold at least one whole pixel: the length is a positive
/// multiple of four.
pub fn render(buffer: &mut [u8], color: &Color)
    requires
        old(buffer)@.len() % 4 == 0,
        old(buffer)@.len() > 0,
    ensures
        final(buffer)@ == background_effect(old(buffer)@, *color),
        final(buffer)@.len() == old(buffer)@.len(),
{
    let length = buffer.len();
    let mut point: usize = 0;

    while point < length
        invariant
            buffer@.len() == length,
            length % 4 == 0,
            point % 4 == 0,
            point <= length,
            forall|i: int| 0 <= i < point ==> buffer@[i] == channel(*color, i % 4),
        decreases length - point,
    {
        assert(point + 4 <= length) by (nonlinear_arith)
            requires
                point % 4 == 0,
                length % 4 == 0,
                point < length,
        ;

        buffer[point + 0] = color.red;
        buffer[point + 1] = color.green;
        buffer[point + 2] = color.blue;
        buffer[point + 3] = color.alpha;

        assert(forall|i: int|
            point <= i < point + 4 ==> buffer@[i] == channel(*color, i - point as int));
        assert forall|i: int| point <= i < point + 4 implies buffer@[i] == channel(
            *color,
            i % 4,
        ) by {
            assert(i % 4 == i - point as int) by (nonlinear_arith)
                requires
                    point % 4 == 0,
                    point <= i < point + 4,
            ;
        }

        point += 4;
    }

    proof {
        assert(buffer@ =~= background_effect(old(buffer)@, *color));
    }
}

} // verus!
