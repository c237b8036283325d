use vstd::prelude::*;

verus! {

/// The rotation unit intent two opposing keys produce: left turns negative,
/// right positive, and a pair pressed together cancels to zero.
pub open spec fn spec_rotation_intent(left: bool, right: bool) -> int {
    if left && !right {
        -1
    } else if right && !left {
        1
    } else {
        0
    }
}

/// The translation unit intent two opposing keys produce: forward positive,
/// backward negative, and a pair pressed together cancels to zero.
pub open spec fn spec_translation_intent(up: bool, down: bool) -> int {
    if up && !down {
        1
    } else if down && !up {
        -1
    } else {
        0
    }
}

/// Derive the per-tick movement intents from the four input flags: the
/// rotation unit first, the translation unit second.
pub fn intents(left: bool, right: bool, up: bool, down: bool) -> (r: (i32, i32))
    ensures
        r.0 as int == spec_rotation_intent(left, right),
        r.1 as int == spec_translation_intent(up, down),
{
    let mut rotation: i32 = 0;
    let mut translation: i32 = 0;

    if left && !right {
        rotation = -1;
    }

    if right && !left {
        rotation = 1;
    }

    if up && !down {
        translation = 1;
    }

    if down && !up {
        translation = -1;
    }

    (rotation, translation)
}

} // verus!
