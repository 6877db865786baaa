//! Colours of the classification codes.

use vstd::prelude::*;

verus! {

/// The colour of every classification code, as (red, green, blue).
///
/// The neutral centre is white, the first three attractors are orange, blue
/// and brick red, and every other code, the "not settled" code included, is
/// black.
pub open spec fn color_table(code: int) -> (u8, u8, u8) {
    if code == -1 {
        (255u8, 255u8, 255u8)
    } else if code == 0 {
        (255u8, 140u8, 0u8)
    } else if code == 1 {
        (30u8, 144u8, 255u8)
    } else if code == 2 {
        (178u8, 34u8, 34u8)
    } else {
        (0u8, 0u8, 0u8)
    }
}

/// Looks up the colour of a classification code.
pub fn color_of(code: i32) -> (color: (u8, u8, u8))
    ensures
        color == color_table(code as int),
{
    match code {
        -1 => (255, 255, 255),
        0 => (255, 140, 0),
        1 => (30, 144, 255),
        2 => (178, 34, 34),
        _ => (0, 0, 0),
    }
}

} // verus!
