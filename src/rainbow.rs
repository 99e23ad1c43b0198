//! The colors of the rainbow sample animation.

use vstd::prelude::*;

verus! {

/// How a module's pixel writes reach the strip.
#[derive(Clone, Copy, Debug, PartialEq, Eq)]
pub enum Mode {
    /// Each write is shown at once.
    Instant,
    /// Writes wait for `show`.
    Queue,
}

/// The color at a position of the color wheel: red turns to green over the
/// first third, green to blue over the second, blue back to red over the last.
pub open spec fn wheel_spec(position: u8) -> (u8, u8, u8) {
    if position < 85 {
        ((position * 3) as u8, (255 - position * 3) as u8, 0)
    } else if position < 170 {
        let p = position - 85;
        ((255 - p * 3) as u8, 0, (p * 3) as u8)
    } else {
        let p = position - 170;
        (0, (p * 3) as u8, (255 - p * 3) as u8)
    }
}

/// The color at a position of the color wheel.
pub fn wheel(position: u8) -> (r: (u8, u8, u8))
    ensures
        r == wheel_spec(position),
{
    if position < 85 {
        (position * 3, 255 - position * 3, 0)
    } else if position < 170 {
        let p = position - 85;
        (255 - p * 3, 0, p * 3)
    } else {
        let p = position - 170;
        (0, p * 3, 255 - p * 3)
    }
}

} // verus!
