//! Integer helpers of the game's math.
use vstd::prelude::*;

verus! {

/// Clamps `val` into `[min, max]`.
pub fn clamp_integer(val: i32, min: i32, max: i32) -> (r: i32)
    requires
        min <= max,
    ensures
        r == if val < min {
            min
        } else if val > max {
            max
        } else {
            val
        },
{
    let upper = if val < max {
        val
    } else {
        max
    };
    if min > upper {
        min
    } else {
        upper
    }
}

} // verus!
