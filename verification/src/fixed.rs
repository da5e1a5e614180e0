use vstd::prelude::*;

verus! {

/// World coordinates, directions and angles are fixed-point numbers: an
/// integer `v` stands for the real number `v / ONE`.
pub const ONE: i64 = 65536;

/// The widest and the tallest a grid may be, in world units, so that every
/// fixed-point coordinate inside it, and one step beyond, fits in an `i64`.
pub const MAX_EXTENT: u64 = 0x4000_0000_0000;

/// `v`, or the nearest number that an `i64` holds.
pub open spec fn saturated(v: int) -> int {
    if v < i64::MIN {
        i64::MIN as int
    } else if v > i64::MAX {
        i64::MAX as int
    } else {
        v
    }
}

/// `v`, or the nearest number that an `i64` holds.
pub fn saturate(v: i128) -> (r: i64)
    ensures
        r == saturated(v as int),
{
    if v < i64::MIN as i128 {
        i64::MIN
    } else if v > i64::MAX as i128 {
        i64::MAX
    } else {
        v as i64
    }
}

} // verus!
