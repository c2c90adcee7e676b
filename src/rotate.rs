//! Left rotation of 32-bit words.
use vstd::prelude::*;

verus! {

/// `x` rotated left by `n mod 32` bits.
pub open spec fn rotl(x: u32, n: u32) -> u32 {
    let s = (n % 32) as u32;
    if s == 0 {
        x
    } else {
        (x << s) | (x >> ((32 - s) as u32))
    }
}

/// `x` rotated left by `n mod 32` bits.
pub(crate) fn rotate_left(x: u32, n: u32) -> (r: u32)
    ensures
        r == rotl(x, n),
{
    let s = n % 32;
    if s == 0 {
        x
    } else {
        (x << s) | (x >> (32 - s))
    }
}

} // verus!
