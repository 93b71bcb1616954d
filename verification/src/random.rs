//! The random source, and the rule that turns one draw into a cell.

use crate::cell::Cell;
use vstd::prelude::*;

verus! {

/// The bit pattern of one half as a 64-bit IEEE 754 number.
pub const HALF_BITS: u64 = 0x3FE0_0000_0000_0000;

/// The bit pattern of negative zero, the least pattern with the sign bit set.
pub const NEGATIVE_ZERO_BITS: u64 = 0x8000_0000_0000_0000;

/// The bit pattern of negative infinity, the greatest pattern of a negative
/// number that is no NaN.
pub const NEGATIVE_INFINITY_BITS: u64 = 0xFFF0_0000_0000_0000;

/// Whether the 64-bit IEEE 754 number with the given bit pattern is less than
/// one half. Among the patterns without the sign bit the numbers are ordered
/// as their patterns are, with the NaNs above infinity; the patterns with the
/// sign bit, up to negative infinity, are the negative numbers.
pub open spec fn below_half(bits: u64) -> bool {
    bits < HALF_BITS || NEGATIVE_ZERO_BITS <= bits <= NEGATIVE_INFINITY_BITS
}

/// The cell that a draw stands for: alive where the draw is less than one
/// half, dead otherwise.
pub open spec fn cell_of_draw(bits: u64) -> Cell {
    if below_half(bits) {
        Cell::Alive
    } else {
        Cell::Dead
    }
}

/// Decides a cell from one draw, given as the bit pattern of a 64-bit
/// IEEE 754 number.
pub fn cell_for_draw(bits: u64) -> (cell: Cell)
    ensures
        cell == cell_of_draw(bits),
{
    if bits < HALF_BITS || (NEGATIVE_ZERO_BITS <= bits && bits <= NEGATIVE_INFINITY_BITS) {
        Cell::Alive
    } else {
        Cell::Dead
    }
}

/// Calls `js_sys::Math::random` and hands back the bit pattern of the number
/// it returned. Nothing is claimed of the pattern: the host picks the number,
/// and two calls need not agree. The call needs a JavaScript host; without
/// one it does not return.
#[verifier::external_body]
pub(crate) fn random_draw() -> (bits: u64) {
    js_sys::Math::random().to_bits()
}

} // verus!
