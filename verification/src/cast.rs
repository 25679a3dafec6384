//! Unsigned numbers in signed database columns.

use vstd::prelude::*;

verus! {

/// The signed 64-bit number that has the same bits as `x`.
pub open spec fn wrapped_i64(x: u64) -> int {
    if x <= i64::MAX {
        x as int
    } else {
        x - 0x1_0000_0000_0000_0000
    }
}

/// Reinterprets the bits of `x` as a signed number, which is how columns hold it.
pub fn to_i64(x: u64) -> (y: i64)
    ensures
        y == wrapped_i64(x),
        x <= i64::MAX ==> y == x,
        x > i64::MAX ==> y == x - 0x1_0000_0000_0000_0000,
{
    assert(x <= 0x7fff_ffff_ffff_ffff ==> (x as i64) == x) by (bit_vector);
    assert(x > 0x7fff_ffff_ffff_ffff ==> (x as i64) == x - 0x1_0000_0000_0000_0000) by (bit_vector);
    x as i64
}

/// A number that a column can hold is stored as it is. Any other is stored as the one number that a
/// column can hold and that differs from it by a whole turn. So no two numbers are stored alike.
pub proof fn law_stored_as_it_is(x: u64, y: u64)
    ensures
        i64::MIN <= wrapped_i64(x) <= i64::MAX,
        wrapped_i64(x) == x || wrapped_i64(x) + 0x1_0000_0000_0000_0000 == x,
        x <= i64::MAX ==> wrapped_i64(x) == x,
        wrapped_i64(x) == wrapped_i64(y) ==> x == y,
{
}

} // verus!
