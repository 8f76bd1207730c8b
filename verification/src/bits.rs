//! Integers read as fewer or as unsigned bits.

use vstd::prelude::*;

verus! {

/// The bits of `v` as an unsigned number.
pub(crate) fn unsigned_bits(v: i64) -> (res: u64)
    ensures
        res == v as int % 0x1_0000_0000_0000_0000,
{
    let res = v as u64;
    assert(v < 0 ==> res == v + 0x1_0000_0000_0000_0000) by (bit_vector)
        requires
            res == v as u64,
    ;
    assert(v >= 0 ==> res == v) by (bit_vector)
        requires
            res == v as u64,
    ;
    res
}

/// The low 32 bits of `v`.
pub(crate) fn low_32_bits(v: u64) -> (res: u32)
    ensures
        res == v % 0x1_0000_0000,
{
    let res = v as u32;
    assert(res == v % 0x1_0000_0000) by (bit_vector)
        requires
            res == v as u32,
    ;
    res
}

} // verus!
