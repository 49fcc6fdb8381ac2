//! Numbers as the protocols carry them.
use vstd::prelude::*;

verus! {

/// An unsigned number in a signed field of 32 bits: from 2^31 on it wraps to the
/// negative numbers.
pub open spec fn wrapped(n: int) -> int {
    if n < 0x8000_0000 {
        n
    } else {
        n - 0x1_0000_0000
    }
}

pub fn to_signed(n: u32) -> (res: i32)
    ensures
        res == wrapped(n as int),
{
    let res: i32 = #[verifier::truncate] (n as i32);
    proof {
        assert(n < 0x8000_0000u32 ==> (n as i32) as int == n as int) by (bit_vector);
        assert(n >= 0x8000_0000u32 ==> (n as i32) as int == n as int - 0x1_0000_0000int)
            by (bit_vector);
    }
    res
}

/// The upper 32 bits of a format modifier.
pub fn modifier_high(modifier: u64) -> (res: u32)
    ensures
        res == modifier / 0x1_0000_0000,
{
    proof {
        assert(modifier >> 32 == modifier / 0x1_0000_0000) by (bit_vector);
    }
    (modifier >> 32) as u32
}

/// The lower 32 bits of a format modifier.
pub fn modifier_low(modifier: u64) -> (res: u32)
    ensures
        res == modifier % 0x1_0000_0000,
{
    proof {
        assert(modifier & 0xffff_ffff == modifier % 0x1_0000_0000) by (bit_vector);
    }
    (modifier & 0xffff_ffff) as u32
}

/// A number that does not fit a signed field is carried by the one that has the same
/// lower 32 bits; a number that fits is carried as it is.
pub proof fn law_wrapping_keeps_bits(n: int)
    requires
        0 <= n <= u32::MAX,
    ensures
        i32::MIN <= wrapped(n) <= i32::MAX,
        (n - wrapped(n)) % 0x1_0000_0000 == 0,
        n <= i32::MAX ==> wrapped(n) == n,
{
}

} // verus!
