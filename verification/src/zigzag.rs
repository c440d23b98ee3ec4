//! Signed integers as unsigned ones, with those near zero kept small.
use vstd::prelude::*;

verus! {

/// `0, -1, 1, -2, 2, ..` are numbered `0, 1, 2, 3, 4, ..`.
pub open spec fn zig_zag(n: int) -> nat {
    if n >= 0 {
        (2 * n) as nat
    } else {
        (-2 * n - 1) as nat
    }
}

/// The integer that has this number.
pub open spec fn un_zig_zag(number: nat) -> int {
    if number % 2 == 0 {
        (number / 2) as int
    } else {
        -((number / 2) as int) - 1
    }
}

/// Every integer is found again under its number, and every number is some integer's.
pub proof fn law_zig_zag_reads_back(n: int, number: nat)
    ensures
        un_zig_zag(zig_zag(n)) == n,
        zig_zag(un_zig_zag(number)) == number,
{
}

/// The number of a 32-bit integer.
pub fn encode_zig_zag_32(n: i32) -> (number: u32)
    ensures
        number == zig_zag(n as int),
{
    proof {
        assert(n >= 0 ==> ((n << 1) ^ (n >> 31)) as u32 == 2 * n) by (bit_vector);
        assert(n < 0 ==> ((n << 1) ^ (n >> 31)) as u32 == -2 * n - 1) by (bit_vector);
    }
    #[verifier::truncate]
    (((n << 1) ^ (n >> 31)) as u32)
}

/// The number of a 64-bit integer.
pub fn encode_zig_zag_64(n: i64) -> (number: u64)
    ensures
        number == zig_zag(n as int),
{
    proof {
        assert(n >= 0 ==> ((n << 1) ^ (n >> 63)) as u64 == 2 * n) by (bit_vector);
        assert(n < 0 ==> ((n << 1) ^ (n >> 63)) as u64 == -2 * n - 1) by (bit_vector);
    }
    #[verifier::truncate]
    (((n << 1) ^ (n >> 63)) as u64)
}

} // verus!
