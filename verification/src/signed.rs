//! Signed integers in two's complement.
use vstd::prelude::*;

verus! {

/// The integer modulo 2^32.
pub open spec fn twos_complement_32(value: int) -> nat {
    (value % 0x1_0000_0000) as nat
}

/// The integer modulo 2^64.
pub open spec fn twos_complement_64(value: int) -> nat {
    (value % 0x1_0000_0000_0000_0000) as nat
}

/// The signed 32-bit integer with these low bits.
pub open spec fn signed_32(bits: nat) -> int {
    let low = (bits % 0x1_0000_0000) as int;
    if low < 0x8000_0000 {
        low
    } else {
        low - 0x1_0000_0000
    }
}

/// The signed 64-bit integer with these low bits.
pub open spec fn signed_64(bits: nat) -> int {
    let low = (bits % 0x1_0000_0000_0000_0000) as int;
    if low < 0x8000_0000_0000_0000 {
        low
    } else {
        low - 0x1_0000_0000_0000_0000
    }
}

/// A 64-bit integer is found again in its 64 bits.
pub proof fn law_64_bits_read_back(value: i64)
    ensures
        signed_64(twos_complement_64(value as int)) == value,
{
}

/// A 32-bit integer is found again in its 32 bits; and in its 64 bits, whether they are read as a
/// 64-bit integer or cut off at 32 bits.
pub proof fn law_32_bits_read_back(value: i32)
    ensures
        signed_32(twos_complement_32(value as int)) == value,
        signed_64(twos_complement_64(value as int)) == value,
        signed_32(twos_complement_64(value as int)) == value,
{
}

/// The bits of a 32-bit integer.
pub fn bits_32(value: i32) -> (bits: u32)
    ensures
        bits == twos_complement_32(value as int),
{
    proof {
        assert(value >= 0 ==> value as u32 == value) by (bit_vector);
        assert(value < 0 ==> value as u32 == value + 0x1_0000_0000) by (bit_vector);
    }
    #[verifier::truncate]
    (value as u32)
}

/// The bits of a 64-bit integer.
pub fn bits_64(value: i64) -> (bits: u64)
    ensures
        bits == twos_complement_64(value as int),
{
    proof {
        assert(value >= 0 ==> value as u64 == value) by (bit_vector);
        assert(value < 0 ==> value as u64 == value + 0x1_0000_0000_0000_0000) by (bit_vector);
    }
    #[verifier::truncate]
    (value as u64)
}

} // verus!
