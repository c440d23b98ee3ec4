//! Fixed-width integers, least significant byte first.
use vstd::prelude::*;

verus! {

/// The `width` low bytes of `value`, least significant first.
pub open spec fn little_endian(value: nat, width: nat) -> Seq<u8>
    decreases width,
{
    if width == 0 {
        seq![]
    } else {
        seq![(value % 0x100) as u8] + little_endian(value / 0x100, (width - 1) as nat)
    }
}

/// The integer whose bytes are `bytes`, least significant first.
pub open spec fn read_little_endian(bytes: Seq<u8>) -> nat
    decreases bytes.len(),
{
    if bytes.len() == 0 {
        0
    } else {
        bytes[0] as nat + 0x100 * read_little_endian(bytes.drop_first())
    }
}

/// There are as many bytes as were asked for.
pub proof fn law_little_endian_length(value: nat, width: nat)
    ensures
        little_endian(value, width).len() == width,
    decreases width,
{
    if width > 0 {
        law_little_endian_length(value / 0x100, (width - 1) as nat);
    }
}

/// Four bytes give a 32-bit integer back, and eight bytes a 64-bit integer.
pub proof fn law_little_endian_reads_back(value: nat)
    ensures
        value <= u32::MAX ==> read_little_endian(little_endian(value, 4)) == value,
        value <= u64::MAX ==> read_little_endian(little_endian(value, 8)) == value,
{
    lemma_reads_back_modulo(value, 4);
    lemma_reads_back_modulo(value, 8);
    reveal_with_fuel(excess, 9);
}

/// What is left of `value` once `width` low bytes are gone.
spec fn excess(value: nat, width: nat) -> nat
    decreases width,
{
    if width == 0 {
        value
    } else {
        excess(value / 0x100, (width - 1) as nat)
    }
}

proof fn lemma_reads_back_modulo(value: nat, width: nat)
    ensures
        excess(value, width) == 0 ==> read_little_endian(little_endian(value, width)) == value,
    decreases width,
{
    if width > 0 {
        lemma_reads_back_modulo(value / 0x100, (width - 1) as nat);
        let bytes = little_endian(value, width);
        assert(bytes.drop_first() =~= little_endian(value / 0x100, (width - 1) as nat));
    }
}

/// The four bytes of `value`.
pub fn little_endian_32(value: u32) -> (bytes: [u8; 4])
    ensures
        bytes@ == little_endian(value as nat, 4),
{
    proof {
        reveal_with_fuel(little_endian, 5);
        assert(value & 0xff == value % 0x100) by (bit_vector);
        assert((value >> 8) & 0xff == value / 0x100 % 0x100) by (bit_vector);
        assert((value >> 16) & 0xff == value / 0x100 / 0x100 % 0x100) by (bit_vector);
        assert((value >> 24) & 0xff == value / 0x100 / 0x100 / 0x100 % 0x100) by (bit_vector);
    }
    let bytes: [u8; 4] = [
        (value & 0xff) as u8,
        ((value >> 8) & 0xff) as u8,
        ((value >> 16) & 0xff) as u8,
        ((value >> 24) & 0xff) as u8,
    ];
    assert(bytes@ =~= little_endian(value as nat, 4));
    bytes
}

/// The eight bytes of `value`.
pub fn little_endian_64(value: u64) -> (bytes: [u8; 8])
    ensures
        bytes@ == little_endian(value as nat, 8),
{
    proof {
        reveal_with_fuel(little_endian, 9);
        assert(value & 0xff == value % 0x100) by (bit_vector);
        assert((value >> 8) & 0xff == value / 0x100 % 0x100) by (bit_vector);
        assert((value >> 16) & 0xff == value / 0x100 / 0x100 % 0x100) by (bit_vector);
        assert((value >> 24) & 0xff == value / 0x100 / 0x100 / 0x100 % 0x100) by (bit_vector);
        assert((value >> 32) & 0xff == value / 0x100 / 0x100 / 0x100 / 0x100 % 0x100)
            by (bit_vector);
        assert((value >> 40) & 0xff == value / 0x100 / 0x100 / 0x100 / 0x100 / 0x100 % 0x100)
            by (bit_vector);
        assert((value >> 48) & 0xff == value / 0x100 / 0x100 / 0x100 / 0x100 / 0x100 / 0x100
            % 0x100) by (bit_vector);
        assert((value >> 56) & 0xff == value / 0x100 / 0x100 / 0x100 / 0x100 / 0x100 / 0x100
            / 0x100 % 0x100) by (bit_vector);
    }
    let bytes: [u8; 8] = [
        (value & 0xff) as u8,
        ((value >> 8) & 0xff) as u8,
        ((value >> 16) & 0xff) as u8,
        ((value >> 24) & 0xff) as u8,
        ((value >> 32) & 0xff) as u8,
        ((value >> 40) & 0xff) as u8,
        ((value >> 48) & 0xff) as u8,
        ((value >> 56) & 0xff) as u8,
    ];
    assert(bytes@ =~= little_endian(value as nat, 8));
    bytes
}

} // verus!
