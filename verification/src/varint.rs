//! Base-128 variable-length integers, least significant group first.
use vstd::prelude::*;

verus! {

/// The encoding of `value`: seven bits to a byte, with the top bit set on every byte but the
/// last.
pub open spec fn varint(value: nat) -> Seq<u8>
    decreases value,
{
    if value < 0x80 {
        seq![value as u8]
    } else {
        seq![(0x80 + value % 0x80) as u8] + varint(value / 0x80)
    }
}

/// Reads an encoded integer off the front of `bytes`: its value, and how many bytes it took.
pub open spec fn read_varint(bytes: Seq<u8>) -> Option<(nat, nat)>
    decreases bytes.len(),
{
    if bytes.len() == 0 {
        None
    } else if bytes[0] < 0x80 {
        Some((bytes[0] as nat, 1))
    } else {
        match read_varint(bytes.drop_first()) {
            Some((high, length)) => Some((0x80 * high + (bytes[0] - 0x80) as nat, length + 1)),
            None => None,
        }
    }
}

/// Reading back an encoded integer gives the integer, and leaves what follows it.
pub proof fn law_varint_reads_back(value: nat, rest: Seq<u8>)
    ensures
        read_varint(varint(value) + rest) == Some((value, varint(value).len())),
    decreases value,
{
    let bytes = varint(value) + rest;
    if value >= 0x80 {
        law_varint_reads_back(value / 0x80, rest);
        assert(bytes.drop_first() =~= varint(value / 0x80) + rest);
        assert(0x80 * (value / 0x80) + value % 0x80 == value);
    }
}

/// No encoding is empty; one of a 32-bit integer has at most five bytes, one of a 64-bit integer
/// at most ten.
pub proof fn law_varint_length(value: nat)
    ensures
        1 <= varint(value).len(),
        value <= u32::MAX ==> varint(value).len() <= 5,
        value <= u64::MAX ==> varint(value).len() <= 10,
{
    reveal_with_fuel(varint, 10);
}

/// Writes the encoding of `value` to the front of `buf` and returns its length.
pub fn encode_varint32(value: u32, buf: &mut [u8]) -> (length: usize)
    requires
        varint(value as nat).len() <= old(buf)@.len(),
    ensures
        length == varint(value as nat).len(),
        final(buf)@ == varint(value as nat) + old(buf)@.skip(length as int),
{
    encode_varint64(value as u64, buf)
}

/// Writes the encoding of `value` to the front of `buf` and returns its length.
pub fn encode_varint64(value: u64, buf: &mut [u8]) -> (length: usize)
    requires
        varint(value as nat).len() <= old(buf)@.len(),
    ensures
        length == varint(value as nat).len(),
        final(buf)@ == varint(value as nat) + old(buf)@.skip(length as int),
{
    let mut rest: u64 = value;
    let mut i: usize = 0;
    proof {
        assert(buf@.take(0) + varint(value as nat) =~= varint(value as nat));
    }
    while rest >= 0x80
        invariant
            i + varint(rest as nat).len() == varint(value as nat).len(),
            varint(value as nat).len() <= old(buf)@.len(),
            buf@.len() == old(buf)@.len(),
            buf@.take(i as int) + varint(rest as nat) == varint(value as nat),
            buf@.skip(i as int) == old(buf)@.skip(i as int),
        decreases rest,
    {
        proof {
            law_varint_length((rest / 0x80) as nat);
            assert((rest & 0x7f) | 0x80 == 0x80 + rest % 0x80) by (bit_vector);
            assert(rest >> 7 == rest / 0x80) by (bit_vector);
        }
        let ghost before = buf@;
        buf[i] = ((rest & 0x7f) | 0x80) as u8;
        proof {
            assert(buf@.take(i + 1) + varint((rest / 0x80) as nat) =~= before.take(i as int)
                + varint(rest as nat));
            assert(buf@.skip(i + 1) =~= before.skip(i as int).skip(1));
            assert(old(buf)@.skip(i + 1) =~= old(buf)@.skip(i as int).skip(1));
        }
        rest = rest >> 7;
        i = i + 1;
    }
    let ghost before = buf@;
    buf[i] = rest as u8;
    proof {
        assert(before.skip(i as int).skip(1) =~= before.skip(i + 1));
        assert(old(buf)@.skip(i as int).skip(1) =~= old(buf)@.skip(i + 1));
        assert(buf@ =~= before.take(i as int) + seq![rest as u8] + before.skip(i + 1));
    }
    i + 1
}

} // verus!
