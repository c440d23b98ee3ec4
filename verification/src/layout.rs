//! What the bytes of a value are, said with arithmetic alone.
use vstd::arithmetic::div_mod::lemma_div_denominator;
use vstd::arithmetic::power::{
    lemma_pow0, lemma_pow1, lemma_pow_adds, lemma_pow_increases, lemma_pow_positive, pow,
};
use vstd::prelude::*;

use crate::endian;
use crate::output;
use crate::signed;
use crate::unknown;
use crate::varint;
use crate::wire_format;
use crate::wire_format::{Tag, WireType};
use crate::zigzag;

verus! {

/// A varint has the base-128 digits of its value, least significant first and none too many: the
/// value fits the digits that there are, and not one digit less. The top bit is set on every byte
/// but the last.
pub proof fn law_varint_is_the_shortest(value: nat)
    ensures
        varint::varint(value).len() >= 1,
        value < pow(0x80, varint::varint(value).len()),
        varint::varint(value).len() > 1 ==> value >= pow(
            0x80,
            (varint::varint(value).len() - 1) as nat,
        ),
        forall|i: int|
            #![trigger varint::varint(value)[i]]
            0 <= i < varint::varint(value).len() ==> varint::varint(value)[i] as int % 0x80
                == value as int / pow(0x80, i as nat) % 0x80,
        forall|i: int|
            #![trigger varint::varint(value)[i]]
            0 <= i < varint::varint(value).len() ==> (varint::varint(value)[i] >= 0x80 <==> i
                < varint::varint(value).len() - 1),
    decreases value,
{
    let bytes = varint::varint(value);
    lemma_pow0(0x80);
    lemma_pow1(0x80);
    if value >= 0x80 {
        let high = value / 0x80;
        let behind = varint::varint(high);
        law_varint_is_the_shortest(high);
        lemma_pow_adds(0x80, 1, behind.len());
        lemma_pow_adds(0x80, 1, (behind.len() - 1) as nat);
        assert forall|i: int| #![trigger bytes[i]] 0 <= i < bytes.len() implies {
            &&& bytes[i] as int % 0x80 == value as int / pow(0x80, i as nat) % 0x80
            &&& (bytes[i] >= 0x80 <==> i < bytes.len() - 1)
        } by {
            if i > 0 {
                let j = (i - 1) as nat;
                assert(bytes[i] == behind[i - 1]);
                lemma_pow_positive(0x80, j);
                lemma_pow_adds(0x80, 1, j);
                lemma_div_denominator(value as int, 0x80, pow(0x80, j));
            }
        }
    }
}

/// Whatever bytes a varint is read off, they are not fewer than those it is written as.
pub proof fn law_no_varint_is_shorter(bytes: Seq<u8>, value: nat, length: nat)
    requires
        varint::read_varint(bytes) == Some((value, length)),
    ensures
        varint::varint(value).len() <= length <= bytes.len(),
{
    lemma_read_is_bounded(bytes);
    law_varint_is_the_shortest(value);
    let count = varint::varint(value).len();
    if length < count {
        lemma_pow_increases(0x80, length, (count - 1) as nat);
    }
}

proof fn lemma_read_is_bounded(bytes: Seq<u8>)
    ensures
        varint::read_varint(bytes) matches Some((value, length)) ==> value < pow(0x80, length) && 1
            <= length <= bytes.len(),
    decreases bytes.len(),
{
    lemma_pow1(0x80);
    if bytes.len() > 0 && bytes[0] >= 0x80 {
        lemma_read_is_bounded(bytes.drop_first());
        if let Some((high, length)) = varint::read_varint(bytes.drop_first()) {
            lemma_pow_adds(0x80, 1, length);
        }
    }
}

/// A fixed-width integer has as many base-256 digits as it is wide, least significant first.
pub proof fn law_fixed_width_digits(value: nat, width: nat)
    ensures
        endian::little_endian(value, width).len() == width,
        forall|i: int|
            #![trigger endian::little_endian(value, width)[i]]
            0 <= i < width ==> endian::little_endian(value, width)[i] as int == value as int / pow(
                0x100,
                i as nat,
            ) % 0x100,
    decreases width,
{
    lemma_pow0(0x100);
    lemma_pow1(0x100);
    if width > 0 {
        let bytes = endian::little_endian(value, width);
        let behind = endian::little_endian(value / 0x100, (width - 1) as nat);
        law_fixed_width_digits(value / 0x100, (width - 1) as nat);
        assert forall|i: int| #![trigger bytes[i]] 0 <= i < width implies bytes[i] as int
            == value as int / pow(0x100, i as nat) % 0x100 by {
            if i > 0 {
                let j = (i - 1) as nat;
                assert(bytes[i] == behind[i - 1]);
                lemma_pow_positive(0x100, j);
                lemma_pow_adds(0x100, 1, j);
                lemma_div_denominator(value as int, 0x100, pow(0x100, j));
            }
        }
    }
}

/// The zigzag number of an integer tells its sign by being odd, and its distance from zero by its
/// half; so it grows with that distance, and comes one lower for the negative one of two.
pub proof fn law_zig_zag_goes_back_and_forth(n: int, m: int)
    ensures
        zigzag::zig_zag(n) % 2 == 1 <==> n < 0,
        (zigzag::zig_zag(n) + 1) / 2 == if n < 0 {
            -n
        } else {
            n
        },
        0 < n ==> zigzag::zig_zag(-n) + 1 == zigzag::zig_zag(n),
        0 <= n < m ==> zigzag::zig_zag(n) < zigzag::zig_zag(-m) < zigzag::zig_zag(m),
{
}

/// The bits of a signed integer differ from it by a whole number of wraps.
pub proof fn law_bits_are_congruent(value: int)
    ensures
        signed::twos_complement_32(value) < 0x1_0000_0000,
        (signed::twos_complement_32(value) - value) % 0x1_0000_0000 == 0,
        signed::twos_complement_64(value) < 0x1_0000_0000_0000_0000,
        (signed::twos_complement_64(value) - value) % 0x1_0000_0000_0000_0000 == 0,
{
}

/// The wire types have the numbers that readers of the format expect.
pub proof fn law_wire_type_numbers(wire_type: WireType, value: u32)
    requires
        call_ensures(WireType::value, (wire_type,), value),
    ensures
        value == match wire_type {
            WireType::WireTypeVarint => 0nat,
            WireType::WireTypeFixed64 => 1,
            WireType::WireTypeLengthDelimited => 2,
            WireType::WireTypeStartGroup => 3,
            WireType::WireTypeEndGroup => 4,
            WireType::WireTypeFixed32 => 5,
        },
        value == wire_type.number(),
{
}

/// A tag is the varint of a 32-bit integer that divides into the field number, as far as 29 bits
/// hold it, and the number of the wire type.
pub proof fn law_tag_divides_into_number_and_type(field_number: u32, wire_type: WireType)
    ensures
        exists|tag: nat|
            {
                &&& wire_format::tag_bytes(field_number, wire_type) == #[trigger] varint::varint(
                    tag,
                )
                &&& tag <= 0xffff_ffff
                &&& tag / 8 == field_number as nat % 0x2000_0000
                &&& tag % 8 == match wire_type {
                    WireType::WireTypeVarint => 0nat,
                    WireType::WireTypeFixed64 => 1,
                    WireType::WireTypeLengthDelimited => 2,
                    WireType::WireTypeStartGroup => 3,
                    WireType::WireTypeEndGroup => 4,
                    WireType::WireTypeFixed32 => 5,
                }
            },
{
    let tag = wire_format::tag_value(field_number, wire_type);
    assert(wire_format::tag_bytes(field_number, wire_type) == varint::varint(tag));
}

/// The greatest field number is the last one whose tags fit 32 bits with any wire type.
pub proof fn law_greatest_field_number_fills_a_tag()
    ensures
        8 * wire_format::FIELD_NUMBER_MAX + 7 == u32::MAX,
        wire_format::TAG_TYPE_BITS == 3,
{
}

/// The value of a tag divides in the same way.
pub proof fn law_tag_value_divides(tag: Tag, value: u32)
    requires
        call_ensures(Tag::value, (tag,), value),
    ensures
        value / 8 == tag.field_number % 0x2000_0000,
        value % 8 == tag.wire_type.number(),
        wire_format::tag_bytes(tag.field_number, tag.wire_type) == varint::varint(value as nat),
{
}

/// Pieces that are put one behind the other are all there, in their order and as they were.
pub proof fn law_concat_keeps_every_piece(pieces: Seq<Seq<u8>>)
    ensures
        output::concat(pieces) == pieces.flatten(),
    decreases pieces.len(),
{
    pieces.lemma_flatten_and_flatten_alt_are_equivalent();
    if pieces.len() > 0 {
        law_concat_keeps_every_piece(pieces.drop_last());
        pieces.drop_last().lemma_flatten_and_flatten_alt_are_equivalent();
    }
}

/// A field is its tag and then its value, each piece of it in its place.
pub proof fn law_field_is_tag_and_value(
    field_number: u32,
    wire_type: WireType,
    value: Seq<Seq<u8>>,
)
    ensures
        wire_format::field(field_number, wire_type, value).len() == value.len() + 1,
        wire_format::field(field_number, wire_type, value).first() == wire_format::tag_bytes(
            field_number,
            wire_type,
        ),
        wire_format::field(field_number, wire_type, value).skip(1) == value,
        wire_format::field(field_number, wire_type, value).flatten() == wire_format::tag_bytes(
            field_number,
            wire_type,
        ) + value.flatten(),
{
    let pieces = wire_format::field(field_number, wire_type, value);
    assert(pieces.skip(1) =~= value);
    assert(pieces.drop_first() =~= value);
}

/// Bytes with their length in front are two pieces: the length as a varint, cut off at 32 bits,
/// and the very bytes.
pub proof fn law_length_delimited_is_length_and_bytes(bytes: Seq<u8>)
    ensures
        unknown::length_delimited(bytes).len() == 2,
        unknown::length_delimited(bytes)[0] == varint::varint(bytes.len() % 0x1_0000_0000),
        unknown::length_delimited(bytes)[1] == bytes,
{
}

} // verus!
