//! How written fields are read back.
use vstd::prelude::*;

use crate::endian;
use crate::output;
use crate::output::Output;
use crate::signed;
use crate::unknown;
use crate::unknown::WireValue;
use crate::varint;
use crate::wire_format;
use crate::wire_format::FIELD_NUMBER_MAX;
use crate::zigzag;

verus! {

/// Reads a value that is laid out as the wire type with this number says off the front of
/// `bytes`: the value, and how many bytes it took.
pub open spec fn read_value(wire_type: nat, bytes: Seq<u8>) -> Option<(WireValue, nat)> {
    if wire_type == 0 {
        match varint::read_varint(bytes) {
            Some((value, length)) if value <= u64::MAX => Some(
                (WireValue::Varint(value as u64), length),
            ),
            _ => None,
        }
    } else if wire_type == 1 && bytes.len() >= 8 {
        Some((WireValue::Fixed64(endian::read_little_endian(bytes.take(8)) as u64), 8))
    } else if wire_type == 2 {
        match varint::read_varint(bytes) {
            Some((count, length)) if length + count <= bytes.len() => Some(
                (
                    WireValue::LengthDelimited(
                        bytes.subrange(length as int, (length + count) as int),
                    ),
                    length + count,
                ),
            ),
            _ => None,
        }
    } else if wire_type == 5 && bytes.len() >= 4 {
        Some((WireValue::Fixed32(endian::read_little_endian(bytes.take(4)) as u32), 4))
    } else {
        None
    }
}

/// Reads a field off the front of `bytes`: its number, its value, and how many bytes it took.
pub open spec fn read_field(bytes: Seq<u8>) -> Option<(nat, WireValue, nat)> {
    match varint::read_varint(bytes) {
        Some((tag, length)) => match read_value(tag % 8, bytes.skip(length as int)) {
            Some((value, rest)) => Some((tag / 8, value, length + rest)),
            None => None,
        },
        None => None,
    }
}

/// The length of the value is written in full.
pub open spec fn can_be_written(value: WireValue) -> bool {
    value matches WireValue::LengthDelimited(bytes) ==> bytes.len() <= u32::MAX
}

/// A value is read back as it was written, and what follows it is left.
pub proof fn law_value_reads_back(value: WireValue, rest: Seq<u8>)
    requires
        can_be_written(value),
    ensures
        read_value(value.wire_type().number(), output::concat(value.pieces()) + rest) == Some(
            (value, output::concat(value.pieces()).len()),
        ),
{
    let written = output::concat(value.pieces());
    let bytes = written + rest;
    match value {
        WireValue::Varint(v) => {
            lemma_concat_one(varint::varint(v as nat));
            varint::law_varint_reads_back(v as nat, rest);
        },
        WireValue::Fixed64(v) => {
            lemma_concat_one(endian::little_endian(v as nat, 8));
            endian::law_little_endian_length(v as nat, 8);
            endian::law_little_endian_reads_back(v as nat);
            assert(bytes.take(8) =~= written);
        },
        WireValue::Fixed32(v) => {
            lemma_concat_one(endian::little_endian(v as nat, 4));
            endian::law_little_endian_length(v as nat, 4);
            endian::law_little_endian_reads_back(v as nat);
            assert(bytes.take(4) =~= written);
        },
        WireValue::LengthDelimited(inner) => {
            let length = varint::varint(inner.len());
            lemma_concat_two(length, inner);
            varint::law_varint_reads_back(inner.len(), inner + rest);
            assert(bytes =~= length + (inner + rest));
            assert(bytes.subrange(length.len() as int, (length.len() + inner.len()) as int)
                =~= inner);
        },
    }
}

/// A field is read back as it was written, and what follows it is left.
pub proof fn law_field_reads_back(number: u32, value: WireValue, rest: Seq<u8>)
    requires
        number <= FIELD_NUMBER_MAX,
        can_be_written(value),
    ensures
        read_field(output::concat(value.field(number)) + rest) == Some(
            (number as nat, value, output::concat(value.field(number)).len()),
        ),
{
    let tag = wire_format::tag_bytes(number, value.wire_type());
    let behind = output::concat(value.pieces());
    lemma_concat_one(tag);
    output::lemma_concat_append(seq![tag], value.pieces());
    let bytes = output::concat(value.field(number)) + rest;
    assert(bytes =~= tag + (behind + rest));
    wire_format::law_tag_reads_back(number, value.wire_type());
    wire_format::law_wire_types_differ(value.wire_type(), value.wire_type());
    varint::law_varint_reads_back(
        wire_format::tag_value(number, value.wire_type()),
        behind + rest,
    );
    assert(bytes.skip(tag.len() as int) =~= behind + rest);
    law_value_reads_back(value, rest);
}

/// Fields one behind the other as they are written.
pub open spec fn written_fields(fields: Seq<(u32, WireValue)>) -> Seq<Seq<u8>>
    decreases fields.len(),
{
    if fields.len() == 0 {
        seq![]
    } else {
        fields[0].1.field(fields[0].0) + written_fields(fields.drop_first())
    }
}

/// Reads fields to the end of `bytes`.
pub open spec fn read_fields(bytes: Seq<u8>) -> Option<Seq<(nat, WireValue)>>
    decreases bytes.len(),
{
    if bytes.len() == 0 {
        Some(seq![])
    } else {
        match read_field(bytes) {
            Some((number, value, length)) if 0 < length <= bytes.len() => {
                match read_fields(bytes.skip(length as int)) {
                    Some(others) => Some(seq![(number, value)] + others),
                    None => None,
                }
            },
            _ => None,
        }
    }
}

/// Every field can be read back.
pub open spec fn readable(fields: Seq<(u32, WireValue)>) -> bool {
    forall|i: int|
        0 <= i < fields.len() ==> (#[trigger] fields[i]).0 <= FIELD_NUMBER_MAX && can_be_written(
            fields[i].1,
        )
}

/// Fields are read back as they were written, in the same order.
pub proof fn law_fields_read_back(fields: Seq<(u32, WireValue)>)
    requires
        readable(fields),
    ensures
        read_fields(output::concat(written_fields(fields))) == Some(
            fields.map_values(|field: (u32, WireValue)| (field.0 as nat, field.1)),
        ),
    decreases fields.len(),
{
    let listed = fields.map_values(|field: (u32, WireValue)| (field.0 as nat, field.1));
    if fields.len() == 0 {
        assert(listed =~= seq![]);
    } else {
        let others = fields.drop_first();
        let (number, value) = fields[0];
        assert forall|i: int| 0 <= i < others.len() implies (#[trigger] others[i]).0
            <= FIELD_NUMBER_MAX && can_be_written(others[i].1) by {
            assert(others[i] == fields[i + 1]);
        }
        law_fields_read_back(others);
        let first = output::concat(value.field(number));
        let rest = output::concat(written_fields(others));
        output::lemma_concat_append(value.field(number), written_fields(others));
        law_field_reads_back(number, value, rest);
        varint::law_varint_length(wire_format::tag_value(number, value.wire_type()));
        lemma_concat_one(wire_format::tag_bytes(number, value.wire_type()));
        output::lemma_concat_append(
            seq![wire_format::tag_bytes(number, value.wire_type())],
            value.pieces(),
        );
        assert((first + rest).skip(first.len() as int) =~= rest);
        assert(listed =~= seq![(number as nat, value)] + others.map_values(
            |field: (u32, WireValue)| (field.0 as nat, field.1),
        ));
    }
}

/// The fields with these numbers, in this order.
pub open spec fn listed_fields(
    fields: Map<u32, Seq<WireValue>>,
    order: Seq<u32>,
) -> Seq<(u32, WireValue)>
    decreases order.len(),
{
    if order.len() == 0 {
        seq![]
    } else {
        listed_fields(fields, order.drop_last()) + fields[order.last()].map_values(
            |value: WireValue| (order.last(), value),
        )
    }
}

/// Unknown fields are read back as they were written: for each number in turn, its values in
/// turn.
pub proof fn law_unknown_fields_read_back(fields: Map<u32, Seq<WireValue>>, order: Seq<u32>)
    requires
        readable(listed_fields(fields, order)),
    ensures
        read_fields(output::concat(unknown::fields_in_order(fields, order))) == Some(
            listed_fields(fields, order).map_values(
                |field: (u32, WireValue)| (field.0 as nat, field.1),
            ),
        ),
{
    lemma_listed_fields(fields, order);
    law_fields_read_back(listed_fields(fields, order));
}

proof fn lemma_listed_fields(fields: Map<u32, Seq<WireValue>>, order: Seq<u32>)
    ensures
        written_fields(listed_fields(fields, order)) == unknown::fields_in_order(fields, order),
    decreases order.len(),
{
    if order.len() > 0 {
        let number = order.last();
        let values = fields[number];
        lemma_listed_fields(fields, order.drop_last());
        lemma_listed_values(number, values);
        lemma_written_fields_append(
            listed_fields(fields, order.drop_last()),
            values.map_values(|value: WireValue| (number, value)),
        );
    }
}

proof fn lemma_listed_values(number: u32, values: Seq<WireValue>)
    ensures
        written_fields(values.map_values(|value: WireValue| (number, value)))
            == unknown::repeated_field(number, values),
    decreases values.len(),
{
    let listed = values.map_values(|value: WireValue| (number, value));
    if values.len() > 0 {
        let init = values.drop_last();
        lemma_listed_values(number, init);
        let last = seq![(number, values.last())];
        assert(listed =~= init.map_values(|value: WireValue| (number, value)) + last);
        lemma_written_fields_append(
            init.map_values(|value: WireValue| (number, value)),
            last,
        );
        reveal_with_fuel(written_fields, 2);
        assert(last.drop_first() =~= seq![]);
        assert(written_fields(last) =~= values.last().field(number));
    }
}

proof fn lemma_written_fields_append(
    one: Seq<(u32, WireValue)>,
    other: Seq<(u32, WireValue)>,
)
    ensures
        written_fields(one + other) == written_fields(one) + written_fields(other),
    decreases one.len(),
{
    if one.len() == 0 {
        assert(one + other =~= other);
        assert(written_fields(one) + written_fields(other) =~= written_fields(other));
    } else {
        assert((one + other).drop_first() =~= one.drop_first() + other);
        lemma_written_fields_append(one.drop_first(), other);
        assert(written_fields(one + other) =~= written_fields(one) + written_fields(other));
    }
}

/// A `sint32` or `sint64` field gives its value back.
pub proof fn law_zigzag_field_reads_back(number: u32, value: i64, rest: Seq<u8>)
    requires
        number <= FIELD_NUMBER_MAX,
    ensures
        ({
            let bytes = output::concat(
                wire_format::field(
                    number,
                    wire_format::WireTypeVarint,
                    seq![varint::varint(zigzag::zig_zag(value as int))],
                ),
            );
            read_field(bytes + rest) matches Some((read, WireValue::Varint(bits), length)) && read
                == number && zigzag::un_zig_zag(bits as nat) == value && length == bytes.len()
        }),
{
    let bits = zigzag::zig_zag(value as int) as u64;
    law_field_reads_back(number, WireValue::Varint(bits), rest);
}

/// An `int64` field gives its value back, and so does an `int32` or `enum` field, whether it is
/// read as 64 bits or as 32 bits.
pub proof fn law_signed_field_reads_back(number: u32, value: i64, rest: Seq<u8>)
    requires
        number <= FIELD_NUMBER_MAX,
    ensures
        ({
            let bytes = output::concat(
                wire_format::field(
                    number,
                    wire_format::WireTypeVarint,
                    seq![varint::varint(signed::twos_complement_64(value as int))],
                ),
            );
            read_field(bytes + rest) matches Some((read, WireValue::Varint(bits), length)) && read
                == number && signed::signed_64(bits as nat) == value && (i32::MIN <= value
                <= i32::MAX ==> signed::signed_32(bits as nat) == value) && length == bytes.len()
        }),
{
    let bits = signed::twos_complement_64(value as int) as u64;
    law_field_reads_back(number, WireValue::Varint(bits), rest);
}

/// A `sfixed32` field gives its value back, and so does a `sfixed64` field.
pub proof fn law_signed_fixed_field_reads_back(
    number: u32,
    short: i32,
    long: i64,
    rest: Seq<u8>,
)
    requires
        number <= FIELD_NUMBER_MAX,
    ensures
        ({
            let bytes = output::concat(
                wire_format::field(
                    number,
                    wire_format::WireTypeFixed32,
                    seq![endian::little_endian(signed::twos_complement_32(short as int), 4)],
                ),
            );
            read_field(bytes + rest) matches Some((read, WireValue::Fixed32(bits), length))
                && read == number && signed::signed_32(bits as nat) == short && length
                == bytes.len()
        }),
        ({
            let bytes = output::concat(
                wire_format::field(
                    number,
                    wire_format::WireTypeFixed64,
                    seq![endian::little_endian(signed::twos_complement_64(long as int), 8)],
                ),
            );
            read_field(bytes + rest) matches Some((read, WireValue::Fixed64(bits), length))
                && read == number && signed::signed_64(bits as nat) == long && length
                == bytes.len()
        }),
{
    let low = signed::twos_complement_32(short as int) as u32;
    law_field_reads_back(number, WireValue::Fixed32(low), rest);
    let bits = signed::twos_complement_64(long as int) as u64;
    law_field_reads_back(number, WireValue::Fixed64(bits), rest);
}

/// A negative number takes ten bytes as an `int32` or `int64`.
pub proof fn law_negative_takes_ten_bytes(value: i64)
    requires
        value < 0,
    ensures
        varint::varint(signed::twos_complement_64(value as int)).len() == 10,
{
    reveal_with_fuel(varint::varint, 10);
}

/// A `string` field gives the bytes of its text back, which are the text's alone.
pub proof fn law_string_field_reads_back(number: u32, text: Seq<char>, rest: Seq<u8>)
    requires
        number <= FIELD_NUMBER_MAX,
        vstd::utf8::encode_utf8(text).len() <= u32::MAX,
    ensures
        ({
            let bytes = output::concat(
                wire_format::field(
                    number,
                    wire_format::WireTypeLengthDelimited,
                    unknown::length_delimited(vstd::utf8::encode_utf8(text)),
                ),
            );
            read_field(bytes + rest) matches Some((read, WireValue::LengthDelimited(inner), length))
                && read == number && vstd::utf8::valid_utf8(inner) && vstd::utf8::decode_utf8(inner)
                == text && length == bytes.len()
        }),
{
    law_field_reads_back(
        number,
        WireValue::LengthDelimited(vstd::utf8::encode_utf8(text)),
        rest,
    );
    vstd::utf8::encode_utf8_valid_utf8(text);
    vstd::utf8::encode_utf8_decode_utf8(text);
}

/// A message field whose announced size is the size of the message gives the bytes of the message
/// back.
pub proof fn law_message_field_reads_back(
    number: u32,
    size: u32,
    message: Seq<Seq<u8>>,
    rest: Seq<u8>,
)
    requires
        number <= FIELD_NUMBER_MAX,
        size == output::concat(message).len(),
    ensures
        ({
            let bytes = output::concat(
                wire_format::field(
                    number,
                    wire_format::WireTypeLengthDelimited,
                    seq![varint::varint(size as nat)],
                ) + message,
            );
            read_field(bytes + rest) == Some(
                (
                    number as nat,
                    WireValue::LengthDelimited(output::concat(message)),
                    bytes.len(),
                ),
            )
        }),
{
    let inner = output::concat(message);
    let tag = wire_format::tag_bytes(number, wire_format::WireTypeLengthDelimited);
    let length = varint::varint(size as nat);
    let front = wire_format::field(
        number,
        wire_format::WireTypeLengthDelimited,
        seq![length],
    );
    let value = WireValue::LengthDelimited(inner);
    output::lemma_concat_append(front, message);
    output::lemma_concat_append(seq![tag], seq![length]);
    output::lemma_concat_append(seq![tag], value.pieces());
    lemma_concat_one(length);
    lemma_concat_two(length, inner);
    assert(output::concat(front + message) =~= output::concat(value.field(number)));
    law_field_reads_back(number, value, rest);
}

proof fn lemma_concat_one(bytes: Seq<u8>)
    ensures
        output::concat(seq![bytes]) == bytes,
{
    output::lemma_one_piece(Output::Vec { contents: seq![] }, bytes);
}

proof fn lemma_concat_two(one: Seq<u8>, other: Seq<u8>)
    ensures
        output::concat(seq![one, other]) == one + other,
{
    lemma_concat_one(one);
    assert(seq![one, other].drop_last() =~= seq![one]);
}

} // verus!
