//! How the fields of different types relate: which two calls write the same, and what arrives.
use vstd::prelude::*;

use crate::coded_output_stream::CodedOutputStream;
use crate::endian;
use crate::error::ProtobufResult;
use crate::laws;
use crate::layout;
use crate::message::{Message, MessageDyn};
use crate::output;
use crate::output::Output;
use crate::reading;
use crate::unknown::WireValue;
use crate::varint;
use crate::wire_format;
use crate::wire_format::WireType;
use crate::writer::Write;

verus! {

/// A `uint64` field arrives as its tag and the varint of its value.
pub proof fn law_uint64_field_arrives<'a, W: Write + ?Sized>(
    os: &mut CodedOutputStream<'a, W>,
    number: u32,
    value: u64,
)
    requires
        call_ensures(CodedOutputStream::write_uint64, (os, number, value), Ok(())),
    ensures
        final(os)@.accepted() == old(os)@.accepted() + wire_format::tag_bytes(
            number,
            WireType::WireTypeVarint,
        ) + varint::varint(value as nat),
{
    lemma_field_arrives(
        *os,
        *final(os),
        number,
        WireType::WireTypeVarint,
        varint::varint(value as nat),
    );
}

/// A `fixed32` or `fixed64` field arrives as its tag and the bytes of its value.
pub proof fn law_fixed_field_arrives<'a, W: Write + ?Sized>(
    one: &mut CodedOutputStream<'a, W>,
    short: u32,
    other: &mut CodedOutputStream<'a, W>,
    long: u64,
    number: u32,
)
    requires
        call_ensures(CodedOutputStream::write_fixed32, (one, number, short), Ok(())),
        call_ensures(CodedOutputStream::write_fixed64, (other, number, long), Ok(())),
    ensures
        final(one)@.accepted() == old(one)@.accepted() + wire_format::tag_bytes(
            number,
            WireType::WireTypeFixed32,
        ) + endian::little_endian(short as nat, 4),
        final(other)@.accepted() == old(other)@.accepted() + wire_format::tag_bytes(
            number,
            WireType::WireTypeFixed64,
        ) + endian::little_endian(long as nat, 8),
{
    lemma_field_arrives(
        *one,
        *final(one),
        number,
        WireType::WireTypeFixed32,
        endian::little_endian(short as nat, 4),
    );
    lemma_field_arrives(
        *other,
        *final(other),
        number,
        WireType::WireTypeFixed64,
        endian::little_endian(long as nat, 8),
    );
}

/// A `bytes` field arrives as its tag, the length as a varint, and the very bytes.
pub proof fn law_bytes_field_arrives<'a, W: Write + ?Sized>(
    os: &mut CodedOutputStream<'a, W>,
    number: u32,
    bytes: &[u8],
)
    requires
        call_ensures(CodedOutputStream::write_bytes, (os, number, bytes), Ok(())),
    ensures
        final(os)@.accepted() == old(os)@.accepted() + wire_format::tag_bytes(
            number,
            WireType::WireTypeLengthDelimited,
        ) + varint::varint(bytes@.len() % 0x1_0000_0000) + bytes@,
{
    let tag = wire_format::tag_bytes(number, WireType::WireTypeLengthDelimited);
    let length = varint::varint(bytes@.len() % 0x1_0000_0000);
    let pieces = seq![tag, length, bytes@];
    assert(final(os).wrote(*os, pieces, Ok(()))) by {
        assert(seq![tag] + seq![length, bytes@] =~= pieces);
    }
    laws::law_every_target_takes_the_same(os@, pieces, final(os)@, final(os).failure());
    layout::law_concat_keeps_every_piece(pieces);
    lemma_flatten_three(os@.accepted(), tag, length, bytes@);
}

/// The bytes of a raw write arrive as they are, and a byte arrives as that byte.
pub proof fn law_raw_bytes_arrive<'a, W: Write + ?Sized>(
    one: &mut CodedOutputStream<'a, W>,
    bytes: &[u8],
    other: &mut CodedOutputStream<'a, W>,
    byte: u8,
)
    requires
        call_ensures(CodedOutputStream::write_raw_bytes, (one, bytes), Ok(())),
        call_ensures(CodedOutputStream::write_raw_byte, (other, byte), Ok(())),
    ensures
        final(one)@.accepted() == old(one)@.accepted() + bytes@,
        final(other)@.accepted() == old(other)@.accepted().push(byte),
{
    laws::law_every_target_takes_the_same(one@, seq![bytes@], final(one)@, final(one).failure());
    output::lemma_one_piece(one@, bytes@);
    laws::law_every_target_takes_the_same(
        other@,
        seq![seq![byte]],
        final(other)@,
        final(other).failure(),
    );
    output::lemma_one_piece(other@, seq![byte]);
    assert(other@.accepted() + seq![byte] =~= other@.accepted().push(byte));
}

proof fn lemma_field_arrives<'a, W: Write + ?Sized>(
    before: CodedOutputStream<'a, W>,
    after: CodedOutputStream<'a, W>,
    number: u32,
    wire_type: WireType,
    value: Seq<u8>,
)
    requires
        after.wrote(before, wire_format::field(number, wire_type, seq![value]), Ok(())),
    ensures
        after@.accepted() == before@.accepted() + wire_format::tag_bytes(number, wire_type)
            + value,
{
    let pieces = wire_format::field(number, wire_type, seq![value]);
    laws::law_every_target_takes_the_same(before@, pieces, after@, after.failure());
    layout::law_concat_keeps_every_piece(pieces);
    layout::law_field_is_tag_and_value(number, wire_type, seq![value]);
    seq![value].lemma_flatten_one_element();
    assert(after@.accepted() =~= before@.accepted() + wire_format::tag_bytes(number, wire_type)
        + value);
}

proof fn lemma_flatten_three(front: Seq<u8>, one: Seq<u8>, two: Seq<u8>, three: Seq<u8>)
    ensures
        front + seq![one, two, three].flatten() == front + one + two + three,
{
    let pieces = seq![one, two, three];
    assert(pieces.drop_first() =~= seq![two, three]);
    assert(seq![two, three].drop_first() =~= seq![three]);
    seq![three].lemma_flatten_one_element();
    assert(seq![two, three].flatten() =~= two + three);
    assert(pieces.flatten() =~= one + two + three);
    assert(front + (one + two + three) =~= front + one + two + three);
}

/// An `int64` field is written as the `uint64` field with the same 64 bits.
pub proof fn law_int64_is_written_as_its_bits<'a, W: Write + ?Sized>(
    one: &mut CodedOutputStream<'a, W>,
    value: i64,
    other: &mut CodedOutputStream<'a, W>,
    bits: u64,
    number: u32,
)
    requires
        one@ == other@,
        (bits - value) % 0x1_0000_0000_0000_0000 == 0,
        call_ensures(CodedOutputStream::write_int64, (one, number, value), Ok(())),
        call_ensures(CodedOutputStream::write_uint64, (other, number, bits), Ok(())),
    ensures
        final(one)@ == final(other)@,
{
    assert(value as int % 0x1_0000_0000_0000_0000 == bits);
}

/// An `int32` field is written as the `int64` field of the same value, and so is an `enum` field.
pub proof fn law_int32_is_written_as_int64<'a, W: Write + ?Sized>(
    one: &mut CodedOutputStream<'a, W>,
    value: i32,
    other: &mut CodedOutputStream<'a, W>,
    wide: i64,
    third: &mut CodedOutputStream<'a, W>,
    number: u32,
)
    requires
        one@ == other@,
        one@ == third@,
        wide == value,
        call_ensures(CodedOutputStream::write_int32, (one, number, value), Ok(())),
        call_ensures(CodedOutputStream::write_int64, (other, number, wide), Ok(())),
        call_ensures(CodedOutputStream::write_enum, (third, number, value), Ok(())),
    ensures
        final(one)@ == final(other)@,
        final(one)@ == final(third)@,
{
}

/// A `uint32` field is written as the `uint64` field of the same value, and a `bool` field as that
/// of one or zero.
pub proof fn law_uint32_is_written_as_uint64<'a, W: Write + ?Sized>(
    one: &mut CodedOutputStream<'a, W>,
    value: u32,
    other: &mut CodedOutputStream<'a, W>,
    wide: u64,
    third: &mut CodedOutputStream<'a, W>,
    truth: bool,
    number: u32,
)
    requires
        one@ == other@,
        one@ == third@,
        wide == value,
        call_ensures(CodedOutputStream::write_uint32, (one, number, value), Ok(())),
        call_ensures(CodedOutputStream::write_uint64, (other, number, wide), Ok(())),
        call_ensures(CodedOutputStream::write_bool, (third, number, truth), Ok(())),
    ensures
        final(one)@ == final(other)@,
        truth && value == 1 ==> final(one)@ == final(third)@,
        !truth && value == 0 ==> final(one)@ == final(third)@,
{
}

/// A `sint64` field is written as the `uint64` field of twice its distance from zero, less one if
/// it is negative; and a `sint32` field as the `sint64` field of the same value.
pub proof fn law_sint_is_written_as_its_distance<'a, W: Write + ?Sized>(
    one: &mut CodedOutputStream<'a, W>,
    value: i64,
    other: &mut CodedOutputStream<'a, W>,
    bits: u64,
    third: &mut CodedOutputStream<'a, W>,
    short: i32,
    number: u32,
)
    requires
        one@ == other@,
        one@ == third@,
        value >= 0 ==> bits == 2 * value,
        value < 0 ==> bits == 2 * -value - 1,
        call_ensures(CodedOutputStream::write_sint64, (one, number, value), Ok(())),
        call_ensures(CodedOutputStream::write_uint64, (other, number, bits), Ok(())),
        call_ensures(CodedOutputStream::write_sint32, (third, number, short), Ok(())),
    ensures
        final(one)@ == final(other)@,
        short == value ==> final(third)@ == final(one)@,
{
}

/// A `sfixed32` field is written as the `fixed32` field with the same 32 bits, and a `sfixed64`
/// field as the `fixed64` field with the same 64 bits.
pub proof fn law_sfixed_is_written_as_its_bits<'a, W: Write + ?Sized>(
    one: &mut CodedOutputStream<'a, W>,
    short: i32,
    other: &mut CodedOutputStream<'a, W>,
    short_bits: u32,
    third: &mut CodedOutputStream<'a, W>,
    long: i64,
    fourth: &mut CodedOutputStream<'a, W>,
    long_bits: u64,
    number: u32,
)
    requires
        one@ == other@,
        third@ == fourth@,
        (short_bits - short) % 0x1_0000_0000 == 0,
        (long_bits - long) % 0x1_0000_0000_0000_0000 == 0,
        call_ensures(CodedOutputStream::write_sfixed32, (one, number, short), Ok(())),
        call_ensures(CodedOutputStream::write_fixed32, (other, number, short_bits), Ok(())),
        call_ensures(CodedOutputStream::write_sfixed64, (third, number, long), Ok(())),
        call_ensures(CodedOutputStream::write_fixed64, (fourth, number, long_bits), Ok(())),
    ensures
        final(one)@ == final(other)@,
        final(third)@ == final(fourth)@,
{
    assert(short as int % 0x1_0000_0000 == short_bits);
    assert(long as int % 0x1_0000_0000_0000_0000 == long_bits);
}

/// A `string` field is written as the `bytes` field of its text in UTF-8.
pub proof fn law_string_is_written_as_its_bytes<'a, W: Write + ?Sized>(
    one: &mut CodedOutputStream<'a, W>,
    text: &str,
    other: &mut CodedOutputStream<'a, W>,
    bytes: &[u8],
    number: u32,
)
    requires
        one@ == other@,
        bytes@ == vstd::utf8::encode_utf8(text@),
        call_ensures(CodedOutputStream::write_string, (one, number, text), Ok(())),
        call_ensures(CodedOutputStream::write_bytes, (other, number, bytes), Ok(())),
    ensures
        final(one)@ == final(other)@,
{
}

/// A message with pieces in front of it is written as all these pieces one after the other; or it
/// gives up, and then stands there up to some piece of its own, unless the target refused one.
pub proof fn law_message_is_all_its_pieces(
    before: Output,
    front: Seq<Seq<u8>>,
    message: Seq<Seq<u8>>,
    after: Output,
    failure: Option<std::io::Error>,
    result: ProtobufResult<()>,
)
    requires
        output::wrote_message(before, front, message, after, failure, result),
    ensures
        output::wrote(before, front + message, after, failure, result) || (result is Err
            && exists|k: int|
            0 <= k <= message.len() && output::wrote(
                before,
                front + #[trigger] message.take(k),
                after,
                failure,
                Ok(()),
            )),
        result is Ok ==> after.accepted() == before.accepted() + front.flatten()
            + message.flatten(),
{
    if result is Ok {
        let pieces = front + message;
        laws::law_every_target_takes_the_same(before, pieces, after, failure);
        layout::law_concat_keeps_every_piece(pieces);
        vstd::seq_lib::lemma_flatten_concat(front, message);
        assert(before.accepted() + (front.flatten() + message.flatten()) =~= before.accepted()
            + front.flatten() + message.flatten());
    } else if !output::wrote(before, front + message, after, failure, result) {
        let k = choose|k: int| output::gave_up_after(before, front, message, k, after);
        assert(output::wrote(before, front + message.take(k), after, failure, Ok(())));
    }
}

/// A `message` field arrives as its tag, the size that the message computes, as a varint, and
/// every piece of the message.
pub proof fn law_message_field_arrives<'a, W: Write + ?Sized, M: Message<W>>(
    os: &mut CodedOutputStream<'a, W>,
    number: u32,
    msg: &M,
    size: u32,
)
    requires
        call_ensures(M::compute_size, (msg,), size),
        call_ensures(CodedOutputStream::write_message, (os, number, msg), Ok(())),
    ensures
        final(os)@.accepted() == old(os)@.accepted() + wire_format::tag_bytes(
            number,
            WireType::WireTypeLengthDelimited,
        ) + varint::varint(size as nat) + msg.pieces().flatten(),
{
    lemma_message_arrives(*os, *final(os), number, size, msg.pieces());
}

/// A dynamic `message` field arrives in the same way as one whose type is known.
pub proof fn law_dynamic_message_field_arrives<'a, W: Write + ?Sized, M: Message<W>>(
    os: &mut CodedOutputStream<'a, W>,
    number: u32,
    msg: &M,
    size: u32,
)
    requires
        call_ensures(M::compute_size, (msg,), size),
        call_ensures(CodedOutputStream::write_message_dyn, (os, number, msg), Ok(())),
    ensures
        final(os)@.accepted() == old(os)@.accepted() + wire_format::tag_bytes(
            number,
            WireType::WireTypeLengthDelimited,
        ) + varint::varint(size as nat) + msg.pieces().flatten(),
{
    lemma_message_arrives(*os, *final(os), number, size, msg.pieces());
}

/// Without a tag too, a message is written alike whether its type is known or not: its size, and
/// every piece of it.
pub proof fn law_message_without_tag_arrives<'a, W: Write + ?Sized, M: Message<W>>(
    one: &mut CodedOutputStream<'a, W>,
    other: &mut CodedOutputStream<'a, W>,
    msg: &M,
    size: u32,
)
    requires
        call_ensures(M::compute_size, (msg,), size),
        call_ensures(CodedOutputStream::write_message_no_tag, (one, msg), Ok(())),
        call_ensures(CodedOutputStream::write_message_no_tag_dyn, (other, msg), Ok(())),
    ensures
        final(one)@.accepted() == old(one)@.accepted() + varint::varint(size as nat)
            + msg.pieces().flatten(),
        final(other)@.accepted() == old(other)@.accepted() + varint::varint(size as nat)
            + msg.pieces().flatten(),
{
    let front = seq![varint::varint(size as nat)];
    front.lemma_flatten_one_element();
    law_message_is_all_its_pieces(
        one@,
        front,
        msg.pieces(),
        final(one)@,
        final(one).failure(),
        Ok(()),
    );
    law_message_is_all_its_pieces(
        other@,
        front,
        msg.pieces(),
        final(other)@,
        final(other).failure(),
        Ok(()),
    );
}

proof fn lemma_message_arrives<'a, W: Write + ?Sized>(
    before: CodedOutputStream<'a, W>,
    after: CodedOutputStream<'a, W>,
    number: u32,
    size: u32,
    message: Seq<Seq<u8>>,
)
    requires
        after.wrote_message(
            before,
            wire_format::field(
                number,
                WireType::WireTypeLengthDelimited,
                seq![varint::varint(size as nat)],
            ),
            message,
            Ok(()),
        ),
    ensures
        after@.accepted() == before@.accepted() + wire_format::tag_bytes(
            number,
            WireType::WireTypeLengthDelimited,
        ) + varint::varint(size as nat) + message.flatten(),
{
    let tag = wire_format::tag_bytes(number, WireType::WireTypeLengthDelimited);
    let length = varint::varint(size as nat);
    let front = wire_format::field(number, WireType::WireTypeLengthDelimited, seq![length]);
    law_message_is_all_its_pieces(before@, front, message, after@, after.failure(), Ok(()));
    layout::law_field_is_tag_and_value(number, WireType::WireTypeLengthDelimited, seq![length]);
    seq![length].lemma_flatten_one_element();
    assert(before@.accepted() + (tag + length) + message.flatten() =~= before@.accepted() + tag
        + length + message.flatten());
}

/// If a message announces the size that it has, a field that was written with it, dynamically or
/// not, is read back as the bytes of the message.
pub proof fn law_written_message_reads_back<'a, W: Write + ?Sized, M: Message<W>>(
    os: &mut CodedOutputStream<'a, W>,
    number: u32,
    msg: &M,
    size: u32,
)
    requires
        number <= 0x1fff_ffff,
        call_ensures(M::compute_size, (msg,), size),
        size == msg.pieces().flatten().len(),
        call_ensures(CodedOutputStream::write_message, (os, number, msg), Ok(())) || call_ensures(
            CodedOutputStream::write_message_dyn,
            (os, number, msg),
            Ok(()),
        ),
    ensures
        exists|bytes: Seq<u8>|
            {
                &&& final(os)@.accepted() == old(os)@.accepted() + bytes
                &&& #[trigger] reading::read_field(bytes) == Some(
                    (
                        number as nat,
                        WireValue::LengthDelimited(msg.pieces().flatten()),
                        bytes.len(),
                    ),
                )
            },
{
    let tag = wire_format::tag_bytes(number, WireType::WireTypeLengthDelimited);
    let length = varint::varint(size as nat);
    let inner = msg.pieces().flatten();
    let front = wire_format::field(number, WireType::WireTypeLengthDelimited, seq![length]);
    lemma_message_arrives(*os, *final(os), number, size, msg.pieces());
    layout::law_concat_keeps_every_piece(msg.pieces());
    reading::law_message_field_reads_back(number, size, msg.pieces(), seq![]);
    let bytes = output::concat(front + msg.pieces());
    layout::law_concat_keeps_every_piece(front + msg.pieces());
    vstd::seq_lib::lemma_flatten_concat(front, msg.pieces());
    layout::law_field_is_tag_and_value(number, WireType::WireTypeLengthDelimited, seq![length]);
    seq![length].lemma_flatten_one_element();
    assert(bytes =~= tag + length + inner);
    assert(bytes + seq![] =~= bytes);
    assert(os@.accepted() + bytes =~= os@.accepted() + tag + length + inner);
    assert(reading::read_field(bytes) is Some);
}

} // verus!
