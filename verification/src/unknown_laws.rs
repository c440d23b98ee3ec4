//! What becomes of fields that are not known, said of the values that were put in.
use vstd::prelude::*;

use crate::coded_output_stream::CodedOutputStream;
use crate::endian;
use crate::laws;
use crate::layout;
use crate::output;
use crate::reading;
use crate::unknown;
use crate::unknown::{UnknownFields, UnknownValue, UnknownValueRef, UnknownValues, WireValue};
use crate::varint;
use crate::wire_format;
use crate::wire_format::WireType;
use crate::writer::Write;

verus! {

/// A value is written with its own payload, whole: a tag that says how it is laid out, and behind
/// it the payload in that layout.
pub proof fn law_value_is_written_with_its_payload(number: u32, value: UnknownValueRef<'_>)
    ensures
        value@.field(number) == match value {
            UnknownValueRef::Fixed32(payload) => seq![
                wire_format::tag_bytes(number, WireType::WireTypeFixed32),
                endian::little_endian(payload as nat, 4),
            ],
            UnknownValueRef::Fixed64(payload) => seq![
                wire_format::tag_bytes(number, WireType::WireTypeFixed64),
                endian::little_endian(payload as nat, 8),
            ],
            UnknownValueRef::Varint(payload) => seq![
                wire_format::tag_bytes(number, WireType::WireTypeVarint),
                varint::varint(payload as nat),
            ],
            UnknownValueRef::LengthDelimited(payload) => seq![
                wire_format::tag_bytes(number, WireType::WireTypeLengthDelimited),
                varint::varint(payload@.len() % 0x1_0000_0000),
                payload@,
            ],
        },
        value@.pieces() == value@.field(number).skip(1),
        value@.wire_type() == match value {
            UnknownValueRef::Fixed32(payload) => WireType::WireTypeFixed32,
            UnknownValueRef::Fixed64(payload) => WireType::WireTypeFixed64,
            UnknownValueRef::Varint(payload) => WireType::WireTypeVarint,
            UnknownValueRef::LengthDelimited(payload) => WireType::WireTypeLengthDelimited,
        },
{
    assert(value@.pieces() =~= value@.field(number).skip(1));
}

/// A value that is put in and one that is lent out are the same value exactly when they are laid
/// out alike and have the same payload.
pub proof fn law_lent_values_are_those_put_in(given: UnknownValue, lent: UnknownValueRef<'_>)
    ensures
        given@ == lent@ <==> match (given, lent) {
            (UnknownValue::Fixed32(one), UnknownValueRef::Fixed32(other)) => one == other,
            (UnknownValue::Fixed64(one), UnknownValueRef::Fixed64(other)) => one == other,
            (UnknownValue::Varint(one), UnknownValueRef::Varint(other)) => one == other,
            (UnknownValue::LengthDelimited(one), UnknownValueRef::LengthDelimited(other)) => one@
                == other@,
            _ => false,
        },
{
}

/// The values of one field are written one behind the other, each with a tag of its own: first
/// those of four bytes, then those of eight, then the varints, then those with a length; and those
/// that are laid out alike in the order in which they are held.
pub proof fn law_values_are_written_in_turn(number: u32, values: UnknownValues)
    ensures
        unknown::repeated_field(number, values@) == (values.fixed32@.map_values(
            |payload: u32|
                seq![
                    wire_format::tag_bytes(number, WireType::WireTypeFixed32),
                    endian::little_endian(payload as nat, 4),
                ],
        ) + values.fixed64@.map_values(
            |payload: u64|
                seq![
                    wire_format::tag_bytes(number, WireType::WireTypeFixed64),
                    endian::little_endian(payload as nat, 8),
                ],
        ) + values.varint@.map_values(
            |payload: u64|
                seq![
                    wire_format::tag_bytes(number, WireType::WireTypeVarint),
                    varint::varint(payload as nat),
                ],
        ) + values.length_delimited@.map_values(
            |payload: Vec<u8>|
                seq![
                    wire_format::tag_bytes(number, WireType::WireTypeLengthDelimited),
                    varint::varint(payload@.len() % 0x1_0000_0000),
                    payload@,
                ],
        )).flatten(),
{
    lemma_repeated_field_is_flat(number, values@);
    let fields = values@.map_values(|value: WireValue| value.field(number));
    let fixed32 = values.fixed32@.map_values(
        |payload: u32|
            seq![
                wire_format::tag_bytes(number, WireType::WireTypeFixed32),
                endian::little_endian(payload as nat, 4),
            ],
    );
    let fixed64 = values.fixed64@.map_values(
        |payload: u64|
            seq![
                wire_format::tag_bytes(number, WireType::WireTypeFixed64),
                endian::little_endian(payload as nat, 8),
            ],
    );
    let varints = values.varint@.map_values(
        |payload: u64|
            seq![
                wire_format::tag_bytes(number, WireType::WireTypeVarint),
                varint::varint(payload as nat),
            ],
    );
    let delimited = values.length_delimited@.map_values(
        |payload: Vec<u8>|
            seq![
                wire_format::tag_bytes(number, WireType::WireTypeLengthDelimited),
                varint::varint(payload@.len() % 0x1_0000_0000),
                payload@,
            ],
    );
    let listed = fixed32 + fixed64 + varints + delimited;
    assert forall|i: int| 0 <= i < listed.len() implies fields[i] == listed[i] by {
        assert(fields[i] =~= listed[i]);
    }
    assert(fields =~= listed);
}

proof fn lemma_repeated_field_is_flat(number: u32, values: Seq<WireValue>)
    ensures
        unknown::repeated_field(number, values) == values.map_values(
            |value: WireValue| value.field(number),
        ).flatten(),
    decreases values.len(),
{
    let fields = values.map_values(|value: WireValue| value.field(number));
    fields.lemma_flatten_and_flatten_alt_are_equivalent();
    if values.len() > 0 {
        lemma_repeated_field_is_flat(number, values.drop_last());
        let init = values.drop_last().map_values(|value: WireValue| value.field(number));
        assert(fields.drop_last() =~= init);
        init.lemma_flatten_and_flatten_alt_are_equivalent();
    }
}

/// Fields are written number by number, in the given order, each with the values that it has.
pub proof fn law_fields_are_written_in_turn(fields: UnknownFields, order: Seq<u32>)
    requires
        forall|i: int| 0 <= i < order.len() ==> fields@.contains_key(#[trigger] order[i]),
    ensures
        unknown::fields_in_order(fields.values(), order) == order.map_values(
            |number: u32| unknown::repeated_field(number, fields@[number]@),
        ).flatten(),
    decreases order.len(),
{
    let listed = order.map_values(
        |number: u32| unknown::repeated_field(number, fields@[number]@),
    );
    listed.lemma_flatten_and_flatten_alt_are_equivalent();
    if order.len() > 0 {
        let init = order.drop_last();
        assert forall|i: int| 0 <= i < init.len() implies fields@.contains_key(
            #[trigger] init[i],
        ) by {
            assert(init[i] == order[i]);
        }
        law_fields_are_written_in_turn(fields, init);
        let before = init.map_values(
            |number: u32| unknown::repeated_field(number, fields@[number]@),
        );
        assert(listed.drop_last() =~= before);
        before.lemma_flatten_and_flatten_alt_are_equivalent();
        assert(fields@.contains_key(order[order.len() - 1]));
    }
}

/// An order of some numbers has each of them once and no other; an ascending one goes from the
/// least to the greatest.
pub proof fn law_orders_have_each_number_once(order: Seq<u32>, numbers: Set<u32>)
    ensures
        unknown::enumerates(order, numbers) <==> {
            &&& forall|i: int, j: int| 0 <= i < j < order.len() ==> order[i] != order[j]
            &&& forall|number: u32| #[trigger] order.contains(number) <==> numbers.contains(number)
        },
        unknown::ascending(order) <==> forall|i: int, j: int|
            0 <= i < j < order.len() ==> order[i] < order[j],
{
    if unknown::enumerates(order, numbers) {
        assert forall|number: u32| #[trigger] order.contains(number) <==> numbers.contains(
            number,
        ) by {
            assert(order.to_set().contains(number) <==> order.contains(number));
        }
    }
    if forall|number: u32| #[trigger] order.contains(number) <==> numbers.contains(number) {
        assert(order.to_set() =~= numbers);
    }
}

/// Sorting gives the same numbers from the least to the greatest.
pub proof fn law_sorted_numbers_ascend(numbers: &Vec<u32>, sorted: Vec<u32>)
    requires
        numbers@.no_duplicates(),
        call_ensures(unknown::sort_numbers, (numbers,), sorted),
    ensures
        forall|i: int, j: int| 0 <= i < j < sorted@.len() ==> sorted@[i] < sorted@[j],
        forall|number: u32| #[trigger] sorted@.contains(number) <==> numbers@.contains(number),
        sorted@.len() == numbers@.len(),
{
    assert forall|number: u32| #[trigger] sorted@.contains(number) <==> numbers@.contains(
        number,
    ) by {
        assert(sorted@.to_set().contains(number) <==> sorted@.contains(number));
        assert(numbers@.to_set().contains(number) <==> numbers@.contains(number));
    }
    sorted@.unique_seq_to_set();
    numbers@.unique_seq_to_set();
}

/// Of two values that are laid out alike and put in one after the other, the one that was put in
/// first is lent out first, and with it whatever was there before.
pub proof fn law_values_keep_their_order(
    start: &mut UnknownValues,
    one: UnknownValue,
    next: &mut UnknownValues,
    other: UnknownValue,
    end: &UnknownValues,
    refs: Vec<UnknownValueRef<'_>>,
)
    requires
        call_ensures(UnknownValues::add_value, (start, one), ()),
        *next == *final(start),
        call_ensures(UnknownValues::add_value, (next, other), ()),
        *end == *final(next),
        call_ensures(UnknownValues::refs, (end,), refs),
    ensures
        (one is Fixed32 && other is Fixed32) || (one is Fixed64 && other is Fixed64) || (
        one is Varint && other is Varint) || (one is LengthDelimited && other is LengthDelimited)
            ==> exists|i: int|
            0 <= i && i + 1 < refs@.len() && (#[trigger] refs@[i])@ == one@ && refs@[i + 1]@
                == other@,
        refs@.len() == old(start).fixed32@.len() + old(start).fixed64@.len() + old(
            start,
        ).varint@.len() + old(start).length_delimited@.len() + 2,
{
    let a = end.fixed32@.len() as int;
    let b = a + end.fixed64@.len();
    let c = b + end.varint@.len();
    match (one, other) {
        (UnknownValue::Fixed32(x), UnknownValue::Fixed32(y)) => {
            assert(end.fixed32@[a - 2] == x);
            assert(end.fixed32@[a - 1] == y);
            assert(refs@[a - 2]@ == one@ && refs@[a - 2 + 1]@ == other@);
        },
        (UnknownValue::Fixed64(x), UnknownValue::Fixed64(y)) => {
            assert(end.fixed64@[end.fixed64@.len() - 2] == x);
            assert(end.fixed64@[end.fixed64@.len() - 1] == y);
            assert(refs@[b - 2]@ == one@ && refs@[b - 2 + 1]@ == other@);
        },
        (UnknownValue::Varint(x), UnknownValue::Varint(y)) => {
            assert(end.varint@[end.varint@.len() - 2] == x);
            assert(end.varint@[end.varint@.len() - 1] == y);
            assert(refs@[c - 2]@ == one@ && refs@[c - 2 + 1]@ == other@);
        },
        (UnknownValue::LengthDelimited(x), UnknownValue::LengthDelimited(y)) => {
            let d = refs@.len() as int;
            assert(end.length_delimited@[end.length_delimited@.len() - 2] == x);
            assert(end.length_delimited@[end.length_delimited@.len() - 1] == y);
            assert(refs@[d - 2]@ == one@ && refs@[d - 2 + 1]@ == other@);
        },
        _ => {},
    }
}

/// A value that was written is read back with its own payload, under its number.
pub proof fn law_written_value_reads_back<'a, W: Write + ?Sized>(
    os: &mut CodedOutputStream<'a, W>,
    number: u32,
    value: UnknownValueRef<'_>,
)
    requires
        number <= 0x1fff_ffff,
        value matches UnknownValueRef::LengthDelimited(payload) ==> payload@.len() <= 0xffff_ffff,
        call_ensures(CodedOutputStream::write_unknown, (os, number, value), Ok(())),
    ensures
        exists|bytes: Seq<u8>|
            {
                &&& final(os)@.accepted() == old(os)@.accepted() + bytes
                &&& #[trigger] reading::read_field(bytes) == Some(
                    (
                        number as nat,
                        match value {
                            UnknownValueRef::Fixed32(payload) => WireValue::Fixed32(payload),
                            UnknownValueRef::Fixed64(payload) => WireValue::Fixed64(payload),
                            UnknownValueRef::Varint(payload) => WireValue::Varint(payload),
                            UnknownValueRef::LengthDelimited(payload) => {
                                WireValue::LengthDelimited(payload@)
                            },
                        },
                        bytes.len(),
                    ),
                )
            },
{
    let pieces = value@.field(number);
    let bytes = output::concat(pieces);
    laws::law_every_target_takes_the_same(os@, pieces, final(os)@, final(os).failure());
    reading::law_field_reads_back(number, value@, seq![]);
    assert(bytes + seq![] =~= bytes);
    assert(reading::read_field(bytes) is Some);
}

/// A field of each layout is written as the field that it is: an unknown varint like a `uint64`,
/// unknown bytes like `bytes`, and unknown fixed-width integers like `fixed32` and `fixed64`.
pub proof fn law_unknown_fields_are_written_like_known_ones<'a, W: Write + ?Sized>(
    one: &mut CodedOutputStream<'a, W>,
    other: &mut CodedOutputStream<'a, W>,
    number: u32,
    value: UnknownValueRef<'_>,
)
    requires
        one@ == other@,
        call_ensures(CodedOutputStream::write_unknown, (one, number, value), Ok(())),
        match value {
            UnknownValueRef::Fixed32(payload) => call_ensures(
                CodedOutputStream::write_fixed32,
                (other, number, payload),
                Ok(()),
            ),
            UnknownValueRef::Fixed64(payload) => call_ensures(
                CodedOutputStream::write_fixed64,
                (other, number, payload),
                Ok(()),
            ),
            UnknownValueRef::Varint(payload) => call_ensures(
                CodedOutputStream::write_uint64,
                (other, number, payload),
                Ok(()),
            ),
            UnknownValueRef::LengthDelimited(payload) => call_ensures(
                CodedOutputStream::write_bytes,
                (other, number, payload),
                Ok(()),
            ),
        },
    ensures
        final(one)@ == final(other)@,
{
}

/// Unknown fields arrive number by number in the given order, each with its values in turn.
pub proof fn law_unknown_fields_arrive_in_order<'a, W: Write + ?Sized>(
    os: &mut CodedOutputStream<'a, W>,
    fields: &UnknownFields,
    order: &Vec<u32>,
)
    requires
        forall|i: int| 0 <= i < order@.len() ==> fields@.contains_key(#[trigger] order@[i]),
        call_ensures(
            CodedOutputStream::write_unknown_fields_in_order,
            (os, fields, order),
            Ok(()),
        ),
    ensures
        final(os)@.accepted() == old(os)@.accepted() + order@.map_values(
            |number: u32| unknown::repeated_field(number, fields@[number]@),
        ).flatten().flatten(),
{
    let pieces = unknown::fields_in_order(fields.values(), order@);
    law_fields_are_written_in_turn(*fields, order@);
    laws::law_every_target_takes_the_same(os@, pieces, final(os)@, final(os).failure());
    layout::law_concat_keeps_every_piece(pieces);
}

/// Unknown fields arrive each once, in some order, with their values in turn.
pub proof fn law_unknown_fields_all_arrive<'a, W: Write + ?Sized>(
    os: &mut CodedOutputStream<'a, W>,
    fields: &UnknownFields,
)
    requires
        call_ensures(CodedOutputStream::write_unknown_fields, (os, fields), Ok(())),
    ensures
        exists|order: Seq<u32>|
            {
                &&& forall|i: int, j: int| 0 <= i < j < order.len() ==> order[i] != order[j]
                &&& #[trigger] order.to_set() == fields@.dom()
                &&& final(os)@.accepted() == old(os)@.accepted() + order.map_values(
                    |number: u32| unknown::repeated_field(number, fields@[number]@),
                ).flatten().flatten()
            },
{
    let order = choose|order: Seq<u32>|
        unknown::enumerates(order, fields@.dom()) && final(os).wrote(
            *os,
            #[trigger] unknown::fields_in_order(fields.values(), order),
            Ok(()),
        );
    lemma_arrived(*os, *final(os), *fields, order);
}

/// Sorted unknown fields arrive each once, from the least number to the greatest, with their
/// values in turn.
pub proof fn law_sorted_unknown_fields_arrive_ascending<'a, W: Write + ?Sized>(
    os: &mut CodedOutputStream<'a, W>,
    fields: &UnknownFields,
)
    requires
        call_ensures(CodedOutputStream::write_unknown_fields_sorted, (os, fields), Ok(())),
    ensures
        exists|order: Seq<u32>|
            {
                &&& forall|i: int, j: int| 0 <= i < j < order.len() ==> order[i] < order[j]
                &&& #[trigger] order.to_set() == fields@.dom()
                &&& final(os)@.accepted() == old(os)@.accepted() + order.map_values(
                    |number: u32| unknown::repeated_field(number, fields@[number]@),
                ).flatten().flatten()
            },
{
    let order = choose|order: Seq<u32>|
        unknown::enumerates(order, fields@.dom()) && unknown::ascending(order) && final(os).wrote(
            *os,
            #[trigger] unknown::fields_in_order(fields.values(), order),
            Ok(()),
        );
    lemma_arrived(*os, *final(os), *fields, order);
}

proof fn lemma_arrived<'a, W: Write + ?Sized>(
    before: CodedOutputStream<'a, W>,
    after: CodedOutputStream<'a, W>,
    fields: UnknownFields,
    order: Seq<u32>,
)
    requires
        unknown::enumerates(order, fields@.dom()),
        after.wrote(before, unknown::fields_in_order(fields.values(), order), Ok(())),
    ensures
        order.to_set() == fields@.dom(),
        after@.accepted() == before@.accepted() + order.map_values(
            |number: u32| unknown::repeated_field(number, fields@[number]@),
        ).flatten().flatten(),
{
    let pieces = unknown::fields_in_order(fields.values(), order);
    unknown::lemma_enumerated(order, fields@.dom());
    law_fields_are_written_in_turn(fields, order);
    laws::law_every_target_takes_the_same(before@, pieces, after@, after.failure());
    layout::law_concat_keeps_every_piece(pieces);
}

} // verus!
