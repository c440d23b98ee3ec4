//! Fields that are kept as they are laid out, without a description of their message.
use std::collections::HashMap;

use vstd::prelude::*;

use crate::endian;
use crate::varint;
use crate::wire_format;
use crate::wire_format::WireType;

verus! {

broadcast use vstd::std_specs::hash::group_hash_axioms;

/// A value as it is laid out.
#[verifier::ext_equal]
pub enum WireValue {
    Fixed32(u32),
    Fixed64(u64),
    Varint(u64),
    LengthDelimited(Seq<u8>),
}

/// A length, cut off at 32 bits, and the bytes behind it.
pub open spec fn length_delimited(bytes: Seq<u8>) -> Seq<Seq<u8>> {
    seq![varint::varint(bytes.len() % 0x1_0000_0000), bytes]
}

impl WireValue {
    /// The wire type in the tag of a field with this value.
    pub open spec fn wire_type(self) -> WireType {
        match self {
            WireValue::Fixed32(_) => WireType::WireTypeFixed32,
            WireValue::Fixed64(_) => WireType::WireTypeFixed64,
            WireValue::Varint(_) => WireType::WireTypeVarint,
            WireValue::LengthDelimited(_) => WireType::WireTypeLengthDelimited,
        }
    }

    /// The value as it is written.
    pub open spec fn pieces(self) -> Seq<Seq<u8>> {
        match self {
            WireValue::Fixed32(value) => seq![endian::little_endian(value as nat, 4)],
            WireValue::Fixed64(value) => seq![endian::little_endian(value as nat, 8)],
            WireValue::Varint(value) => seq![varint::varint(value as nat)],
            WireValue::LengthDelimited(bytes) => length_delimited(bytes),
        }
    }

    /// A field with this value as it is written.
    pub open spec fn field(self, number: u32) -> Seq<Seq<u8>> {
        wire_format::field(number, self.wire_type(), self.pieces())
    }
}

/// Fields of one number as they are written, one for each value.
pub open spec fn repeated_field(number: u32, values: Seq<WireValue>) -> Seq<Seq<u8>>
    decreases values.len(),
{
    if values.len() == 0 {
        seq![]
    } else {
        repeated_field(number, values.drop_last()) + values.last().field(number)
    }
}

/// Fields as they are written when their numbers are taken in this order.
pub open spec fn fields_in_order(
    fields: Map<u32, Seq<WireValue>>,
    order: Seq<u32>,
) -> Seq<Seq<u8>>
    decreases order.len(),
{
    if order.len() == 0 {
        seq![]
    } else {
        fields_in_order(fields, order.drop_last()) + repeated_field(
            order.last(),
            fields[order.last()],
        )
    }
}

/// The fields of more values are the fields of the first ones and those of the others.
pub proof fn lemma_repeated_field_append(
    number: u32,
    one: Seq<WireValue>,
    other: Seq<WireValue>,
)
    ensures
        repeated_field(number, one + other) == repeated_field(number, one) + repeated_field(
            number,
            other,
        ),
    decreases other.len(),
{
    if other.len() == 0 {
        assert(one + other =~= one);
        assert(repeated_field(number, one) + repeated_field(number, other) =~= repeated_field(
            number,
            one,
        ));
    } else {
        assert((one + other).drop_last() =~= one + other.drop_last());
        lemma_repeated_field_append(number, one, other.drop_last());
        assert(repeated_field(number, one + other) =~= repeated_field(number, one)
            + repeated_field(number, other));
    }
}

/// The fields of more numbers are the fields of the first ones and those of the others.
pub proof fn lemma_fields_in_order_append(
    fields: Map<u32, Seq<WireValue>>,
    one: Seq<u32>,
    other: Seq<u32>,
)
    ensures
        fields_in_order(fields, one + other) == fields_in_order(fields, one) + fields_in_order(
            fields,
            other,
        ),
    decreases other.len(),
{
    if other.len() == 0 {
        assert(one + other =~= one);
        assert(fields_in_order(fields, one) + fields_in_order(fields, other)
            =~= fields_in_order(fields, one));
    } else {
        assert((one + other).drop_last() =~= one + other.drop_last());
        lemma_fields_in_order_append(fields, one, other.drop_last());
        assert(fields_in_order(fields, one + other) =~= fields_in_order(fields, one)
            + fields_in_order(fields, other));
    }
}

/// `order` holds each of `numbers` once.
pub open spec fn enumerates(order: Seq<u32>, numbers: Set<u32>) -> bool {
    &&& order.no_duplicates()
    &&& order.to_set() == numbers
}

/// Whatever is enumerated is one of the numbers.
pub proof fn lemma_enumerated(order: Seq<u32>, numbers: Set<u32>)
    requires
        enumerates(order, numbers),
    ensures
        forall|i: int| 0 <= i < order.len() ==> numbers.contains(#[trigger] order[i]),
{
    assert forall|i: int| 0 <= i < order.len() implies numbers.contains(#[trigger] order[i]) by {
        assert(order.to_set().contains(order[i]));
    }
}

/// Each number is less than those behind it.
pub open spec fn ascending(order: Seq<u32>) -> bool {
    forall|i: int, j: int| 0 <= i < j < order.len() ==> order[i] < order[j]
}

/// A value of a field that is not known.
#[derive(Debug)]
pub enum UnknownValue {
    Fixed32(u32),
    Fixed64(u64),
    Varint(u64),
    LengthDelimited(Vec<u8>),
}

impl View for UnknownValue {
    type V = WireValue;

    open spec fn view(&self) -> WireValue {
        match self {
            UnknownValue::Fixed32(value) => WireValue::Fixed32(*value),
            UnknownValue::Fixed64(value) => WireValue::Fixed64(*value),
            UnknownValue::Varint(value) => WireValue::Varint(*value),
            UnknownValue::LengthDelimited(bytes) => WireValue::LengthDelimited(bytes@),
        }
    }
}

/// A borrowed value of a field that is not known.
#[derive(Clone, Copy, Debug)]
pub enum UnknownValueRef<'o> {
    Fixed32(u32),
    Fixed64(u64),
    Varint(u64),
    LengthDelimited(&'o [u8]),
}

impl<'o> View for UnknownValueRef<'o> {
    type V = WireValue;

    open spec fn view(&self) -> WireValue {
        match self {
            UnknownValueRef::Fixed32(value) => WireValue::Fixed32(*value),
            UnknownValueRef::Fixed64(value) => WireValue::Fixed64(*value),
            UnknownValueRef::Varint(value) => WireValue::Varint(*value),
            UnknownValueRef::LengthDelimited(bytes) => WireValue::LengthDelimited(bytes@),
        }
    }
}

impl<'o> UnknownValueRef<'o> {
    /// The wire type in the tag of a field with this value.
    pub fn wire_type(&self) -> (wire_type: WireType)
        ensures
            wire_type == self@.wire_type(),
    {
        match self {
            UnknownValueRef::Fixed32(_) => WireType::WireTypeFixed32,
            UnknownValueRef::Fixed64(_) => WireType::WireTypeFixed64,
            UnknownValueRef::Varint(_) => WireType::WireTypeVarint,
            UnknownValueRef::LengthDelimited(_) => WireType::WireTypeLengthDelimited,
        }
    }
}

/// The values of one field that is not known, by how they are laid out.
#[derive(Debug)]
pub struct UnknownValues {
    pub fixed32: Vec<u32>,
    pub fixed64: Vec<u64>,
    pub varint: Vec<u64>,
    pub length_delimited: Vec<Vec<u8>>,
}

impl View for UnknownValues {
    type V = Seq<WireValue>;

    /// The values in the order in which they are written.
    open spec fn view(&self) -> Seq<WireValue> {
        self.fixed32@.map_values(|value: u32| WireValue::Fixed32(value))
            + self.fixed64@.map_values(|value: u64| WireValue::Fixed64(value))
            + self.varint@.map_values(|value: u64| WireValue::Varint(value))
            + self.length_delimited@.map_values(
            |bytes: Vec<u8>| WireValue::LengthDelimited(bytes@),
        )
    }
}

impl UnknownValues {
    /// No values.
    pub fn new() -> (values: UnknownValues)
        ensures
            values@ == Seq::<WireValue>::empty(),
            values.fixed32@.len() == 0,
            values.fixed64@.len() == 0,
            values.varint@.len() == 0,
            values.length_delimited@.len() == 0,
    {
        let values = UnknownValues {
            fixed32: Vec::new(),
            fixed64: Vec::new(),
            varint: Vec::new(),
            length_delimited: Vec::new(),
        };
        assert(values@ =~= Seq::<WireValue>::empty());
        values
    }

    /// How many of the values come before one that is laid out like `value` and added now.
    pub open spec fn rank(self, value: WireValue) -> int {
        match value {
            WireValue::Fixed32(_) => self.fixed32@.len() as int,
            WireValue::Fixed64(_) => (self.fixed32@.len() + self.fixed64@.len()) as int,
            WireValue::Varint(_) => {
                (self.fixed32@.len() + self.fixed64@.len() + self.varint@.len()) as int
            },
            WireValue::LengthDelimited(_) => self@.len() as int,
        }
    }

    /// Adds a value behind those that are laid out alike.
    pub fn add_value(&mut self, value: UnknownValue)
        ensures
            final(self)@ == old(self)@.insert(old(self).rank(value@), value@),
            final(self).fixed32@ == match value {
                UnknownValue::Fixed32(added) => old(self).fixed32@.push(added),
                _ => old(self).fixed32@,
            },
            final(self).fixed64@ == match value {
                UnknownValue::Fixed64(added) => old(self).fixed64@.push(added),
                _ => old(self).fixed64@,
            },
            final(self).varint@ == match value {
                UnknownValue::Varint(added) => old(self).varint@.push(added),
                _ => old(self).varint@,
            },
            final(self).length_delimited@ == match value {
                UnknownValue::LengthDelimited(added) => old(self).length_delimited@.push(added),
                _ => old(self).length_delimited@,
            },
    {
        let ghost added = value@;
        match value {
            UnknownValue::Fixed32(value) => self.fixed32.push(value),
            UnknownValue::Fixed64(value) => self.fixed64.push(value),
            UnknownValue::Varint(value) => self.varint.push(value),
            UnknownValue::LengthDelimited(value) => self.length_delimited.push(value),
        }
        assert(self@ =~= old(self)@.insert(old(self).rank(added), added));
    }

    /// The values in the order in which they are written.
    pub fn refs(&self) -> (refs: Vec<UnknownValueRef<'_>>)
        ensures
            refs@.map_values(|value: UnknownValueRef<'_>| value@) == self@,
            refs@.len() == self.fixed32@.len() + self.fixed64@.len() + self.varint@.len()
                + self.length_delimited@.len(),
            forall|i: int|
                0 <= i < self.fixed32@.len() ==> refs@[i] == UnknownValueRef::Fixed32(
                    #[trigger] self.fixed32@[i],
                ),
            forall|i: int|
                0 <= i < self.fixed64@.len() ==> refs@[self.fixed32@.len() + i]
                    == UnknownValueRef::Fixed64(#[trigger] self.fixed64@[i]),
            forall|i: int|
                0 <= i < self.varint@.len() ==> refs@[self.fixed32@.len() + self.fixed64@.len() + i]
                    == UnknownValueRef::Varint(#[trigger] self.varint@[i]),
            forall|i: int|
                0 <= i < self.length_delimited@.len() ==> (refs@[self.fixed32@.len()
                    + self.fixed64@.len() + self.varint@.len() + i]
                    matches UnknownValueRef::LengthDelimited(bytes) && bytes@ == (
                #[trigger] self.length_delimited@[i])@),
    {
        let mut refs: Vec<UnknownValueRef<'_>> = Vec::new();
        for i in 0..self.fixed32.len()
            invariant
                refs@.len() == i,
                forall|j: int| 0 <= j < i ==> (#[trigger] refs@[j])@ == self@[j],
        {
            refs.push(UnknownValueRef::Fixed32(self.fixed32[i]));
        }
        let ghost start = self.fixed32@.len();
        for i in 0..self.fixed64.len()
            invariant
                start == self.fixed32@.len(),
                refs@.len() == start + i,
                forall|j: int| 0 <= j < start + i ==> (#[trigger] refs@[j])@ == self@[j],
        {
            refs.push(UnknownValueRef::Fixed64(self.fixed64[i]));
        }
        let ghost start = start + self.fixed64@.len();
        for i in 0..self.varint.len()
            invariant
                start == self.fixed32@.len() + self.fixed64@.len(),
                refs@.len() == start + i,
                forall|j: int| 0 <= j < start + i ==> (#[trigger] refs@[j])@ == self@[j],
        {
            refs.push(UnknownValueRef::Varint(self.varint[i]));
        }
        let ghost start = start + self.varint@.len();
        for i in 0..self.length_delimited.len()
            invariant
                start == self.fixed32@.len() + self.fixed64@.len() + self.varint@.len(),
                refs@.len() == start + i,
                forall|j: int| 0 <= j < start + i ==> (#[trigger] refs@[j])@ == self@[j],
        {
            refs.push(UnknownValueRef::LengthDelimited(self.length_delimited[i].as_slice()));
        }
        assert(refs@.map_values(|value: UnknownValueRef<'_>| value@) =~= self@);
        refs
    }
}

/// The fields of a message that are not known, by their numbers.
#[derive(Debug)]
pub struct UnknownFields {
    fields: HashMap<u32, UnknownValues>,
}

impl View for UnknownFields {
    type V = Map<u32, UnknownValues>;

    closed spec fn view(&self) -> Map<u32, UnknownValues> {
        self.fields@
    }
}

impl UnknownFields {
    /// The values of each field in the order in which they are written.
    pub open spec fn values(self) -> Map<u32, Seq<WireValue>> {
        self@.map_values(|values: UnknownValues| values@)
    }

    /// No fields.
    pub fn new() -> (fields: UnknownFields)
        ensures
            fields@ == Map::<u32, UnknownValues>::empty(),
    {
        UnknownFields { fields: HashMap::new() }
    }

    /// Adds a value of the field with this number.
    pub fn add_value(&mut self, number: u32, value: UnknownValue)
        ensures
            final(self)@.dom() == old(self)@.dom().insert(number),
            forall|other: u32|
                other != number && old(self)@.contains_key(other) ==> #[trigger] final(self)@[other]
                    == old(self)@[other],
            final(self)@[number]@ == if old(self)@.contains_key(number) {
                old(self)@[number]@.insert(old(self)@[number].rank(value@), value@)
            } else {
                seq![value@]
            },
            final(self)@[number].fixed32@ == {
                let before = if old(self)@.contains_key(number) {
                    old(self)@[number].fixed32@
                } else {
                    seq![]
                };
                match value {
                    UnknownValue::Fixed32(added) => before.push(added),
                    _ => before,
                }
            },
            final(self)@[number].fixed64@ == {
                let before = if old(self)@.contains_key(number) {
                    old(self)@[number].fixed64@
                } else {
                    seq![]
                };
                match value {
                    UnknownValue::Fixed64(added) => before.push(added),
                    _ => before,
                }
            },
            final(self)@[number].varint@ == {
                let before = if old(self)@.contains_key(number) {
                    old(self)@[number].varint@
                } else {
                    seq![]
                };
                match value {
                    UnknownValue::Varint(added) => before.push(added),
                    _ => before,
                }
            },
            final(self)@[number].length_delimited@ == {
                let before = if old(self)@.contains_key(number) {
                    old(self)@[number].length_delimited@
                } else {
                    seq![]
                };
                match value {
                    UnknownValue::LengthDelimited(added) => before.push(added),
                    _ => before,
                }
            },
    {
        let values = self.fields.entry(number).or_insert(UnknownValues::new());
        values.add_value(value);
    }

    /// The numbers of the fields, in no particular order.
    pub fn numbers(&self) -> (numbers: Vec<u32>)
        ensures
            enumerates(numbers@, self@.dom()),
    {
        let mut numbers: Vec<u32> = Vec::new();
        let keys = self.fields.keys();
        let ghost order = vstd::std_specs::hash::into_iter_keys(keys);
        for number in iter: keys
            invariant
                iter.seq().unref() == order,
                numbers@ == order.take(iter.index()),
        {
            numbers.push(*number);
            assert(numbers@ =~= order.take(iter.index() + 1));
        }
        assert(order.take(order.len() as int) =~= order);
        numbers
    }

    /// The values of the field with this number.
    pub fn get(&self, number: u32) -> (values: Option<&UnknownValues>)
        ensures
            values == if self@.contains_key(number) {
                Some(&self@[number])
            } else {
                None
            },
    {
        self.fields.get(&number)
    }
}

/// The same numbers, in ascending order.
pub fn sort_numbers(numbers: &Vec<u32>) -> (sorted: Vec<u32>)
    requires
        numbers@.no_duplicates(),
    ensures
        ascending(sorted@),
        enumerates(sorted@, numbers@.to_set()),
{
    let mut sorted: Vec<u32> = Vec::new();
    for i in 0..numbers.len()
        invariant
            numbers@.no_duplicates(),
            ascending(sorted@),
            forall|x: u32| #[trigger]
                sorted@.contains(x) <==> numbers@.take(i as int).contains(x),
    {
        let number: u32 = numbers[i];
        let ghost before = sorted@;
        assert(!before.contains(number)) by {
            if numbers@.take(i as int).contains(number) {
                let j = choose|j: int| 0 <= j < i && numbers@[j] == number;
                assert(numbers@[j] == numbers@[i as int]);
            }
        }
        let mut at: usize = 0;
        while at < sorted.len() && sorted[at] < number
            invariant
                at <= sorted@.len(),
                sorted@ == before,
                forall|j: int| 0 <= j < at ==> sorted@[j] < number,
            decreases sorted@.len() - at,
        {
            at = at + 1;
        }
        sorted.insert(at, number);
        proof {
            if at < before.len() {
                assert(before.contains(before[at as int]));
            }
            assert forall|x: u32| #[trigger]
                sorted@.contains(x) <==> numbers@.take(i + 1).contains(x) by {
                let taken = numbers@.take(i + 1);
                assert(taken =~= numbers@.take(i as int).push(number));
                assert(sorted@[at as int] == number);
                assert(taken[i as int] == number);
                if before.contains(x) {
                    let j = before.index_of(x);
                    assert(sorted@[if j < at { j } else { j + 1 }] == x);
                    let k = numbers@.take(i as int).index_of(x);
                    assert(taken[k] == x);
                }
                if sorted@.contains(x) && x != number {
                    let j = sorted@.index_of(x);
                    assert(before[if j < at { j } else { j - 1 }] == x);
                }
                if taken.contains(x) && x != number {
                    let k = taken.index_of(x);
                    assert(numbers@.take(i as int)[k] == x);
                }
            }
        }
    }
    proof {
        assert(numbers@.take(numbers@.len() as int) =~= numbers@);
        assert(sorted@.to_set() =~= numbers@.to_set());
    }
    sorted
}

/// There is one ascending order of given numbers.
pub proof fn law_ascending_order_unique(one: Seq<u32>, other: Seq<u32>)
    requires
        ascending(one),
        ascending(other),
        one.to_set() == other.to_set(),
    ensures
        one == other,
    decreases one.len(),
{
    if one.len() == 0 {
        if other.len() > 0 {
            assert(other.to_set().contains(other[0]));
        }
    } else if other.len() == 0 {
        assert(one.to_set().contains(one[0]));
    } else {
        let a = one.last();
        let b = other.last();
        assert(other.to_set().contains(b));
        assert(one.to_set().contains(a));
        assert(one.contains(b));
        assert(other.contains(a));
        assert(a == b);
        assert forall|x: u32| #[trigger]
            one.drop_last().contains(x) <==> other.drop_last().contains(x) by {
            lemma_last_is_greatest(one, x);
            lemma_last_is_greatest(other, x);
            assert(one.to_set().contains(x) <==> one.contains(x));
            assert(other.to_set().contains(x) <==> other.contains(x));
        }
        assert(one.drop_last().to_set() =~= other.drop_last().to_set());
        law_ascending_order_unique(one.drop_last(), other.drop_last());
        assert(one =~= one.drop_last().push(a));
        assert(other =~= other.drop_last().push(b));
    }
}

proof fn lemma_last_is_greatest(order: Seq<u32>, x: u32)
    requires
        ascending(order),
        order.len() > 0,
    ensures
        order.drop_last().contains(x) <==> order.contains(x) && x != order.last(),
{
    if order.drop_last().contains(x) {
        let i = order.drop_last().index_of(x);
        assert(order[i] == x);
    }
    if order.contains(x) && x != order.last() {
        let i = order.index_of(x);
        assert(order.drop_last()[i] == x);
    }
}

} // verus!
