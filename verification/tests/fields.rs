use std::cell::Cell;

use protobuf::unknown::{sort_numbers, UnknownValue, UnknownValues};
use protobuf::wire_format;
use protobuf::wire_format::{Tag, WireType};
use protobuf::writer::Write;
use protobuf::{
    CodedOutputStream, Message, MessageDyn, ProtobufEnum, ProtobufEnumOrUnknown, ProtobufError,
    ProtobufResult, UnknownFields, UnknownValueRef,
};

fn written<F>(gen: F) -> Vec<u8>
where
    F: FnOnce(&mut CodedOutputStream) -> ProtobufResult<()>,
{
    let mut v: Vec<u8> = Vec::new();
    let mut os = CodedOutputStream::vec(&mut v);
    gen(&mut os).unwrap();
    os.close().unwrap();
    v
}

enum Color {
    Red,
    Infrared,
}

impl ProtobufEnum for Color {
    fn value(&self) -> i32 {
        match self {
            Color::Red => 1,
            Color::Infrared => -1,
        }
    }
}

/// A message with one `uint32` field, which can give up before it writes that, and counts how
/// often it is asked.
struct Sample {
    value: u32,
    initialized: bool,
    asked: Cell<u32>,
}

impl Sample {
    fn new(value: u32, initialized: bool) -> Sample {
        Sample {
            value,
            initialized,
            asked: Cell::new(0),
        }
    }
}

impl<W: Write + ?Sized> Message<W> for Sample {
    fn compute_size(&self) -> u32 {
        written(|os| os.write_uint32(1, self.value)).len() as u32
    }

    fn write_to_with_cached_sizes(
        &self,
        os: &mut CodedOutputStream<'_, W>,
    ) -> ProtobufResult<()> {
        self.asked.set(self.asked.get() + 1);
        if !self.initialized {
            return Err(ProtobufError::MessageNotInitialized("Sample".to_string()));
        }
        os.write_uint32(1, self.value)
    }
}

#[test]
fn varint_fields() {
    assert_eq!(written(|os| os.write_uint64(1, 300)), [0x08, 0xac, 0x02]);
    assert_eq!(written(|os| os.write_uint32(2, 1)), [0x10, 0x01]);
    assert_eq!(written(|os| os.write_int64(3, 127)), [0x18, 0x7f]);
    assert_eq!(
        written(|os| os.write_int64(3, i64::MIN)),
        [0x18, 0x80, 0x80, 0x80, 0x80, 0x80, 0x80, 0x80, 0x80, 0x80, 0x01]
    );
    assert_eq!(
        written(|os| os.write_int32(4, -2)),
        [0x20, 0xfe, 0xff, 0xff, 0xff, 0xff, 0xff, 0xff, 0xff, 0xff, 0x01]
    );
    assert_eq!(written(|os| os.write_bool(5, true)), [0x28, 0x01]);
    assert_eq!(written(|os| os.write_bool(5, false)), [0x28, 0x00]);
    assert_eq!(written(|os| os.write_bool_no_tag(true)), [0x01]);
    assert_eq!(written(|os| os.write_uint32_no_tag(128)), [0x80, 0x01]);
    assert_eq!(written(|os| os.write_uint64_no_tag(16384)), [0x80, 0x80, 0x01]);
}

#[test]
fn zigzag_fields() {
    assert_eq!(written(|os| os.write_sint32(1, 0)), [0x08, 0x00]);
    assert_eq!(written(|os| os.write_sint32(1, -1)), [0x08, 0x01]);
    assert_eq!(written(|os| os.write_sint32(1, 1)), [0x08, 0x02]);
    assert_eq!(
        written(|os| os.write_sint32_no_tag(i32::MIN)),
        [0xff, 0xff, 0xff, 0xff, 0x0f]
    );
    assert_eq!(written(|os| os.write_sint64(1, -2)), [0x08, 0x03]);
    assert_eq!(
        written(|os| os.write_sint64_no_tag(i64::MAX)),
        [0xfe, 0xff, 0xff, 0xff, 0xff, 0xff, 0xff, 0xff, 0xff, 0x01]
    );
}

#[test]
fn fixed_fields() {
    assert_eq!(written(|os| os.write_fixed32(1, 0x01020304)), [0x0d, 4, 3, 2, 1]);
    assert_eq!(
        written(|os| os.write_fixed64(1, 0x0102030405060708)),
        [0x09, 8, 7, 6, 5, 4, 3, 2, 1]
    );
    assert_eq!(written(|os| os.write_sfixed32(1, -2)), [0x0d, 0xfe, 0xff, 0xff, 0xff]);
    assert_eq!(
        written(|os| os.write_sfixed64(1, -2)),
        [0x09, 0xfe, 0xff, 0xff, 0xff, 0xff, 0xff, 0xff, 0xff]
    );
    assert_eq!(written(|os| os.write_fixed32_no_tag(1)), [1, 0, 0, 0]);
    assert_eq!(written(|os| os.write_fixed64_no_tag(1)), [1, 0, 0, 0, 0, 0, 0, 0]);
    assert_eq!(written(|os| os.write_sfixed32_no_tag(i32::MIN)), [0, 0, 0, 0x80]);
    assert_eq!(
        written(|os| os.write_sfixed64_no_tag(i64::MIN)),
        [0, 0, 0, 0, 0, 0, 0, 0x80]
    );
}

#[test]
fn enum_fields() {
    let infrared = [
        0x08, 0xff, 0xff, 0xff, 0xff, 0xff, 0xff, 0xff, 0xff, 0xff, 0x01,
    ];
    assert_eq!(written(|os| os.write_enum(1, 1)), [0x08, 0x01]);
    assert_eq!(written(|os| os.write_enum_no_tag(2)), [0x02]);
    assert_eq!(written(|os| os.write_enum_obj(1, Color::Red)), [0x08, 0x01]);
    assert_eq!(written(|os| os.write_enum_obj(1, Color::Infrared)), infrared);
    assert_eq!(written(|os| os.write_enum_obj_no_tag(Color::Red)), [0x01]);
    assert_eq!(
        written(|os| os.write_enum_or_unknown(1, ProtobufEnumOrUnknown::new(Color::Infrared))),
        infrared
    );
    assert_eq!(
        written(|os| {
            os.write_enum_or_unknown_no_tag(ProtobufEnumOrUnknown::<Color>::from_i32(17))
        }),
        [17]
    );
}

#[test]
fn bytes_and_string_fields() {
    assert_eq!(written(|os| os.write_bytes(1, &[7, 8, 9])), [0x0a, 3, 7, 8, 9]);
    assert_eq!(written(|os| os.write_bytes_no_tag(&[])), [0]);
    assert_eq!(written(|os| os.write_string(2, "ab")), [0x12, 2, 0x61, 0x62]);
    assert_eq!(written(|os| os.write_string_no_tag("é")), [2, 0xc3, 0xa9]);

    let long = vec![5u8; 200];
    let mut expected = vec![0x0a, 0xc8, 0x01];
    expected.extend(&long);
    assert_eq!(written(|os| os.write_bytes(1, &long)), expected);
}

#[test]
fn message_fields() {
    let sample = Sample::new(150, true);
    assert_eq!(
        written(|os| os.write_message_no_tag(&sample)),
        [0x03, 0x08, 0x96, 0x01]
    );
    assert_eq!(
        written(|os| os.write_message(3, &sample)),
        [0x1a, 0x03, 0x08, 0x96, 0x01]
    );
    let erased: &dyn MessageDyn<Vec<u8>> = &sample;
    assert_eq!(
        written(|os| os.write_message_no_tag_dyn(erased)),
        [0x03, 0x08, 0x96, 0x01]
    );
    assert_eq!(
        written(|os| os.write_message_dyn(3, erased)),
        [0x1a, 0x03, 0x08, 0x96, 0x01]
    );
}

#[test]
fn message_that_gives_up() {
    let sample = Sample::new(150, false);
    let mut v: Vec<u8> = Vec::new();
    let mut os = CodedOutputStream::vec(&mut v);
    match os.write_message(3, &sample) {
        Err(ProtobufError::MessageNotInitialized(name)) => assert_eq!("Sample", name),
        _ => panic!("must give up"),
    }
    os.close().unwrap();
    assert_eq!(v, [0x1a, 0x03]);
}

fn gave_up(result: ProtobufResult<()>) -> bool {
    match result {
        Err(ProtobufError::MessageNotInitialized(name)) => name == "Sample",
        _ => false,
    }
}

#[test]
fn error_of_a_message_is_returned_as_it_is() {
    let sample = Sample::new(150, false);
    let mut v: Vec<u8> = Vec::new();
    let mut os = CodedOutputStream::vec(&mut v);
    assert!(gave_up(os.write_message_no_tag(&sample)));
    assert!(gave_up(os.write_message_no_tag_dyn(&sample)));
    assert!(gave_up(os.write_message_dyn(3, &sample)));
    os.close().unwrap();
    assert_eq!(3, sample.asked.get());
    assert_eq!(v, [0x03, 0x03, 0x1a, 0x03]);
}

#[test]
fn message_is_not_asked_when_there_is_no_space_in_front_of_it() {
    let sample = Sample::new(150, false);
    let mut none: [u8; 0] = [];
    let mut os = CodedOutputStream::bytes(&mut none);
    assert!(!gave_up(os.write_message_no_tag(&sample)));
    assert!(!gave_up(os.write_message_no_tag_dyn(&sample)));
    assert!(!gave_up(os.write_message(3, &sample)));
    assert!(!gave_up(os.write_message_dyn(3, &sample)));
    assert_eq!(0, sample.asked.get());

    let mut one = [9u8; 1];
    let mut os = CodedOutputStream::bytes(&mut one);
    assert!(!gave_up(os.write_message_dyn(3, &sample)));
    os.check_eof();
    assert_eq!(0, sample.asked.get());
    assert_eq!(one, [0x1a]);
}

#[test]
fn unknown_values() {
    assert_eq!(
        written(|os| os.write_unknown(1, UnknownValueRef::Fixed32(1))),
        [0x0d, 1, 0, 0, 0]
    );
    assert_eq!(
        written(|os| os.write_unknown(1, UnknownValueRef::Fixed64(1))),
        [0x09, 1, 0, 0, 0, 0, 0, 0, 0]
    );
    assert_eq!(
        written(|os| os.write_unknown(1, UnknownValueRef::Varint(150))),
        [0x08, 0x96, 0x01]
    );
    assert_eq!(
        written(|os| os.write_unknown(1, UnknownValueRef::LengthDelimited(&[3, 4]))),
        [0x0a, 2, 3, 4]
    );
    assert_eq!(
        written(|os| os.write_unknown_no_tag(UnknownValueRef::LengthDelimited(&[3, 4]))),
        [2, 3, 4]
    );
    assert_eq!(
        UnknownValueRef::Fixed64(0).wire_type(),
        WireType::WireTypeFixed64
    );
}

#[test]
fn unknown_fields_group_values_by_layout() {
    let mut fields = UnknownFields::new();
    fields.add_value(2, UnknownValue::LengthDelimited(vec![9]));
    fields.add_value(2, UnknownValue::Varint(1));
    fields.add_value(2, UnknownValue::Fixed64(2));
    fields.add_value(2, UnknownValue::Varint(3));
    fields.add_value(2, UnknownValue::Fixed32(4));
    assert_eq!(
        written(|os| os.write_unknown_fields(&fields)),
        [
            0x15, 4, 0, 0, 0, //
            0x11, 2, 0, 0, 0, 0, 0, 0, 0, //
            0x10, 1, //
            0x10, 3, //
            0x12, 1, 9,
        ]
    );
    assert_eq!(5, fields.get(2).unwrap().refs().len());
    assert!(fields.get(3).is_none());
    assert_eq!(0, UnknownValues::new().refs().len());
}

#[test]
fn unknown_fields_in_some_order() {
    let mut fields = UnknownFields::new();
    for number in [7, 3, 5] {
        fields.add_value(number, UnknownValue::Varint(number as u64));
    }
    let order = fields.numbers();
    let expected: Vec<u8> = order
        .iter()
        .flat_map(|number| [(number * 8) as u8, *number as u8])
        .collect();
    assert_eq!(
        written(|os| os.write_unknown_fields_in_order(&fields, &order)),
        expected
    );
    assert_eq!(written(|os| os.write_unknown_fields(&fields)).len(), 6);
    assert_eq!(
        written(|os| os.write_unknown_fields_sorted(&fields)),
        [0x18, 3, 0x28, 5, 0x38, 7]
    );
    assert_eq!(written(|os| os.write_unknown_fields(&UnknownFields::new())), []);
}

#[test]
fn numbers_are_sorted() {
    assert_eq!(sort_numbers(&vec![5, 1, 4, u32::MAX, 0]), [0, 1, 4, 5, u32::MAX]);
    assert_eq!(sort_numbers(&vec![]), []);
}

#[test]
fn tags() {
    assert_eq!(Tag::make(1, WireType::WireTypeVarint).value(), 8);
    assert_eq!(
        Tag::make(wire_format::FIELD_NUMBER_MAX, WireType::WireTypeFixed32).value(),
        0xfffffffd
    );
    assert_eq!(
        written(|os| os.write_tag(16, wire_format::WireTypeEndGroup)),
        [0x84, 0x01]
    );
    assert_eq!(WireType::WireTypeStartGroup.value(), 3);
}
