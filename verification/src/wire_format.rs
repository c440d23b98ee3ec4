//! What stands in front of a field: its number, and how its value is laid out.
use vstd::prelude::*;

use crate::varint;

pub use self::WireType::{
    WireTypeEndGroup, WireTypeFixed32, WireTypeFixed64, WireTypeLengthDelimited,
    WireTypeStartGroup, WireTypeVarint,
};

verus! {

/// How many low bits of a tag hold the wire type.
pub const TAG_TYPE_BITS: u32 = 3;

/// The greatest number that a field can have.
pub const FIELD_NUMBER_MAX: u32 = 0x1fff_ffff;

/// How the value of a field is laid out.
#[derive(Clone, Copy, Debug, PartialEq, Eq, Structural)]
pub enum WireType {
    /// A variable-length integer.
    WireTypeVarint,
    /// Eight bytes.
    WireTypeFixed64,
    /// A length and as many bytes.
    WireTypeLengthDelimited,
    /// The start of a group.
    WireTypeStartGroup,
    /// The end of a group.
    WireTypeEndGroup,
    /// Four bytes.
    WireTypeFixed32,
}

impl WireType {
    /// The number that stands for the wire type in a tag.
    pub open spec fn number(self) -> nat {
        match self {
            WireType::WireTypeVarint => 0,
            WireType::WireTypeFixed64 => 1,
            WireType::WireTypeLengthDelimited => 2,
            WireType::WireTypeStartGroup => 3,
            WireType::WireTypeEndGroup => 4,
            WireType::WireTypeFixed32 => 5,
        }
    }

    /// The number that stands for the wire type in a tag.
    pub fn value(self) -> (value: u32)
        ensures
            value == self.number(),
    {
        match self {
            WireType::WireTypeVarint => 0,
            WireType::WireTypeFixed64 => 1,
            WireType::WireTypeLengthDelimited => 2,
            WireType::WireTypeStartGroup => 3,
            WireType::WireTypeEndGroup => 4,
            WireType::WireTypeFixed32 => 5,
        }
    }
}

/// The tag of a field as an integer: the wire type in the low three bits, the field number above
/// it, cut off at 32 bits.
pub open spec fn tag_value(field_number: u32, wire_type: WireType) -> nat {
    ((8 * field_number) % 0x1_0000_0000) as nat + wire_type.number()
}

/// The tag of a field as it is written.
pub open spec fn tag_bytes(field_number: u32, wire_type: WireType) -> Seq<u8> {
    varint::varint(tag_value(field_number, wire_type))
}

/// A field as it is written: the tag, and the value behind it.
pub open spec fn field(
    field_number: u32,
    wire_type: WireType,
    value: Seq<Seq<u8>>,
) -> Seq<Seq<u8>> {
    seq![tag_bytes(field_number, wire_type)] + value
}

/// A field number that a tag can hold is found again in the tag, and so is the wire type.
pub proof fn law_tag_reads_back(field_number: u32, wire_type: WireType)
    requires
        field_number <= FIELD_NUMBER_MAX,
    ensures
        tag_value(field_number, wire_type) <= u32::MAX,
        tag_value(field_number, wire_type) / 8 == field_number,
        tag_value(field_number, wire_type) % 8 == wire_type.number(),
{
}

/// No two wire types have one number.
pub proof fn law_wire_types_differ(one: WireType, other: WireType)
    ensures
        one.number() == other.number() <==> one == other,
        one.number() < 8,
{
}

/// A field number with a wire type.
#[derive(Clone, Copy, Debug, PartialEq, Eq, Structural)]
pub struct Tag {
    pub field_number: u32,
    pub wire_type: WireType,
}

impl Tag {
    /// The tag of a field.
    pub fn make(field_number: u32, wire_type: WireType) -> (tag: Tag)
        ensures
            tag == (Tag { field_number, wire_type }),
    {
        Tag { field_number, wire_type }
    }

    /// The tag as it is written.
    pub fn value(self) -> (value: u32)
        ensures
            value == tag_value(self.field_number, self.wire_type),
    {
        let number: u32 = self.field_number;
        let low: u32 = self.wire_type.value();
        proof {
            assert((number << 3) | low == (8 * number) % 0x1_0000_0000 + low) by (bit_vector)
                requires
                    low < 8,
            ;
        }
        (number << TAG_TYPE_BITS) | low
    }
}

} // verus!
