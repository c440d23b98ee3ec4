//! Enumerations, which are written as their numbers.
use core::marker::PhantomData;

use vstd::prelude::*;

verus! {

/// An enumeration whose values have numbers.
pub trait ProtobufEnum {
    /// The number of the value, for the implementation to say.
    open spec fn number(&self) -> i32 {
        arbitrary()
    }

    /// The number of the value.
    fn value(&self) -> (value: i32)
        ensures
            value == self.number(),
    ;
}

/// A value of an enumeration, or a number that none of its values has.
#[derive(Debug)]
pub struct ProtobufEnumOrUnknown<E: ProtobufEnum> {
    value: i32,
    _marker: PhantomData<E>,
}

impl<E: ProtobufEnum> ProtobufEnumOrUnknown<E> {
    /// The number.
    pub closed spec fn number(self) -> i32 {
        self.value
    }

    /// A value of the enumeration.
    pub fn new(e: E) -> (this: ProtobufEnumOrUnknown<E>)
        ensures
            this.number() == e.number(),
    {
        ProtobufEnumOrUnknown::from_i32(e.value())
    }

    /// Any number.
    pub fn from_i32(value: i32) -> (this: ProtobufEnumOrUnknown<E>)
        ensures
            this.number() == value,
    {
        ProtobufEnumOrUnknown { value, _marker: PhantomData }
    }

    /// The number.
    pub fn value(&self) -> (value: i32)
        ensures
            value == self.number(),
    {
        self.value
    }
}

} // verus!
