//! Writing of protobuf messages: the values that they are made of, to a writer, a vector or a
//! slice.
//!
//! `coded_output_stream` has the stream, `output` the model in which its contracts say where the
//! bytes are, and `varint`, `zigzag`, `signed`, `endian`, `wire_format` and `unknown` say which
//! bytes a value is written as. `laws` states what holds of every stream, and `reading` that what
//! was written can be read back. `layout` says with arithmetic alone what the bytes of a value are,
//! `field_laws` and `unknown_laws` how fields relate and in which order they arrive, and `delivery`
//! that what a stream was given is in its target in the end.
pub mod coded_output_stream;
pub mod delivery;
pub mod endian;
pub mod enums;
pub mod error;
pub mod field_laws;
pub mod laws;
pub mod layout;
pub mod message;
pub mod output;
pub mod reading;
pub mod signed;
pub mod unknown;
pub mod unknown_laws;
pub mod varint;
pub mod wire_format;
pub mod with_stream;
pub mod writer;
pub mod zigzag;

pub use crate::coded_output_stream::CodedOutputStream;
pub use crate::enums::{ProtobufEnum, ProtobufEnumOrUnknown};
pub use crate::error::{ProtobufError, ProtobufResult};
pub use crate::message::{Message, MessageDyn};
pub use crate::unknown::{UnknownFields, UnknownValueRef};
pub use crate::with_stream::WithCodedOutputStream;
