//! The errors that writing can end in.
use vstd::prelude::*;

verus! {

/// `std::io::Error`, carried through as it came: nothing is read out of it.
#[verifier::external_type_specification]
#[verifier::external_body]
pub struct ExIoError(std::io::Error);

/// A failure to hand bytes on.
#[derive(Debug)]
pub enum IoError {
    /// The error that the writer under a stream reported.
    Writer(std::io::Error),
    /// An error of no particular kind, raised by a stream itself, with its message.
    Other(&'static str),
}

/// What an operation on a stream fails with.
#[derive(Debug)]
pub enum ProtobufError {
    /// The bytes could not be handed on.
    IoError(IoError),
    /// A message lacks a field that it must have; the message's name is given.
    MessageNotInitialized(String),
}

/// The result of an operation on a stream.
pub type ProtobufResult<T> = Result<T, ProtobufError>;

} // verus!
