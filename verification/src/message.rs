//! Messages, as far as a stream has to know them.
use vstd::prelude::*;

use crate::coded_output_stream::CodedOutputStream;
use crate::error::ProtobufResult;
use crate::output;
use crate::varint;
use crate::writer::Write;

verus! {

/// A message that can be written to a stream; `W` is the kind of writer that the stream could
/// have. A message is mostly one for every kind.
pub trait Message<W: Write + ?Sized> {
    /// The pieces of which the message is made up when it is written.
    open spec fn pieces(&self) -> Seq<Seq<u8>> {
        arbitrary()
    }

    /// The size that is announced in front of the message.
    open spec fn size(&self) -> u32 {
        arbitrary()
    }

    /// Computes the size that is announced in front of the message.
    fn compute_size(&self) -> (size: u32)
        ensures
            size == self.size(),
    ;

    /// Writes the message. It may give up with an error of its own between two pieces.
    fn write_to_with_cached_sizes(
        &self,
        os: &mut CodedOutputStream<'_, W>,
    ) -> (result: ProtobufResult<()>)
        requires
            old(os).wf(),
        ensures
            final(os).wrote_message(*old(os), seq![], self.pieces(), result),
            &*final(final(os).writer()) == &*final(old(os).writer()),
            *final(final(os).vector()) == *final(old(os).vector()),
            final(final(os).slice())@ == final(old(os).slice())@,
    ;

    /// Writes the size and the message behind it. What the message itself returns is returned as
    /// it is; it is asked once the size is written.
    fn write_length_delimited_to(
        &self,
        os: &mut CodedOutputStream<'_, W>,
    ) -> (result: ProtobufResult<()>)
        requires
            old(os).wf(),
        ensures
            final(os).wrote_message(
                *old(os),
                seq![varint::varint(self.size() as nat)],
                self.pieces(),
                result,
            ),
            &*final(final(os).writer()) == &*final(old(os).writer()),
            *final(final(os).vector()) == *final(old(os).vector()),
            final(final(os).slice())@ == final(old(os).slice())@,
        default_ensures
            (result is Err && final(os).wrote(
                *old(os),
                seq![varint::varint(self.size() as nat)],
                result,
            )) || exists|stream: &mut CodedOutputStream<'_, W>|
                {
                    &&& #[trigger] call_ensures(
                        Self::write_to_with_cached_sizes,
                        (self, stream),
                        result,
                    )
                    &&& stream.wrote(*old(os), seq![varint::varint(self.size() as nat)], Ok(()))
                    &&& *final(stream) == *final(os)
                },
    {
        proof {
            output::lemma_message_behind(
                os@,
                seq![varint::varint(self.size() as nat)],
                seq![],
                self.pieces(),
            );
        }
        let size: u32 = self.compute_size();
        os.write_raw_varint32(size)?;
        self.write_to_with_cached_sizes(os)
    }
}

/// A message that can be written without its type being known.
pub trait MessageDyn<W: Write + ?Sized> {
    /// The pieces of which the message is made up when it is written.
    open spec fn pieces_dyn(&self) -> Seq<Seq<u8>> {
        arbitrary()
    }

    /// The size that is announced in front of the message.
    open spec fn size_dyn(&self) -> u32 {
        arbitrary()
    }

    /// Computes the size that is announced in front of the message.
    fn compute_size_dyn(&self) -> (size: u32)
        ensures
            size == self.size_dyn(),
    ;

    /// Writes the message. It may give up with an error of its own between two pieces.
    fn write_to_dyn(&self, os: &mut CodedOutputStream<'_, W>) -> (result: ProtobufResult<()>)
        requires
            old(os).wf(),
        ensures
            final(os).wrote_message(*old(os), seq![], self.pieces_dyn(), result),
            &*final(final(os).writer()) == &*final(old(os).writer()),
            *final(final(os).vector()) == *final(old(os).vector()),
            final(final(os).slice())@ == final(old(os).slice())@,
    ;
}

/// Every message can be written without its type being known.
impl<M: Message<W>, W: Write + ?Sized> MessageDyn<W> for M {
    open spec fn pieces_dyn(&self) -> Seq<Seq<u8>> {
        self.pieces()
    }

    open spec fn size_dyn(&self) -> u32 {
        self.size()
    }

    fn compute_size_dyn(&self) -> (size: u32)
        ensures
            size == self.size(),
    {
        self.compute_size()
    }

    fn write_to_dyn(&self, os: &mut CodedOutputStream<'_, W>) -> (result: ProtobufResult<()>)
        ensures
            final(os).wrote_message(*old(os), seq![], self.pieces(), result),
            exists|stream: &mut CodedOutputStream<'_, W>|
                {
                    &&& #[trigger] call_ensures(
                        M::write_to_with_cached_sizes,
                        (self, stream),
                        result,
                    )
                    &&& *stream == *old(os)
                    &&& *final(stream) == *final(os)
                },
    {
        self.write_to_with_cached_sizes(os)
    }
}

/// A message is the same message without its type: it announces the same size, and is made up of
/// the same pieces.
pub proof fn law_message_is_the_same_without_its_type<M: Message<W>, W: Write + ?Sized>(msg: &M)
    ensures
        msg.size_dyn() == msg.size(),
        msg.pieces_dyn() == msg.pieces(),
{
}

/// Both ways of asking a message for its size have one answer.
pub proof fn law_size_is_computed_alike<M: Message<W>, W: Write + ?Sized>(
    msg: &M,
    size: u32,
    size_dyn: u32,
)
    requires
        call_ensures(M::compute_size, (msg,), size),
        call_ensures(M::compute_size_dyn, (msg,), size_dyn),
    ensures
        size_dyn == size,
{
}

} // verus!
