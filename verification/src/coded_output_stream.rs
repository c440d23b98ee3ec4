//! Buffered output of the values that messages are made of.
use vstd::prelude::*;
use vstd::slice::slice_subrange;

use crate::endian;
use crate::enums::{ProtobufEnum, ProtobufEnumOrUnknown};
use crate::error::{IoError, ProtobufError, ProtobufResult};
use crate::message::{Message, MessageDyn};
use crate::output;
use crate::output::{Output, OUTPUT_STREAM_BUFFER_SIZE};
use crate::signed;
use crate::unknown;
use crate::unknown::{UnknownFields, UnknownValueRef, UnknownValues};
use crate::varint;
use crate::wire_format;
use crate::writer;
use crate::writer::Write;
use crate::zigzag;

verus! {

/// What a stream writes to.
enum OutputTarget<'a, W: Write + ?Sized> {
    /// A writer, with the buffer in front of it.
    Write(&'a mut W, Vec<u8>),
    /// A vector, at its end.
    Vec(&'a mut Vec<u8>),
    /// A slice.
    Bytes(&'a mut [u8]),
}

/// Buffered write with handy utilities
pub struct CodedOutputStream<'a, W: Write + ?Sized = Vec<u8>> {
    target: OutputTarget<'a, W>,
    // within buffer
    position: usize,
}

impl<'a, W: Write + ?Sized> CodedOutputStream<'a, W> {
    /// Where the bytes are that the stream was given.
    pub closed spec fn view(self) -> Output {
        match self.target {
            OutputTarget::Write(writer, buffer) => Output::Writer {
                written: writer.written(),
                pending: buffer@.take(self.position as int),
            },
            OutputTarget::Vec(vec) => Output::Vec { contents: vec@ },
            OutputTarget::Bytes(bytes) => Output::Slice {
                filled: bytes@.take(self.position as int),
                free: bytes@.skip(self.position as int),
            },
        }
    }

    /// The position is within the buffer, which for a writer has its one size.
    pub closed spec fn wf(self) -> bool {
        match self.target {
            OutputTarget::Write(writer, buffer) => self.position <= buffer@.len()
                == OUTPUT_STREAM_BUFFER_SIZE,
            OutputTarget::Vec(vec) => self.position == 0,
            OutputTarget::Bytes(bytes) => self.position <= bytes@.len(),
        }
    }

    /// The borrowed writer, of a stream that has one.
    pub closed spec fn writer(self) -> &'a mut W {
        match self.target {
            OutputTarget::Write(writer, buffer) => writer,
            _ => arbitrary(),
        }
    }

    /// The borrowed vector, of a stream that has one.
    pub closed spec fn vector(self) -> &'a mut Vec<u8> {
        match self.target {
            OutputTarget::Vec(vec) => vec,
            _ => arbitrary(),
        }
    }

    /// The borrowed slice, of a stream that has one.
    pub closed spec fn slice(self) -> &'a mut [u8] {
        match self.target {
            OutputTarget::Bytes(bytes) => bytes,
            _ => arbitrary(),
        }
    }

    /// The unused part of the buffer; a vector has none.
    spec fn unused(self) -> Seq<u8> {
        match self.target {
            OutputTarget::Write(writer, buffer) => buffer@.skip(self.position as int),
            OutputTarget::Vec(vec) => seq![],
            OutputTarget::Bytes(bytes) => bytes@.skip(self.position as int),
        }
    }

    /// What the borrowed writer last failed with.
    pub open spec fn failure(self) -> Option<std::io::Error> {
        match self@ {
            Output::Writer { written, pending } => self.writer().failure(),
            _ => None,
        }
    }

    /// Writing the pieces one after the other led from `before` to this stream, with this result.
    /// A writer for whose buffer they are not too many is still as it was: nothing asked it.
    pub open spec fn wrote(
        self,
        before: Self,
        pieces: Seq<Seq<u8>>,
        result: ProtobufResult<()>,
    ) -> bool {
        &&& self.wf()
        &&& output::wrote(before@, pieces, self@, self.failure(), result)
        &&& !before@.overflows(output::concat(pieces).len()) ==> self.writer() == before.writer()
    }

    /// Writing some pieces and a message behind them led from `before` to this stream, with this
    /// result. Here too, a writer for whose buffer they are not too many is still as it was.
    pub open spec fn wrote_message(
        self,
        before: Self,
        front: Seq<Seq<u8>>,
        message: Seq<Seq<u8>>,
        result: ProtobufResult<()>,
    ) -> bool {
        &&& self.wf()
        &&& output::wrote_message(before@, front, message, self@, self.failure(), result)
        &&& !before@.overflows(output::concat(front + message).len()) ==> self.writer()
            == before.writer()
    }

    /// Construct from given `Write`.
    ///
    /// `CodedOutputStream` is buffered even if `Write` is not
    pub fn new(writer: &'a mut W) -> (os: CodedOutputStream<'a, W>)
        ensures
            os.wf(),
            os@ == (Output::Writer { written: old(writer).written(), pending: seq![] }),
            &*os.writer() == &*old(writer),
            &*final(os.writer()) == &*final(writer),
    {
        let buffer_storage: Vec<u8> = vec![0; OUTPUT_STREAM_BUFFER_SIZE];
        let os = CodedOutputStream {
            target: OutputTarget::Write(writer, buffer_storage),
            position: 0,
        };
        assert(os@->pending =~= seq![]);
        os
    }

    /// Whether EOF is reached; `None` if underlying write has no EOF.
    pub fn at_eof(&self) -> (eof: Option<bool>)
        requires
            self.wf(),
        ensures
            eof == match self@ {
                Output::Slice { filled, free } => Some(free.len() == 0),
                _ => None,
            },
    {
        match &self.target {
            OutputTarget::Bytes(buffer) => Some(buffer.len() == self.position),
            OutputTarget::Write(..) | OutputTarget::Vec(..) => None,
        }
    }

    /// Check if EOF is reached.
    ///
    /// It must be: the stream is over a slice, and the slice is filled. Call
    /// [`at_eof`](CodedOutputStream::at_eof) to find out.
    pub fn check_eof(&self)
        requires
            self.wf(),
            self@ matches Output::Slice { filled, free } && free.len() == 0,
    {
        let eof = self.at_eof();
        assert(eof == Some(true));
    }

    /// The unused part of the buffer, to be written to; a vector has none.
    fn buffer(&mut self) -> (buf: &mut [u8])
        requires
            old(self).wf(),
        ensures
            buf@ == old(self).unused(),
            final(buf)@.len() == buf@.len() ==> {
                &&& final(self).wf()
                &&& final(self).unused() == final(buf)@
                &&& final(self)@ == match old(self)@ {
                    Output::Slice { filled, free } => Output::Slice { filled, free: final(buf)@ },
                    unchanged => unchanged,
                }
            },
            final(self).writer() == old(self).writer(),
            *final(final(self).vector()) == *final(old(self).vector()),
            final(final(self).slice())@ == final(old(self).slice())@,
    {
        match &mut self.target {
            OutputTarget::Write(_, buffer) => buffer.as_mut_slice().split_at_mut(self.position).1,
            OutputTarget::Vec(vec) => {
                let length: usize = vec.len();
                vec.as_mut_slice().split_at_mut(length).1
            },
            OutputTarget::Bytes(bytes) => bytes.split_at_mut(self.position).1,
        }
    }

    /// Counts `count` bytes of the unused part of the buffer as used.
    fn advance(&mut self, count: usize)
        requires
            old(self).wf(),
            count <= old(self).unused().len(),
        ensures
            final(self).wf(),
            final(self).unused() == old(self).unused().skip(count as int),
            final(self)@ == match old(self)@ {
                Output::Writer { written, pending } => Output::Writer {
                    written,
                    pending: pending + old(self).unused().take(count as int),
                },
                Output::Slice { filled, free } => Output::Slice {
                    filled: filled + free.take(count as int),
                    free: free.skip(count as int),
                },
                unchanged => unchanged,
            },
            final(self).writer() == old(self).writer(),
            *final(final(self).vector()) == *final(old(self).vector()),
            final(final(self).slice())@ == final(old(self).slice())@,
    {
        proof {
            if let OutputTarget::Bytes(bytes) = &self.target {
                assert(bytes@.len() == bytes.len());
            }
        }
        self.position = self.position + count;
        proof {
            assert(self.unused() =~= old(self).unused().skip(count as int));
            match (old(self)@, self@) {
                (
                    Output::Writer { written: w0, pending: p0 },
                    Output::Writer { written: w1, pending: p1 },
                ) => {
                    assert(p1 =~= p0 + old(self).unused().take(count as int));
                },
                (
                    Output::Slice { filled: f0, free: r0 },
                    Output::Slice { filled: f1, free: r1 },
                ) => {
                    assert(f1 =~= f0 + r0.take(count as int));
                    assert(r1 =~= r0.skip(count as int));
                },
                _ => {},
            }
        }
    }

    /// Empties the buffer into the writer, so that there is space in it: the writer is handed all
    /// pending bytes in one call. A vector makes space by itself, and a slice cannot.
    fn refresh_buffer(&mut self) -> (result: ProtobufResult<()>)
        requires
            old(self).wf(),
        ensures
            final(self).wf(),
            match old(self)@ {
                Output::Slice { filled, free } => result matches Err(error) && output::refusal(
                    old(self)@,
                    final(self).failure(),
                    error,
                ) && final(self)@ == old(self)@,
                _ => output::flushed(old(self)@, final(self)@, final(self).failure(), result),
            },
            old(self)@ is Writer ==> exists|
                w: &mut W,
                data: &[u8],
                answer: Result<(), std::io::Error>,
            |
                {
                    &&& #[trigger] call_ensures(W::write_all, (w, data), answer)
                    &&& &*w == &*old(self).writer()
                    &&& data@ == old(self)@->pending
                    &&& &*final(w) == &*final(self).writer()
                    &&& answer is Ok <==> result is Ok
                },
            &*final(final(self).writer()) == &*final(old(self).writer()),
            *final(final(self).vector()) == *final(old(self).vector()),
            final(final(self).slice())@ == final(old(self).slice())@,
    {
        match &mut self.target {
            OutputTarget::Write(writer, buffer) => {
                let pending = slice_subrange(buffer.as_slice(), 0, self.position);
                match writer.write_all(pending) {
                    Ok(()) => {
                        self.position = 0;
                        assert(self@ == old(self)@.drained());
                        Ok(())
                    },
                    Err(error) => {
                        proof {
                            let written = old(self)@->written;
                            let taken = choose|taken: int|
                                0 <= taken <= pending@.len() && #[trigger] writer::took(
                                    written,
                                    pending@,
                                    taken,
                                    self@->written,
                                );
                            assert(old(self)@.drain_broke_off(taken, self@));
                        }
                        Err(ProtobufError::IoError(IoError::Writer(error)))
                    },
                }
            },
            OutputTarget::Vec(_) => Ok(()),
            OutputTarget::Bytes(_) => Err(
                ProtobufError::IoError(
                    IoError::Other("given slice is too small to serialize the message"),
                ),
            ),
        }
    }

    /// Flush the buffer to the underlying writer, which is handed all pending bytes in one call.
    ///
    /// A stream does not do this by itself when it goes out of scope: bytes that are still
    /// pending then do not reach the writer. So flush it, or [`close`](CodedOutputStream::close)
    /// it, before that.
    pub fn flush(&mut self) -> (result: ProtobufResult<()>)
        requires
            old(self).wf(),
        ensures
            final(self).wf(),
            output::flushed(old(self)@, final(self)@, final(self).failure(), result),
            old(self)@ is Writer ==> exists|
                w: &mut W,
                data: &[u8],
                answer: Result<(), std::io::Error>,
            |
                {
                    &&& #[trigger] call_ensures(W::write_all, (w, data), answer)
                    &&& &*w == &*old(self).writer()
                    &&& data@ == old(self)@->pending
                    &&& &*final(w) == &*final(self).writer()
                    &&& answer is Ok <==> result is Ok
                },
            &*final(final(self).writer()) == &*final(old(self).writer()),
            *final(final(self).vector()) == *final(old(self).vector()),
            final(final(self).slice())@ == final(old(self).slice())@,
    {
        match &self.target {
            OutputTarget::Bytes(_) => Ok(()),
            OutputTarget::Write(_, _) | OutputTarget::Vec(_) => self.refresh_buffer(),
        }
    }

    /// Flush the stream for the last time, and let go of what it writes to.
    pub fn close(self) -> (result: ProtobufResult<()>)
        requires
            self.wf(),
        ensures
            exists|end: Output|
                #[trigger] output::flushed(
                    self@,
                    end,
                    final(self.writer()).failure(),
                    result,
                ) && end.held(
                    final(self.writer()).written(),
                    final(self.vector())@,
                    final(self.slice())@,
                ),
            self@ is Writer ==> exists|
                w: &mut W,
                data: &[u8],
                answer: Result<(), std::io::Error>,
            |
                {
                    &&& #[trigger] call_ensures(W::write_all, (w, data), answer)
                    &&& &*w == &*self.writer()
                    &&& data@ == self@->pending
                    &&& &*final(w) == &*final(self.writer())
                    &&& answer is Ok <==> result is Ok
                },
    {
        let mut os = self;
        let result = os.flush();
        proof {
            lemma_target_at_the_end(os);
            assert(output::flushed(self@, os@, final(os.writer()).failure(), result));
        }
        result
    }

    /// Write a byte
    pub fn write_raw_byte(&mut self, byte: u8) -> (result: ProtobufResult<()>)
        requires
            old(self).wf(),
        ensures
            final(self).wrote(*old(self), seq![seq![byte]], result),
            old(self)@.overflows(1) ==> exists|
                w: &mut W,
                data: &[u8],
                answer: Result<(), std::io::Error>,
            |
                {
                    &&& #[trigger] call_ensures(W::write_all, (w, data), answer)
                    &&& &*w == &*old(self).writer()
                    &&& data@ == old(self)@->pending
                    &&& &*final(w) == &*final(self).writer()
                    &&& answer is Ok <==> result is Ok
                },
            &*final(final(self).writer()) == &*final(old(self).writer()),
            *final(final(self).vector()) == *final(old(self).vector()),
            final(final(self).slice())@ == final(old(self).slice())@,
    {
        let bytes: [u8; 1] = [byte];
        assert(bytes@ =~= seq![byte]);
        self.write_raw_bytes(&bytes)
    }

    /// Write bytes
    ///
    /// If they do not fit the buffer, the writer is first handed all pending bytes in one call;
    /// and then, in another, `bytes` themselves, if they are not fewer than the buffer holds.
    pub fn write_raw_bytes(&mut self, bytes: &[u8]) -> (result: ProtobufResult<()>)
        requires
            old(self).wf(),
        ensures
            final(self).wrote(*old(self), seq![bytes@], result),
            old(self)@.overflows(bytes@.len()) ==> exists|
                w: &mut W,
                data: &[u8],
                answer: Result<(), std::io::Error>,
            |
                {
                    &&& #[trigger] call_ensures(W::write_all, (w, data), answer)
                    &&& &*w == &*old(self).writer()
                    &&& data@ == old(self)@->pending
                    &&& answer is Err ==> final(self)@->pending == old(self)@->pending
                    &&& if answer is Ok && bytes@.len() >= OUTPUT_STREAM_BUFFER_SIZE {
                        exists|direct: &mut W, last: Result<(), std::io::Error>|
                            {
                                &&& #[trigger] call_ensures(W::write_all, (direct, bytes), last)
                                &&& &*direct == &*final(w)
                                &&& &*final(direct) == &*final(self).writer()
                                &&& last is Ok <==> result is Ok
                                &&& final(self)@->pending.len() == 0
                            }
                    } else {
                        &&& &*final(w) == &*final(self).writer()
                        &&& answer is Ok <==> result is Ok
                    }
                },
            &*final(final(self).writer()) == &*final(old(self).writer()),
            *final(final(self).vector()) == *final(old(self).vector()),
            final(final(self).slice())@ == final(old(self).slice())@,
    {
        let ghost before = self@;
        proof {
            output::lemma_one_piece(before, bytes@);
        }
        if bytes.len() <= self.buffer().len() {
            self.append(bytes);
            return Ok(());
        }
        match self.refresh_buffer() {
            Ok(()) => {},
            Err(error) => {
                assert(output::put_refused(before, bytes@, self@));
                return Err(error);
            },
        }
        assert(self@ is Writer ==> self@->pending.len() == 0);
        assert(self@ is Writer ==> self.position == 0);
        if bytes.len() < self.buffer().len() {
            self.append(bytes);
            assert(self@ =~= before.put(bytes@));
            return Ok(());
        }
        match &mut self.target {
            OutputTarget::Bytes(_) => {
                // the buffer of a slice is not refreshed
                assert(false);
                Ok(())
            },
            OutputTarget::Write(writer, _) => {
                match writer.write_all(bytes) {
                    Ok(()) => {
                        assert(self@ =~= before.put(bytes@));
                        Ok(())
                    },
                    Err(error) => {
                        proof {
                            let taken = choose|taken: int|
                                0 <= taken <= bytes@.len() && #[trigger] writer::took(
                                    before.drained()->written,
                                    bytes@,
                                    taken,
                                    self@->written,
                                );
                            assert(before.direct_broke_off(bytes@, taken, self@));
                            assert(output::put_refused(before, bytes@, self@));
                        }
                        Err(ProtobufError::IoError(IoError::Writer(error)))
                    },
                }
            },
            OutputTarget::Vec(vec) => {
                vec.extend_from_slice(bytes);
                assert(self@ =~= before.put(bytes@));
                Ok(())
            },
        }
    }

    /// Write bytes, and tell how many: all of them
    pub fn write(&mut self, buf: &[u8]) -> (result: ProtobufResult<usize>)
        requires
            old(self).wf(),
        ensures
            match result {
                Ok(count) => count == buf@.len() && final(self).wrote(
                    *old(self),
                    seq![buf@],
                    Ok(()),
                ),
                Err(error) => final(self).wrote(*old(self), seq![buf@], Err(error)),
            },
            exists|os: &mut CodedOutputStream<'a, W>, written: ProtobufResult<()>|
                {
                    &&& #[trigger] call_ensures(
                        CodedOutputStream::write_raw_bytes,
                        (os, buf),
                        written,
                    )
                    &&& *os == *old(self)
                    &&& *final(os) == *final(self)
                    &&& written is Ok <==> result is Ok
                },
            &*final(final(self).writer()) == &*final(old(self).writer()),
            *final(final(self).vector()) == *final(old(self).vector()),
            final(final(self).slice())@ == final(old(self).slice())@,
    {
        self.write_raw_bytes(buf)?;
        Ok(buf.len())
    }

    /// Copies bytes that fit to the unused part of the buffer.
    fn append(&mut self, bytes: &[u8])
        requires
            old(self).wf(),
            bytes@.len() <= old(self).unused().len(),
        ensures
            final(self).wf(),
            !old(self)@.overflows(bytes@.len()),
            old(self)@.has_space(bytes@.len()),
            final(self)@ == old(self)@.put(bytes@),
            final(self).writer() == old(self).writer(),
            *final(final(self).vector()) == *final(old(self).vector()),
            final(final(self).slice())@ == final(old(self).slice())@,
    {
        copy_to_front(self.buffer(), bytes);
        self.advance(bytes.len());
    }

    /// Write a tag
    pub fn write_tag(
        &mut self,
        field_number: u32,
        wire_type: wire_format::WireType,
    ) -> (result: ProtobufResult<()>)
        requires
            old(self).wf(),
        ensures
            final(self).wrote(
                *old(self),
                seq![wire_format::tag_bytes(field_number, wire_type)],
                result,
            ),
            &*final(final(self).writer()) == &*final(old(self).writer()),
            *final(final(self).vector()) == *final(old(self).vector()),
            final(final(self).slice())@ == final(old(self).slice())@,
    {
        self.write_raw_varint32(wire_format::Tag::make(field_number, wire_type).value())
    }

    /// Write varint
    pub fn write_raw_varint32(&mut self, value: u32) -> (result: ProtobufResult<()>)
        requires
            old(self).wf(),
        ensures
            final(self).wrote(*old(self), seq![varint::varint(value as nat)], result),
            old(self)@.overflows(varint::varint(value as nat).len()) ==> exists|
                w: &mut W,
                data: &[u8],
                answer: Result<(), std::io::Error>,
            |
                {
                    &&& #[trigger] call_ensures(W::write_all, (w, data), answer)
                    &&& &*w == &*old(self).writer()
                    &&& data@ == old(self)@->pending
                    &&& &*final(w) == &*final(self).writer()
                    &&& answer is Ok <==> result is Ok
                },
            &*final(final(self).writer()) == &*final(old(self).writer()),
            *final(final(self).vector()) == *final(old(self).vector()),
            final(final(self).slice())@ == final(old(self).slice())@,
    {
        let ghost bytes = varint::varint(value as nat);
        proof {
            varint::law_varint_length(value as nat);
            output::lemma_one_piece(self@, bytes);
        }
        let unused = self.buffer();
        if unused.len() >= 5 {
            // fast path
            let length: usize = varint::encode_varint32(value, unused);
            assert(self.unused().take(length as int) =~= bytes);
            self.advance(length);
            assert(self@ =~= old(self)@.put(bytes));
            Ok(())
        } else {
            // slow path
            let mut buf: [u8; 5] = [0; 5];
            let length: usize = varint::encode_varint32(value, &mut buf);
            assert(buf@.subrange(0, length as int) =~= bytes);
            self.write_raw_bytes(slice_subrange(&buf, 0, length))
        }
    }

    /// Write varint
    pub fn write_raw_varint64(&mut self, value: u64) -> (result: ProtobufResult<()>)
        requires
            old(self).wf(),
        ensures
            final(self).wrote(*old(self), seq![varint::varint(value as nat)], result),
            old(self)@.overflows(varint::varint(value as nat).len()) ==> exists|
                w: &mut W,
                data: &[u8],
                answer: Result<(), std::io::Error>,
            |
                {
                    &&& #[trigger] call_ensures(W::write_all, (w, data), answer)
                    &&& &*w == &*old(self).writer()
                    &&& data@ == old(self)@->pending
                    &&& &*final(w) == &*final(self).writer()
                    &&& answer is Ok <==> result is Ok
                },
            &*final(final(self).writer()) == &*final(old(self).writer()),
            *final(final(self).vector()) == *final(old(self).vector()),
            final(final(self).slice())@ == final(old(self).slice())@,
    {
        let ghost bytes = varint::varint(value as nat);
        proof {
            varint::law_varint_length(value as nat);
            output::lemma_one_piece(self@, bytes);
        }
        let unused = self.buffer();
        if unused.len() >= 10 {
            // fast path
            let length: usize = varint::encode_varint64(value, unused);
            assert(self.unused().take(length as int) =~= bytes);
            self.advance(length);
            assert(self@ =~= old(self)@.put(bytes));
            Ok(())
        } else {
            // slow path
            let mut buf: [u8; 10] = [0; 10];
            let length: usize = varint::encode_varint64(value, &mut buf);
            assert(buf@.subrange(0, length as int) =~= bytes);
            self.write_raw_bytes(slice_subrange(&buf, 0, length))
        }
    }

    /// Write 32-bit integer little endian
    pub fn write_raw_little_endian32(&mut self, value: u32) -> (result: ProtobufResult<()>)
        requires
            old(self).wf(),
        ensures
            final(self).wrote(*old(self), seq![endian::little_endian(value as nat, 4)], result),
            old(self)@.overflows(4) ==> exists|
                w: &mut W,
                data: &[u8],
                answer: Result<(), std::io::Error>,
            |
                {
                    &&& #[trigger] call_ensures(W::write_all, (w, data), answer)
                    &&& &*w == &*old(self).writer()
                    &&& data@ == old(self)@->pending
                    &&& &*final(w) == &*final(self).writer()
                    &&& answer is Ok <==> result is Ok
                },
            &*final(final(self).writer()) == &*final(old(self).writer()),
            *final(final(self).vector()) == *final(old(self).vector()),
            final(final(self).slice())@ == final(old(self).slice())@,
    {
        self.write_raw_bytes(&endian::little_endian_32(value))
    }

    /// Write 64-bit integer little endian
    pub fn write_raw_little_endian64(&mut self, value: u64) -> (result: ProtobufResult<()>)
        requires
            old(self).wf(),
        ensures
            final(self).wrote(*old(self), seq![endian::little_endian(value as nat, 8)], result),
            old(self)@.overflows(8) ==> exists|
                w: &mut W,
                data: &[u8],
                answer: Result<(), std::io::Error>,
            |
                {
                    &&& #[trigger] call_ensures(W::write_all, (w, data), answer)
                    &&& &*w == &*old(self).writer()
                    &&& data@ == old(self)@->pending
                    &&& &*final(w) == &*final(self).writer()
                    &&& answer is Ok <==> result is Ok
                },
            &*final(final(self).writer()) == &*final(old(self).writer()),
            *final(final(self).vector()) == *final(old(self).vector()),
            final(final(self).slice())@ == final(old(self).slice())@,
    {
        self.write_raw_bytes(&endian::little_endian_64(value))
    }

    /// Write varint
    pub fn write_uint64_no_tag(&mut self, value: u64) -> (result: ProtobufResult<()>)
        requires
            old(self).wf(),
        ensures
            final(self).wrote(*old(self), seq![varint::varint(value as nat)], result),
            &*final(final(self).writer()) == &*final(old(self).writer()),
            *final(final(self).vector()) == *final(old(self).vector()),
            final(final(self).slice())@ == final(old(self).slice())@,
    {
        self.write_raw_varint64(value)
    }

    /// Write varint
    pub fn write_uint32_no_tag(&mut self, value: u32) -> (result: ProtobufResult<()>)
        requires
            old(self).wf(),
        ensures
            final(self).wrote(*old(self), seq![varint::varint(value as nat)], result),
            &*final(final(self).writer()) == &*final(old(self).writer()),
            *final(final(self).vector()) == *final(old(self).vector()),
            final(final(self).slice())@ == final(old(self).slice())@,
    {
        self.write_raw_varint32(value)
    }

    /// Write varint
    pub fn write_int64_no_tag(&mut self, value: i64) -> (result: ProtobufResult<()>)
        requires
            old(self).wf(),
        ensures
            final(self).wrote(
                *old(self),
                seq![varint::varint(signed::twos_complement_64(value as int))],
                result,
            ),
            &*final(final(self).writer()) == &*final(old(self).writer()),
            *final(final(self).vector()) == *final(old(self).vector()),
            final(final(self).slice())@ == final(old(self).slice())@,
    {
        self.write_raw_varint64(signed::bits_64(value))
    }

    /// Write varint
    pub fn write_int32_no_tag(&mut self, value: i32) -> (result: ProtobufResult<()>)
        requires
            old(self).wf(),
        ensures
            final(self).wrote(
                *old(self),
                seq![varint::varint(signed::twos_complement_64(value as int))],
                result,
            ),
            &*final(final(self).writer()) == &*final(old(self).writer()),
            *final(final(self).vector()) == *final(old(self).vector()),
            final(final(self).slice())@ == final(old(self).slice())@,
    {
        self.write_raw_varint64(signed::bits_64(value as i64))
    }

    /// Write zigzag varint
    pub fn write_sint64_no_tag(&mut self, value: i64) -> (result: ProtobufResult<()>)
        requires
            old(self).wf(),
        ensures
            final(self).wrote(
                *old(self),
                seq![varint::varint(zigzag::zig_zag(value as int))],
                result,
            ),
            &*final(final(self).writer()) == &*final(old(self).writer()),
            *final(final(self).vector()) == *final(old(self).vector()),
            final(final(self).slice())@ == final(old(self).slice())@,
    {
        self.write_uint64_no_tag(zigzag::encode_zig_zag_64(value))
    }

    /// Write zigzag varint
    pub fn write_sint32_no_tag(&mut self, value: i32) -> (result: ProtobufResult<()>)
        requires
            old(self).wf(),
        ensures
            final(self).wrote(
                *old(self),
                seq![varint::varint(zigzag::zig_zag(value as int))],
                result,
            ),
            &*final(final(self).writer()) == &*final(old(self).writer()),
            *final(final(self).vector()) == *final(old(self).vector()),
            final(final(self).slice())@ == final(old(self).slice())@,
    {
        self.write_uint32_no_tag(zigzag::encode_zig_zag_32(value))
    }

    /// Write `fixed64`
    pub fn write_fixed64_no_tag(&mut self, value: u64) -> (result: ProtobufResult<()>)
        requires
            old(self).wf(),
        ensures
            final(self).wrote(*old(self), seq![endian::little_endian(value as nat, 8)], result),
            &*final(final(self).writer()) == &*final(old(self).writer()),
            *final(final(self).vector()) == *final(old(self).vector()),
            final(final(self).slice())@ == final(old(self).slice())@,
    {
        self.write_raw_little_endian64(value)
    }

    /// Write `fixed32`
    pub fn write_fixed32_no_tag(&mut self, value: u32) -> (result: ProtobufResult<()>)
        requires
            old(self).wf(),
        ensures
            final(self).wrote(*old(self), seq![endian::little_endian(value as nat, 4)], result),
            &*final(final(self).writer()) == &*final(old(self).writer()),
            *final(final(self).vector()) == *final(old(self).vector()),
            final(final(self).slice())@ == final(old(self).slice())@,
    {
        self.write_raw_little_endian32(value)
    }

    /// Write `sfixed64`
    pub fn write_sfixed64_no_tag(&mut self, value: i64) -> (result: ProtobufResult<()>)
        requires
            old(self).wf(),
        ensures
            final(self).wrote(
                *old(self),
                seq![endian::little_endian(signed::twos_complement_64(value as int), 8)],
                result,
            ),
            &*final(final(self).writer()) == &*final(old(self).writer()),
            *final(final(self).vector()) == *final(old(self).vector()),
            final(final(self).slice())@ == final(old(self).slice())@,
    {
        self.write_raw_little_endian64(signed::bits_64(value))
    }

    /// Write `sfixed32`
    pub fn write_sfixed32_no_tag(&mut self, value: i32) -> (result: ProtobufResult<()>)
        requires
            old(self).wf(),
        ensures
            final(self).wrote(
                *old(self),
                seq![endian::little_endian(signed::twos_complement_32(value as int), 4)],
                result,
            ),
            &*final(final(self).writer()) == &*final(old(self).writer()),
            *final(final(self).vector()) == *final(old(self).vector()),
            final(final(self).slice())@ == final(old(self).slice())@,
    {
        self.write_raw_little_endian32(signed::bits_32(value))
    }

    /// Write `bool`
    pub fn write_bool_no_tag(&mut self, value: bool) -> (result: ProtobufResult<()>)
        requires
            old(self).wf(),
        ensures
            final(self).wrote(*old(self), seq![varint::varint(if value { 1 } else { 0 })], result),
            &*final(final(self).writer()) == &*final(old(self).writer()),
            *final(final(self).vector()) == *final(old(self).vector()),
            final(final(self).slice())@ == final(old(self).slice())@,
    {
        self.write_raw_varint32(if value { 1 } else { 0 })
    }

    /// Write `enum`
    pub fn write_enum_no_tag(&mut self, value: i32) -> (result: ProtobufResult<()>)
        requires
            old(self).wf(),
        ensures
            final(self).wrote(
                *old(self),
                seq![varint::varint(signed::twos_complement_64(value as int))],
                result,
            ),
            &*final(final(self).writer()) == &*final(old(self).writer()),
            *final(final(self).vector()) == *final(old(self).vector()),
            final(final(self).slice())@ == final(old(self).slice())@,
    {
        self.write_int32_no_tag(value)
    }

    /// Write `enum`
    pub fn write_enum_obj_no_tag<E: ProtobufEnum>(
        &mut self,
        value: E,
    ) -> (result: ProtobufResult<()>)
        requires
            old(self).wf(),
        ensures
            final(self).wrote(
                *old(self),
                seq![varint::varint(signed::twos_complement_64(value.number() as int))],
                result,
            ),
            &*final(final(self).writer()) == &*final(old(self).writer()),
            *final(final(self).vector()) == *final(old(self).vector()),
            final(final(self).slice())@ == final(old(self).slice())@,
    {
        self.write_enum_no_tag(value.value())
    }

    /// Write `enum`
    pub fn write_enum_or_unknown_no_tag<E: ProtobufEnum>(
        &mut self,
        value: ProtobufEnumOrUnknown<E>,
    ) -> (result: ProtobufResult<()>)
        requires
            old(self).wf(),
        ensures
            final(self).wrote(
                *old(self),
                seq![varint::varint(signed::twos_complement_64(value.number() as int))],
                result,
            ),
            &*final(final(self).writer()) == &*final(old(self).writer()),
            *final(final(self).vector()) == *final(old(self).vector()),
            final(final(self).slice())@ == final(old(self).slice())@,
    {
        self.write_enum_no_tag(value.value())
    }

    /// Write unknown value
    pub fn write_unknown_no_tag(
        &mut self,
        unknown: UnknownValueRef<'_>,
    ) -> (result: ProtobufResult<()>)
        requires
            old(self).wf(),
        ensures
            final(self).wrote(*old(self), unknown@.pieces(), result),
            &*final(final(self).writer()) == &*final(old(self).writer()),
            *final(final(self).vector()) == *final(old(self).vector()),
            final(final(self).slice())@ == final(old(self).slice())@,
    {
        match unknown {
            UnknownValueRef::Fixed64(fixed64) => self.write_raw_little_endian64(fixed64),
            UnknownValueRef::Fixed32(fixed32) => self.write_raw_little_endian32(fixed32),
            UnknownValueRef::Varint(varint) => self.write_raw_varint64(varint),
            UnknownValueRef::LengthDelimited(bytes) => self.write_bytes_no_tag(bytes),
        }
    }

    /// Write `uint64` field
    pub fn write_uint64(&mut self, field_number: u32, value: u64) -> (result: ProtobufResult<()>)
        requires
            old(self).wf(),
        ensures
            final(self).wrote(
                *old(self),
                wire_format::field(
                    field_number,
                    wire_format::WireTypeVarint,
                    seq![varint::varint(value as nat)],
                ),
                result,
            ),
            &*final(final(self).writer()) == &*final(old(self).writer()),
            *final(final(self).vector()) == *final(old(self).vector()),
            final(final(self).slice())@ == final(old(self).slice())@,
    {
        proof {
            output::lemma_sequence(
                self@,
                seq![wire_format::tag_bytes(field_number, wire_format::WireTypeVarint)],
                seq![varint::varint(value as nat)],
            );
        }
        self.write_tag(field_number, wire_format::WireTypeVarint)?;
        self.write_uint64_no_tag(value)?;
        Ok(())
    }

    /// Write `uint32` field
    pub fn write_uint32(&mut self, field_number: u32, value: u32) -> (result: ProtobufResult<()>)
        requires
            old(self).wf(),
        ensures
            final(self).wrote(
                *old(self),
                wire_format::field(
                    field_number,
                    wire_format::WireTypeVarint,
                    seq![varint::varint(value as nat)],
                ),
                result,
            ),
            &*final(final(self).writer()) == &*final(old(self).writer()),
            *final(final(self).vector()) == *final(old(self).vector()),
            final(final(self).slice())@ == final(old(self).slice())@,
    {
        proof {
            output::lemma_sequence(
                self@,
                seq![wire_format::tag_bytes(field_number, wire_format::WireTypeVarint)],
                seq![varint::varint(value as nat)],
            );
        }
        self.write_tag(field_number, wire_format::WireTypeVarint)?;
        self.write_uint32_no_tag(value)?;
        Ok(())
    }

    /// Write `int64` field
    pub fn write_int64(&mut self, field_number: u32, value: i64) -> (result: ProtobufResult<()>)
        requires
            old(self).wf(),
        ensures
            final(self).wrote(
                *old(self),
                wire_format::field(
                    field_number,
                    wire_format::WireTypeVarint,
                    seq![varint::varint(signed::twos_complement_64(value as int))],
                ),
                result,
            ),
            &*final(final(self).writer()) == &*final(old(self).writer()),
            *final(final(self).vector()) == *final(old(self).vector()),
            final(final(self).slice())@ == final(old(self).slice())@,
    {
        proof {
            output::lemma_sequence(
                self@,
                seq![wire_format::tag_bytes(field_number, wire_format::WireTypeVarint)],
                seq![varint::varint(signed::twos_complement_64(value as int))],
            );
        }
        self.write_tag(field_number, wire_format::WireTypeVarint)?;
        self.write_int64_no_tag(value)?;
        Ok(())
    }

    /// Write `int32` field
    pub fn write_int32(&mut self, field_number: u32, value: i32) -> (result: ProtobufResult<()>)
        requires
            old(self).wf(),
        ensures
            final(self).wrote(
                *old(self),
                wire_format::field(
                    field_number,
                    wire_format::WireTypeVarint,
                    seq![varint::varint(signed::twos_complement_64(value as int))],
                ),
                result,
            ),
            &*final(final(self).writer()) == &*final(old(self).writer()),
            *final(final(self).vector()) == *final(old(self).vector()),
            final(final(self).slice())@ == final(old(self).slice())@,
    {
        proof {
            output::lemma_sequence(
                self@,
                seq![wire_format::tag_bytes(field_number, wire_format::WireTypeVarint)],
                seq![varint::varint(signed::twos_complement_64(value as int))],
            );
        }
        self.write_tag(field_number, wire_format::WireTypeVarint)?;
        self.write_int32_no_tag(value)?;
        Ok(())
    }

    /// Write `sint64` field
    pub fn write_sint64(&mut self, field_number: u32, value: i64) -> (result: ProtobufResult<()>)
        requires
            old(self).wf(),
        ensures
            final(self).wrote(
                *old(self),
                wire_format::field(
                    field_number,
                    wire_format::WireTypeVarint,
                    seq![varint::varint(zigzag::zig_zag(value as int))],
                ),
                result,
            ),
            &*final(final(self).writer()) == &*final(old(self).writer()),
            *final(final(self).vector()) == *final(old(self).vector()),
            final(final(self).slice())@ == final(old(self).slice())@,
    {
        proof {
            output::lemma_sequence(
                self@,
                seq![wire_format::tag_bytes(field_number, wire_format::WireTypeVarint)],
                seq![varint::varint(zigzag::zig_zag(value as int))],
            );
        }
        self.write_tag(field_number, wire_format::WireTypeVarint)?;
        self.write_sint64_no_tag(value)?;
        Ok(())
    }

    /// Write `sint32` field
    pub fn write_sint32(&mut self, field_number: u32, value: i32) -> (result: ProtobufResult<()>)
        requires
            old(self).wf(),
        ensures
            final(self).wrote(
                *old(self),
                wire_format::field(
                    field_number,
                    wire_format::WireTypeVarint,
                    seq![varint::varint(zigzag::zig_zag(value as int))],
                ),
                result,
            ),
            &*final(final(self).writer()) == &*final(old(self).writer()),
            *final(final(self).vector()) == *final(old(self).vector()),
            final(final(self).slice())@ == final(old(self).slice())@,
    {
        proof {
            output::lemma_sequence(
                self@,
                seq![wire_format::tag_bytes(field_number, wire_format::WireTypeVarint)],
                seq![varint::varint(zigzag::zig_zag(value as int))],
            );
        }
        self.write_tag(field_number, wire_format::WireTypeVarint)?;
        self.write_sint32_no_tag(value)?;
        Ok(())
    }

    /// Write `fixed64` field
    pub fn write_fixed64(&mut self, field_number: u32, value: u64) -> (result: ProtobufResult<()>)
        requires
            old(self).wf(),
        ensures
            final(self).wrote(
                *old(self),
                wire_format::field(
                    field_number,
                    wire_format::WireTypeFixed64,
                    seq![endian::little_endian(value as nat, 8)],
                ),
                result,
            ),
            &*final(final(self).writer()) == &*final(old(self).writer()),
            *final(final(self).vector()) == *final(old(self).vector()),
            final(final(self).slice())@ == final(old(self).slice())@,
    {
        proof {
            output::lemma_sequence(
                self@,
                seq![wire_format::tag_bytes(field_number, wire_format::WireTypeFixed64)],
                seq![endian::little_endian(value as nat, 8)],
            );
        }
        self.write_tag(field_number, wire_format::WireTypeFixed64)?;
        self.write_fixed64_no_tag(value)?;
        Ok(())
    }

    /// Write `fixed32` field
    pub fn write_fixed32(&mut self, field_number: u32, value: u32) -> (result: ProtobufResult<()>)
        requires
            old(self).wf(),
        ensures
            final(self).wrote(
                *old(self),
                wire_format::field(
                    field_number,
                    wire_format::WireTypeFixed32,
                    seq![endian::little_endian(value as nat, 4)],
                ),
                result,
            ),
            &*final(final(self).writer()) == &*final(old(self).writer()),
            *final(final(self).vector()) == *final(old(self).vector()),
            final(final(self).slice())@ == final(old(self).slice())@,
    {
        proof {
            output::lemma_sequence(
                self@,
                seq![wire_format::tag_bytes(field_number, wire_format::WireTypeFixed32)],
                seq![endian::little_endian(value as nat, 4)],
            );
        }
        self.write_tag(field_number, wire_format::WireTypeFixed32)?;
        self.write_fixed32_no_tag(value)?;
        Ok(())
    }

    /// Write `sfixed64` field
    pub fn write_sfixed64(&mut self, field_number: u32, value: i64) -> (result: ProtobufResult<()>)
        requires
            old(self).wf(),
        ensures
            final(self).wrote(
                *old(self),
                wire_format::field(
                    field_number,
                    wire_format::WireTypeFixed64,
                    seq![endian::little_endian(signed::twos_complement_64(value as int), 8)],
                ),
                result,
            ),
            &*final(final(self).writer()) == &*final(old(self).writer()),
            *final(final(self).vector()) == *final(old(self).vector()),
            final(final(self).slice())@ == final(old(self).slice())@,
    {
        proof {
            output::lemma_sequence(
                self@,
                seq![wire_format::tag_bytes(field_number, wire_format::WireTypeFixed64)],
                seq![endian::little_endian(signed::twos_complement_64(value as int), 8)],
            );
        }
        self.write_tag(field_number, wire_format::WireTypeFixed64)?;
        self.write_sfixed64_no_tag(value)?;
        Ok(())
    }

    /// Write `sfixed32` field
    pub fn write_sfixed32(&mut self, field_number: u32, value: i32) -> (result: ProtobufResult<()>)
        requires
            old(self).wf(),
        ensures
            final(self).wrote(
                *old(self),
                wire_format::field(
                    field_number,
                    wire_format::WireTypeFixed32,
                    seq![endian::little_endian(signed::twos_complement_32(value as int), 4)],
                ),
                result,
            ),
            &*final(final(self).writer()) == &*final(old(self).writer()),
            *final(final(self).vector()) == *final(old(self).vector()),
            final(final(self).slice())@ == final(old(self).slice())@,
    {
        proof {
            output::lemma_sequence(
                self@,
                seq![wire_format::tag_bytes(field_number, wire_format::WireTypeFixed32)],
                seq![endian::little_endian(signed::twos_complement_32(value as int), 4)],
            );
        }
        self.write_tag(field_number, wire_format::WireTypeFixed32)?;
        self.write_sfixed32_no_tag(value)?;
        Ok(())
    }

    /// Write `bool` field
    pub fn write_bool(&mut self, field_number: u32, value: bool) -> (result: ProtobufResult<()>)
        requires
            old(self).wf(),
        ensures
            final(self).wrote(
                *old(self),
                wire_format::field(
                    field_number,
                    wire_format::WireTypeVarint,
                    seq![varint::varint(if value { 1 } else { 0 })],
                ),
                result,
            ),
            &*final(final(self).writer()) == &*final(old(self).writer()),
            *final(final(self).vector()) == *final(old(self).vector()),
            final(final(self).slice())@ == final(old(self).slice())@,
    {
        proof {
            output::lemma_sequence(
                self@,
                seq![wire_format::tag_bytes(field_number, wire_format::WireTypeVarint)],
                seq![varint::varint(if value { 1 } else { 0 })],
            );
        }
        self.write_tag(field_number, wire_format::WireTypeVarint)?;
        self.write_bool_no_tag(value)?;
        Ok(())
    }

    /// Write `enum` field
    pub fn write_enum(&mut self, field_number: u32, value: i32) -> (result: ProtobufResult<()>)
        requires
            old(self).wf(),
        ensures
            final(self).wrote(
                *old(self),
                wire_format::field(
                    field_number,
                    wire_format::WireTypeVarint,
                    seq![varint::varint(signed::twos_complement_64(value as int))],
                ),
                result,
            ),
            &*final(final(self).writer()) == &*final(old(self).writer()),
            *final(final(self).vector()) == *final(old(self).vector()),
            final(final(self).slice())@ == final(old(self).slice())@,
    {
        proof {
            output::lemma_sequence(
                self@,
                seq![wire_format::tag_bytes(field_number, wire_format::WireTypeVarint)],
                seq![varint::varint(signed::twos_complement_64(value as int))],
            );
        }
        self.write_tag(field_number, wire_format::WireTypeVarint)?;
        self.write_enum_no_tag(value)?;
        Ok(())
    }

    /// Write `enum` field
    pub fn write_enum_obj<E: ProtobufEnum>(
        &mut self,
        field_number: u32,
        value: E,
    ) -> (result: ProtobufResult<()>)
        requires
            old(self).wf(),
        ensures
            final(self).wrote(
                *old(self),
                wire_format::field(
                    field_number,
                    wire_format::WireTypeVarint,
                    seq![varint::varint(signed::twos_complement_64(value.number() as int))],
                ),
                result,
            ),
            &*final(final(self).writer()) == &*final(old(self).writer()),
            *final(final(self).vector()) == *final(old(self).vector()),
            final(final(self).slice())@ == final(old(self).slice())@,
    {
        self.write_enum(field_number, value.value())
    }

    /// Write `enum` field
    pub fn write_enum_or_unknown<E: ProtobufEnum>(
        &mut self,
        field_number: u32,
        value: ProtobufEnumOrUnknown<E>,
    ) -> (result: ProtobufResult<()>)
        requires
            old(self).wf(),
        ensures
            final(self).wrote(
                *old(self),
                wire_format::field(
                    field_number,
                    wire_format::WireTypeVarint,
                    seq![varint::varint(signed::twos_complement_64(value.number() as int))],
                ),
                result,
            ),
            &*final(final(self).writer()) == &*final(old(self).writer()),
            *final(final(self).vector()) == *final(old(self).vector()),
            final(final(self).slice())@ == final(old(self).slice())@,
    {
        self.write_enum(field_number, value.value())
    }

    /// Write unknown field
    pub fn write_unknown(
        &mut self,
        field_number: u32,
        value: UnknownValueRef<'_>,
    ) -> (result: ProtobufResult<()>)
        requires
            old(self).wf(),
        ensures
            final(self).wrote(*old(self), value@.field(field_number), result),
            &*final(final(self).writer()) == &*final(old(self).writer()),
            *final(final(self).vector()) == *final(old(self).vector()),
            final(final(self).slice())@ == final(old(self).slice())@,
    {
        proof {
            output::lemma_sequence(
                self@,
                seq![wire_format::tag_bytes(field_number, value@.wire_type())],
                value@.pieces(),
            );
        }
        self.write_tag(field_number, value.wire_type())?;
        self.write_unknown_no_tag(value)?;
        Ok(())
    }

    /// Write a field for each value
    fn write_unknown_values(
        &mut self,
        field_number: u32,
        values: &UnknownValues,
    ) -> (result: ProtobufResult<()>)
        requires
            old(self).wf(),
        ensures
            final(self).wrote(
                *old(self),
                unknown::repeated_field(field_number, values@),
                result,
            ),
            &*final(final(self).writer()) == &*final(old(self).writer()),
            *final(final(self).vector()) == *final(old(self).vector()),
            final(final(self).slice())@ == final(old(self).slice())@,
    {
        let refs = values.refs();
        let ghost listed = values@;
        for i in 0..refs.len()
            invariant
                listed == values@,
                listed.len() == refs@.len(),
                forall|j: int| 0 <= j < refs@.len() ==> (#[trigger] refs@[j])@ == listed[j],
                self.wrote(
                    *old(self),
                    unknown::repeated_field(field_number, listed.take(i as int)),
                    Ok(()),
                ),
                &*final(self.writer()) == &*final(old(self).writer()),
                *final(self.vector()) == *final(old(self).vector()),
                final(self.slice())@ == final(old(self).slice())@,
        {
            proof {
                let done = unknown::repeated_field(field_number, listed.take(i as int));
                output::lemma_sequence(old(self)@, done, listed[i as int].field(field_number));
                assert(listed.take(i + 1).drop_last() =~= listed.take(i as int));
                let rest = unknown::repeated_field(field_number, listed.skip(i + 1));
                assert(listed.take(i + 1) + listed.skip(i + 1) =~= listed);
                unknown::lemma_repeated_field_append(
                    field_number,
                    listed.take(i + 1),
                    listed.skip(i + 1),
                );
                output::lemma_sequence(
                    old(self)@,
                    unknown::repeated_field(field_number, listed.take(i + 1)),
                    rest,
                );
            }
            self.write_unknown(field_number, refs[i])?;
        }
        assert(listed.take(refs@.len() as int) =~= listed);
        Ok(())
    }

    /// Write unknown fields with these numbers, in this order
    pub fn write_unknown_fields_in_order(
        &mut self,
        fields: &UnknownFields,
        order: &Vec<u32>,
    ) -> (result: ProtobufResult<()>)
        requires
            old(self).wf(),
            forall|i: int| 0 <= i < order@.len() ==> fields@.contains_key(#[trigger] order@[i]),
        ensures
            final(self).wrote(
                *old(self),
                unknown::fields_in_order(fields.values(), order@),
                result,
            ),
            &*final(final(self).writer()) == &*final(old(self).writer()),
            *final(final(self).vector()) == *final(old(self).vector()),
            final(final(self).slice())@ == final(old(self).slice())@,
    {
        let ghost all = fields.values();
        for i in 0..order.len()
            invariant
                all == fields.values(),
                forall|j: int|
                    0 <= j < order@.len() ==> fields@.contains_key(#[trigger] order@[j]),
                self.wrote(
                    *old(self),
                    unknown::fields_in_order(all, order@.take(i as int)),
                    Ok(()),
                ),
                &*final(self.writer()) == &*final(old(self).writer()),
                *final(self.vector()) == *final(old(self).vector()),
                final(self.slice())@ == final(old(self).slice())@,
        {
            let number: u32 = order[i];
            proof {
                let done = unknown::fields_in_order(all, order@.take(i as int));
                output::lemma_sequence(
                    old(self)@,
                    done,
                    unknown::repeated_field(number, all[number]),
                );
                assert(order@.take(i + 1).drop_last() =~= order@.take(i as int));
                assert(order@.take(i + 1) + order@.skip(i + 1) =~= order@);
                unknown::lemma_fields_in_order_append(all, order@.take(i + 1), order@.skip(i + 1));
                output::lemma_sequence(
                    old(self)@,
                    unknown::fields_in_order(all, order@.take(i + 1)),
                    unknown::fields_in_order(all, order@.skip(i + 1)),
                );
            }
            if let Some(values) = fields.get(number) {
                self.write_unknown_values(number, values)?;
            }
        }
        assert(order@.take(order@.len() as int) =~= order@);
        Ok(())
    }

    /// Write unknown fields
    pub fn write_unknown_fields(
        &mut self,
        fields: &UnknownFields,
    ) -> (result: ProtobufResult<()>)
        requires
            old(self).wf(),
        ensures
            exists|order: Seq<u32>|
                unknown::enumerates(order, fields@.dom()) && final(self).wrote(
                    *old(self),
                    #[trigger] unknown::fields_in_order(fields.values(), order),
                    result,
                ),
            &*final(final(self).writer()) == &*final(old(self).writer()),
            *final(final(self).vector()) == *final(old(self).vector()),
            final(final(self).slice())@ == final(old(self).slice())@,
    {
        let order = fields.numbers();
        proof {
            unknown::lemma_enumerated(order@, fields@.dom());
        }
        self.write_unknown_fields_in_order(fields, &order)
    }

    /// Write unknown fields sorting them by number
    pub fn write_unknown_fields_sorted(
        &mut self,
        fields: &UnknownFields,
    ) -> (result: ProtobufResult<()>)
        requires
            old(self).wf(),
        ensures
            exists|order: Seq<u32>|
                unknown::enumerates(order, fields@.dom()) && unknown::ascending(order)
                    && final(self).wrote(
                    *old(self),
                    #[trigger] unknown::fields_in_order(fields.values(), order),
                    result,
                ),
            &*final(final(self).writer()) == &*final(old(self).writer()),
            *final(final(self).vector()) == *final(old(self).vector()),
            final(final(self).slice())@ == final(old(self).slice())@,
    {
        let order = unknown::sort_numbers(&fields.numbers());
        proof {
            unknown::lemma_enumerated(order@, fields@.dom());
        }
        self.write_unknown_fields_in_order(fields, &order)
    }

    /// Write bytes
    pub fn write_bytes_no_tag(&mut self, bytes: &[u8]) -> (result: ProtobufResult<()>)
        requires
            old(self).wf(),
        ensures
            final(self).wrote(*old(self), unknown::length_delimited(bytes@), result),
            &*final(final(self).writer()) == &*final(old(self).writer()),
            *final(final(self).vector()) == *final(old(self).vector()),
            final(final(self).slice())@ == final(old(self).slice())@,
    {
        proof {
            output::lemma_sequence(
                self@,
                seq![varint::varint(bytes@.len() % 0x1_0000_0000)],
                seq![bytes@],
            );
            assert(seq![varint::varint(bytes@.len() % 0x1_0000_0000)] + seq![bytes@]
                =~= unknown::length_delimited(bytes@));
        }
        self.write_raw_varint32(low_32_bits(bytes.len()))?;
        self.write_raw_bytes(bytes)?;
        Ok(())
    }

    /// Write string
    pub fn write_string_no_tag(&mut self, s: &str) -> (result: ProtobufResult<()>)
        requires
            old(self).wf(),
        ensures
            final(self).wrote(
                *old(self),
                unknown::length_delimited(vstd::utf8::encode_utf8(s@)),
                result,
            ),
            &*final(final(self).writer()) == &*final(old(self).writer()),
            *final(final(self).vector()) == *final(old(self).vector()),
            final(final(self).slice())@ == final(old(self).slice())@,
    {
        self.write_bytes_no_tag(s.as_bytes())
    }

    /// Write message
    ///
    /// What the message itself returns is returned as it is.
    pub fn write_message_no_tag<M: Message<W>>(&mut self, msg: &M) -> (result: ProtobufResult<()>)
        requires
            old(self).wf(),
        ensures
            final(self).wrote_message(
                *old(self),
                seq![varint::varint(msg.size() as nat)],
                msg.pieces(),
                result,
            ),
            exists|os: &mut CodedOutputStream<'a, W>|
                {
                    &&& #[trigger] call_ensures(
                        M::write_length_delimited_to,
                        (msg, os),
                        result,
                    )
                    &&& *os == *old(self)
                    &&& *final(os) == *final(self)
                },
            &*final(final(self).writer()) == &*final(old(self).writer()),
            *final(final(self).vector()) == *final(old(self).vector()),
            final(final(self).slice())@ == final(old(self).slice())@,
    {
        msg.write_length_delimited_to(self)
    }

    /// Write dynamic message
    ///
    /// What the message itself returns is returned as it is; it is asked once its size is written.
    pub fn write_message_no_tag_dyn<M: MessageDyn<W> + ?Sized>(
        &mut self,
        msg: &M,
    ) -> (result: ProtobufResult<()>)
        requires
            old(self).wf(),
        ensures
            final(self).wrote_message(
                *old(self),
                seq![varint::varint(msg.size_dyn() as nat)],
                msg.pieces_dyn(),
                result,
            ),
            (result is Err && final(self).wrote(
                *old(self),
                seq![varint::varint(msg.size_dyn() as nat)],
                result,
            )) || exists|os: &mut CodedOutputStream<'a, W>|
                {
                    &&& #[trigger] call_ensures(M::write_to_dyn, (msg, os), result)
                    &&& os.wrote(
                        *old(self),
                        seq![varint::varint(msg.size_dyn() as nat)],
                        Ok(()),
                    )
                    &&& *final(os) == *final(self)
                },
            &*final(final(self).writer()) == &*final(old(self).writer()),
            *final(final(self).vector()) == *final(old(self).vector()),
            final(final(self).slice())@ == final(old(self).slice())@,
    {
        proof {
            output::lemma_message_behind(
                self@,
                seq![varint::varint(msg.size_dyn() as nat)],
                seq![],
                msg.pieces_dyn(),
            );
        }
        let size: u32 = msg.compute_size_dyn();
        self.write_raw_varint32(size)?;
        msg.write_to_dyn(self)
    }

    /// Write `bytes` field
    pub fn write_bytes(&mut self, field_number: u32, bytes: &[u8]) -> (result: ProtobufResult<()>)
        requires
            old(self).wf(),
        ensures
            final(self).wrote(
                *old(self),
                wire_format::field(
                    field_number,
                    wire_format::WireTypeLengthDelimited,
                    unknown::length_delimited(bytes@),
                ),
                result,
            ),
            &*final(final(self).writer()) == &*final(old(self).writer()),
            *final(final(self).vector()) == *final(old(self).vector()),
            final(final(self).slice())@ == final(old(self).slice())@,
    {
        proof {
            output::lemma_sequence(
                self@,
                seq![wire_format::tag_bytes(field_number, wire_format::WireTypeLengthDelimited)],
                unknown::length_delimited(bytes@),
            );
        }
        self.write_tag(field_number, wire_format::WireTypeLengthDelimited)?;
        self.write_bytes_no_tag(bytes)?;
        Ok(())
    }

    /// Write `string` field
    pub fn write_string(&mut self, field_number: u32, s: &str) -> (result: ProtobufResult<()>)
        requires
            old(self).wf(),
        ensures
            final(self).wrote(
                *old(self),
                wire_format::field(
                    field_number,
                    wire_format::WireTypeLengthDelimited,
                    unknown::length_delimited(vstd::utf8::encode_utf8(s@)),
                ),
                result,
            ),
            &*final(final(self).writer()) == &*final(old(self).writer()),
            *final(final(self).vector()) == *final(old(self).vector()),
            final(final(self).slice())@ == final(old(self).slice())@,
    {
        proof {
            output::lemma_sequence(
                self@,
                seq![wire_format::tag_bytes(field_number, wire_format::WireTypeLengthDelimited)],
                unknown::length_delimited(vstd::utf8::encode_utf8(s@)),
            );
        }
        self.write_tag(field_number, wire_format::WireTypeLengthDelimited)?;
        self.write_string_no_tag(s)?;
        Ok(())
    }

    /// Write `message` field
    ///
    /// What the message itself returns is returned as it is; it is asked once the tag is written.
    pub fn write_message<M: Message<W>>(
        &mut self,
        field_number: u32,
        msg: &M,
    ) -> (result: ProtobufResult<()>)
        requires
            old(self).wf(),
        ensures
            final(self).wrote_message(
                *old(self),
                wire_format::field(
                    field_number,
                    wire_format::WireTypeLengthDelimited,
                    seq![varint::varint(msg.size() as nat)],
                ),
                msg.pieces(),
                result,
            ),
            (result is Err && final(self).wrote(
                *old(self),
                seq![wire_format::tag_bytes(field_number, wire_format::WireTypeLengthDelimited)],
                result,
            )) || exists|os: &mut CodedOutputStream<'a, W>|
                {
                    &&& #[trigger] call_ensures(M::write_length_delimited_to, (msg, os), result)
                    &&& os.wrote(
                        *old(self),
                        seq![
                            wire_format::tag_bytes(
                                field_number,
                                wire_format::WireTypeLengthDelimited,
                            ),
                        ],
                        Ok(()),
                    )
                    &&& *final(os) == *final(self)
                },
            &*final(final(self).writer()) == &*final(old(self).writer()),
            *final(final(self).vector()) == *final(old(self).vector()),
            final(final(self).slice())@ == final(old(self).slice())@,
    {
        proof {
            output::lemma_message_behind(
                self@,
                seq![wire_format::tag_bytes(field_number, wire_format::WireTypeLengthDelimited)],
                seq![varint::varint(msg.size() as nat)],
                msg.pieces(),
            );
        }
        self.write_tag(field_number, wire_format::WireTypeLengthDelimited)?;
        self.write_message_no_tag(msg)
    }

    /// Write dynamic `message` field
    ///
    /// What the message itself returns is returned as it is; it is asked once the tag and its size
    /// are written.
    pub fn write_message_dyn<M: MessageDyn<W> + ?Sized>(
        &mut self,
        field_number: u32,
        msg: &M,
    ) -> (result: ProtobufResult<()>)
        requires
            old(self).wf(),
        ensures
            final(self).wrote_message(
                *old(self),
                wire_format::field(
                    field_number,
                    wire_format::WireTypeLengthDelimited,
                    seq![varint::varint(msg.size_dyn() as nat)],
                ),
                msg.pieces_dyn(),
                result,
            ),
            (result is Err && final(self).wrote(
                *old(self),
                wire_format::field(
                    field_number,
                    wire_format::WireTypeLengthDelimited,
                    seq![varint::varint(msg.size_dyn() as nat)],
                ),
                result,
            )) || exists|os: &mut CodedOutputStream<'a, W>|
                {
                    &&& #[trigger] call_ensures(M::write_to_dyn, (msg, os), result)
                    &&& os.wrote(
                        *old(self),
                        wire_format::field(
                            field_number,
                            wire_format::WireTypeLengthDelimited,
                            seq![varint::varint(msg.size_dyn() as nat)],
                        ),
                        Ok(()),
                    )
                    &&& *final(os) == *final(self)
                },
            &*final(final(self).writer()) == &*final(old(self).writer()),
            *final(final(self).vector()) == *final(old(self).vector()),
            final(final(self).slice())@ == final(old(self).slice())@,
    {
        proof {
            output::lemma_sequence(
                self@,
                seq![wire_format::tag_bytes(field_number, wire_format::WireTypeLengthDelimited)],
                seq![varint::varint(msg.size_dyn() as nat)],
            );
            output::lemma_message_behind(
                self@,
                seq![wire_format::tag_bytes(field_number, wire_format::WireTypeLengthDelimited)],
                seq![varint::varint(msg.size_dyn() as nat)],
                msg.pieces_dyn(),
            );
        }
        self.write_tag(field_number, wire_format::WireTypeLengthDelimited)?;
        self.write_message_no_tag_dyn(msg)
    }
}

impl<'a> CodedOutputStream<'a> {
    /// `CodedOutputStream` which writes directly to bytes.
    ///
    /// Attempt to write more than bytes capacity results in error.
    pub fn bytes(bytes: &'a mut [u8]) -> (os: CodedOutputStream<'a>)
        ensures
            os.wf(),
            os@ == (Output::Slice { filled: seq![], free: old(bytes)@ }),
            final(os.slice())@ == final(bytes)@,
    {
        let os = CodedOutputStream { target: OutputTarget::Bytes(bytes), position: 0 };
        assert(os@->filled =~= seq![]);
        assert(os@->free =~= old(bytes)@);
        os
    }

    /// `CodedOutputStream` which writes directly to `Vec<u8>`.
    pub fn vec(vec: &'a mut Vec<u8>) -> (os: CodedOutputStream<'a>)
        ensures
            os.wf(),
            os@ == (Output::Vec { contents: old(vec)@ }),
            *final(os.vector()) == *final(vec),
    {
        CodedOutputStream { target: OutputTarget::Vec(vec), position: 0 }
    }
}

/// Once a stream that holds nothing back is done with, its target holds every byte that the stream
/// was given: the writer has all of them, the vector too, and the slice has them with its unused
/// rest behind them.
pub proof fn law_target_holds<'a, W: Write + ?Sized>(os: CodedOutputStream<'a, W>)
    requires
        os.wf(),
        has_resolved(os),
        os@ matches Output::Writer { written, pending } ==> pending.len() == 0,
    ensures
        os@.held(final(os.writer()).written(), final(os.vector())@, final(os.slice())@),
        os@ matches Output::Writer { written, pending } ==> final(os.writer()).written()
            == written,
        os@ matches Output::Vec { contents } ==> final(os.vector())@ == contents,
        os@ matches Output::Slice { filled, free } ==> final(os.slice())@ == filled + free,
        os@ matches Output::Writer { written, pending } ==> final(os.writer()).written()
            == os@.accepted(),
{
    lemma_target_at_the_end(os);
}

/// What the target of a stream is once nothing writes to it any more.
proof fn lemma_target_at_the_end<'a, W: Write + ?Sized>(os: CodedOutputStream<'a, W>)
    requires
        os.wf(),
        has_resolved(os),
    ensures
        os@.held(final(os.writer()).written(), final(os.vector())@, final(os.slice())@),
        os@ is Writer ==> &*final(os.writer()) == &*os.writer(),
{
    if let Output::Slice { filled, free } = os@ {
        assert(os.slice()@ =~= filled + free);
    }
}

/// What counts as written is what the writer has.
pub proof fn law_writer_has_what_is_written<'a, W: Write + ?Sized>(os: CodedOutputStream<'a, W>)
    ensures
        os@ matches Output::Writer { written, pending } ==> written == os.writer().written(),
{
}

/// No stream holds back more than its buffer has space for.
pub proof fn law_pending_is_bounded<'a, W: Write + ?Sized>(os: CodedOutputStream<'a, W>)
    requires
        os.wf(),
    ensures
        os@.valid(),
{
}

/// The low 32 bits of a length.
fn low_32_bits(length: usize) -> (low: u32)
    ensures
        low == length as nat % 0x1_0000_0000,
{
    let length: u64 = length as u64;
    assert(length as u32 == length % 0x1_0000_0000) by (bit_vector);
    #[verifier::truncate]
    (length as u32)
}

/// Copies `bytes` to the front of `buf`.
fn copy_to_front(buf: &mut [u8], bytes: &[u8])
    requires
        bytes@.len() <= old(buf)@.len(),
    ensures
        final(buf)@ == bytes@ + old(buf)@.skip(bytes@.len() as int),
{
    let count: usize = bytes.len();
    for i in 0..count
        invariant
            count == bytes@.len() <= old(buf)@.len(),
            buf@ == bytes@.take(i as int) + old(buf)@.skip(i as int),
    {
        buf[i] = bytes[i];
        assert(buf@ =~= bytes@.take(i + 1) + old(buf)@.skip(i + 1));
    }
    assert(bytes@.take(count as int) =~= bytes@);
}

} // verus!
