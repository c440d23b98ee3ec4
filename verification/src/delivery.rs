//! That what a stream is given arrives: from the target as it was handed over, to the target as it
//! is in the end.
use vstd::prelude::*;

use crate::coded_output_stream::{law_target_holds, CodedOutputStream};
use crate::error::{IoError, ProtobufError, ProtobufResult};
use crate::layout;
use crate::output;
use crate::output::Output;
use crate::writer::{law_vector_holds_what_it_took, Write};

verus! {

/// A stream has accepted what has been written, and behind it what is pending.
pub proof fn law_accepted_bytes_are_written_or_pending(stream: Output)
    ensures
        stream matches Output::Writer { written, pending } ==> stream.accepted() == written
            + pending,
        stream matches Output::Vec { contents } ==> stream.accepted() == contents,
        stream matches Output::Slice { filled, free } ==> stream.accepted() == filled,
{
}

/// What a stream does is what is said of writes and messages in general, with the error that its
/// own writer reported.
pub proof fn law_stream_does_what_is_said_of_writes<'a, W: Write + ?Sized>(
    before: CodedOutputStream<'a, W>,
    pieces: Seq<Seq<u8>>,
    message: Seq<Seq<u8>>,
    after: CodedOutputStream<'a, W>,
    result: ProtobufResult<()>,
)
    ensures
        after.wrote(before, pieces, result) ==> {
            &&& after.wf()
            &&& output::wrote(before@, pieces, after@, after.failure(), result)
        },
        after.wrote_message(before, pieces, message, result) ==> {
            &&& after.wf()
            &&& output::wrote_message(
                before@,
                pieces,
                message,
                after@,
                after.failure(),
                result,
            )
        },
        after@ is Writer ==> after.failure() == after.writer().failure(),
{
}

/// A write that succeeds adds every byte behind those that are there, in order, and nothing else.
/// A slice has that much less of it free; a writer is given bytes from the front, and no more than
/// 8192 are held back.
pub proof fn law_success_adds_every_byte(
    before: Output,
    pieces: Seq<Seq<u8>>,
    after: Output,
    failure: Option<std::io::Error>,
)
    requires
        output::wrote(before, pieces, after, failure, Ok(())),
    ensures
        match (before, after) {
            (Output::Vec { contents: c0 }, Output::Vec { contents: c1 }) => c1 == c0
                + pieces.flatten(),
            (
                Output::Slice { filled: f0, free: r0 },
                Output::Slice { filled: f1, free: r1 },
            ) => {
                &&& pieces.flatten().len() <= r0.len()
                &&& f1 == f0 + pieces.flatten()
                &&& r1 == r0.skip(pieces.flatten().len() as int)
            },
            (
                Output::Writer { written: w0, pending: p0 },
                Output::Writer { written: w1, pending: p1 },
            ) => {
                &&& w1 + p1 == w0 + p0 + pieces.flatten()
                &&& p0.len() <= 8192 ==> p1.len() <= 8192
                &&& w0.is_prefix_of(w1)
            },
            _ => false,
        },
{
    layout::law_concat_keeps_every_piece(pieces);
    output::lemma_put_all(before, pieces);
    if before is Writer {
        lemma_only_more_is_written(before, pieces);
    }
}

proof fn lemma_only_more_is_written(before: Output, pieces: Seq<Seq<u8>>)
    requires
        before is Writer,
    ensures
        before.put_all(pieces) is Writer,
        before->written.is_prefix_of(before.put_all(pieces)->written),
    decreases pieces.len(),
{
    if pieces.len() > 0 {
        lemma_only_more_is_written(before, pieces.drop_last());
    }
}

/// One write to a buffered writer: what fits the 8192 bytes of the buffer waits there. Otherwise
/// the buffer is emptied first; then the bytes wait, if they are fewer than 8192, or are handed
/// on at once.
pub proof fn law_buffer_has_8192_bytes(
    written: Seq<u8>,
    pending: Seq<u8>,
    bytes: Seq<u8>,
    after: Output,
    failure: Option<std::io::Error>,
)
    requires
        output::wrote(Output::Writer { written, pending }, seq![bytes], after, failure, Ok(())),
    ensures
        pending.len() + bytes.len() <= 8192 ==> after == (Output::Writer {
            written,
            pending: pending + bytes,
        }),
        pending.len() + bytes.len() > 8192 && bytes.len() < 8192 ==> after == (Output::Writer {
            written: written + pending,
            pending: bytes,
        }),
        pending.len() + bytes.len() > 8192 && bytes.len() >= 8192 ==> after == (Output::Writer {
            written: written + pending + bytes,
            pending: seq![],
        }),
{
    output::lemma_one_piece(Output::Writer { written, pending }, bytes);
}

/// A write fails only for a reason: never over a vector; over a slice exactly for want of space,
/// with an error that says so, and with the pieces that fit written whole; over a writer only
/// when the buffer overflows, and with the error that the writer reported.
pub proof fn law_failure_has_a_reason(
    before: Output,
    pieces: Seq<Seq<u8>>,
    after: Output,
    failure: Option<std::io::Error>,
    error: ProtobufError,
)
    requires
        output::wrote(before, pieces, after, failure, Err(error)),
    ensures
        match (before, after) {
            (
                Output::Slice { filled: f0, free: r0 },
                Output::Slice { filled: f1, free: r1 },
            ) => {
                &&& pieces.flatten().len() > r0.len()
                &&& error matches ProtobufError::IoError(IoError::Other(message)) && message@
                    == "given slice is too small to serialize the message"@
                &&& exists|k: int|
                    {
                        &&& 0 <= k < pieces.len()
                        &&& f1 == f0 + (#[trigger] pieces.take(k)).flatten()
                        &&& r1 == r0.skip(pieces.take(k).flatten().len() as int)
                        &&& pieces[k].len() > r1.len()
                    }
            },
            (
                Output::Writer { written: w0, pending: p0 },
                Output::Writer { written: w1, pending: p1 },
            ) => {
                &&& p0.len() + pieces.flatten().len() > 8192
                &&& failure matches Some(reported) && error == ProtobufError::IoError(
                    IoError::Writer(reported),
                )
                &&& w0.is_prefix_of(w1)
                &&& w1.is_prefix_of(w0 + p0 + pieces.flatten())
                &&& exists|k: int, w: Seq<u8>, p: Seq<u8>, taken: int|
                    {
                        &&& 0 <= k < pieces.len()
                        &&& #[trigger] output::wrote(
                            before,
                            pieces.take(k),
                            Output::Writer { written: w, pending: p },
                            failure,
                            Ok(()),
                        )
                        &&& p.len() + pieces[k].len() > 8192
                        &&& {
                            ||| 0 <= taken <= p.len() && p1 == p && w1 == w + #[trigger] p.take(
                                taken,
                            )
                            ||| pieces[k].len() >= 8192 && 0 <= taken <= pieces[k].len()
                                && p1.len() == 0 && w1 == w + p + pieces[k].take(taken)
                        }
                    }
            },
            _ => false,
        },
{
    layout::law_concat_keeps_every_piece(pieces);
    let k = choose|k: int| output::refused_at(before, pieces, k, after);
    let done = pieces.take(k);
    let middle = before.put_all(done);
    layout::law_concat_keeps_every_piece(done);
    output::lemma_put_all(before, done);
    assert(pieces =~= pieces.take(k + 1) + pieces.skip(k + 1));
    assert(pieces.take(k + 1).drop_last() =~= done);
    output::lemma_concat_append(pieces.take(k + 1), pieces.skip(k + 1));
    if before is Writer {
        let all = before.accepted() + pieces.flatten();
        lemma_only_more_is_written(before, done);
        assert(all =~= middle.accepted() + pieces[k] + output::concat(pieces.skip(k + 1)));
        if before->pending.len() + pieces.flatten().len() <= 8192 {
            output::lemma_put_all_buffered(before, done);
        }
        assert(middle->written.is_prefix_of(after->written));
        assert(after->written.is_prefix_of(all));
        let w = middle->written;
        let p = middle->pending;
        assert(output::wrote(
            before,
            done,
            Output::Writer { written: w, pending: p },
            failure,
            Ok(()),
        ));
        if exists|taken: int| middle.drain_broke_off(taken, after) {
            let taken = choose|taken: int| middle.drain_broke_off(taken, after);
            assert(after->written == w + p.take(taken));
        } else {
            let taken = choose|taken: int| middle.direct_broke_off(pieces[k], taken, after);
            assert(after->written == w + p + pieces[k].take(taken));
            assert(p.take(taken) == p.take(taken));
        }
    }
}

/// A flush brings a writer what is pending, all of it or, with the error that the writer reported,
/// a beginning of it; then all of it stays pending. Other targets have nothing pending.
pub proof fn law_flush_brings_what_is_pending(
    before: Output,
    after: Output,
    failure: Option<std::io::Error>,
    result: ProtobufResult<()>,
)
    requires
        output::flushed(before, after, failure, result),
    ensures
        match (before, result) {
            (Output::Writer { written, pending }, Ok(())) => after == (Output::Writer {
                written: written + pending,
                pending: seq![],
            }),
            (Output::Writer { written, pending }, Err(error)) => {
                &&& failure matches Some(reported) && error == ProtobufError::IoError(
                    IoError::Writer(reported),
                )
                &&& exists|taken: int|
                    {
                        &&& 0 <= taken <= pending.len()
                        &&& after == (Output::Writer {
                            written: written + #[trigger] pending.take(taken),
                            pending,
                        })
                    }
            },
            (_, Ok(())) => after == before,
            (_, Err(_)) => false,
        },
{
    if let (Output::Writer { written, pending }, Err(error)) = (before, result) {
        let taken = choose|taken: int| before.drain_broke_off(taken, after);
        assert(after == (Output::Writer { written: written + pending.take(taken), pending }));
    }
}

/// A vector that a stream was put over holds in the end what it held at first, and behind it every
/// byte that was written.
pub proof fn law_vector_gets_every_byte<'a>(
    vec: &mut Vec<u8>,
    start: CodedOutputStream<'a>,
    pieces: Seq<Seq<u8>>,
    end: CodedOutputStream<'a>,
)
    requires
        call_ensures(CodedOutputStream::vec, (vec,), start),
        end.wrote(start, pieces, Ok(())),
        *final(end.vector()) == *final(start.vector()),
        has_resolved(end),
    ensures
        final(vec)@ == old(vec)@ + pieces.flatten(),
{
    law_success_adds_every_byte(start@, pieces, end@, end.failure());
    law_target_holds(end);
}

/// A slice that a stream was put over holds in the end every byte that was written, and behind
/// them what it held there at first.
pub proof fn law_slice_gets_every_byte<'a>(
    bytes: &mut [u8],
    start: CodedOutputStream<'a>,
    pieces: Seq<Seq<u8>>,
    end: CodedOutputStream<'a>,
)
    requires
        call_ensures(CodedOutputStream::bytes, (bytes,), start),
        end.wrote(start, pieces, Ok(())),
        final(end.slice())@ == final(start.slice())@,
        has_resolved(end),
    ensures
        pieces.flatten().len() <= old(bytes)@.len(),
        final(bytes)@ == pieces.flatten() + old(bytes)@.skip(pieces.flatten().len() as int),
{
    law_success_adds_every_byte(start@, pieces, end@, end.failure());
    law_target_holds(end);
}

/// A writer that a stream was put over has in the end, if the stream was flushed, what it had at
/// first, and behind it every byte that was written.
pub proof fn law_writer_gets_every_byte<'a, W: Write + ?Sized>(
    writer: &mut W,
    start: CodedOutputStream<'a, W>,
    pieces: Seq<Seq<u8>>,
    os: &mut CodedOutputStream<'a, W>,
)
    requires
        call_ensures(CodedOutputStream::new, (writer,), start),
        os.wrote(start, pieces, Ok(())),
        &*final(os.writer()) == &*final(start.writer()),
        call_ensures(CodedOutputStream::flush, (os,), Ok(())),
        has_resolved(*final(os)),
    ensures
        final(writer).written() == old(writer).written() + pieces.flatten(),
{
    law_success_adds_every_byte(start@, pieces, os@, os.failure());
    law_target_holds(*final(os));
}

/// A vector that is the writer of a stream holds in the end, if the stream was flushed, what it
/// held at first, and behind it every byte that was written.
pub proof fn law_vector_as_writer_gets_every_byte<'a>(
    vec: &mut Vec<u8>,
    start: CodedOutputStream<'a, Vec<u8>>,
    pieces: Seq<Seq<u8>>,
    os: &mut CodedOutputStream<'a, Vec<u8>>,
)
    requires
        call_ensures(CodedOutputStream::new, (vec,), start),
        os.wrote(start, pieces, Ok(())),
        &*final(os.writer()) == &*final(start.writer()),
        call_ensures(CodedOutputStream::flush, (os,), Ok(())),
        has_resolved(*final(os)),
    ensures
        final(vec)@ == old(vec)@ + pieces.flatten(),
{
    law_writer_gets_every_byte(vec, start, pieces, os);
    law_vector_holds_what_it_took(*vec);
    law_vector_holds_what_it_took(*final(vec));
}

/// A stream that is closed leaves every byte that it was given in its target: a vector or a slice
/// has them anyway, and a writer if the result is `Ok`.
pub proof fn law_closed_stream_has_delivered<'a, W: Write + ?Sized>(
    os: CodedOutputStream<'a, W>,
    result: ProtobufResult<()>,
)
    requires
        os.wf(),
        call_ensures(CodedOutputStream::close, (os,), result),
    ensures
        match os@ {
            Output::Vec { contents } => result is Ok && final(os.vector())@ == contents,
            Output::Slice { filled, free } => result is Ok && final(os.slice())@ == filled + free,
            Output::Writer { written, pending } => {
                &&& result is Ok ==> final(os.writer()).written() == written + pending
                &&& result matches Err(error) ==> final(os.writer()).failure() matches Some(
                    reported,
                ) && error == ProtobufError::IoError(IoError::Writer(reported))
            },
        },
{
}

} // verus!
