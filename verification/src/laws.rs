//! What holds of every stream, whatever it writes to.
use vstd::prelude::*;

use crate::coded_output_stream::{law_writer_has_what_is_written, CodedOutputStream};
use crate::error::ProtobufResult;
use crate::output;
use crate::output::{Output, OUTPUT_STREAM_BUFFER_SIZE};
use crate::varint;
use crate::writer::Write;

verus! {

/// Nothing is lost, added or moved on the way: whatever the target, a write that succeeds adds
/// its bytes behind those that were there, and the target keeps its kind.
pub proof fn law_every_target_takes_the_same(
    before: Output,
    pieces: Seq<Seq<u8>>,
    after: Output,
    failure: Option<std::io::Error>,
)
    requires
        output::wrote(before, pieces, after, failure, Ok(())),
    ensures
        after.accepted() == before.accepted() + output::concat(pieces),
        after is Writer <==> before is Writer,
        after is Vec <==> before is Vec,
        after is Slice <==> before is Slice,
{
    output::lemma_put_all(before, pieces);
}

/// Writing one list of pieces and then another is writing both at once.
pub proof fn law_writes_compose<'a, W: Write + ?Sized>(
    before: CodedOutputStream<'a, W>,
    one: Seq<Seq<u8>>,
    middle: CodedOutputStream<'a, W>,
    other: Seq<Seq<u8>>,
    after: CodedOutputStream<'a, W>,
    result: ProtobufResult<()>,
)
    requires
        middle.wrote(before, one, Ok(())),
        after.wrote(middle, other, result),
    ensures
        after.wrote(before, one + other, result),
{
    output::lemma_sequence(before@, one, other);
}

/// A write to a vector succeeds.
pub proof fn law_vector_takes_everything(
    before: Output,
    pieces: Seq<Seq<u8>>,
    after: Output,
    failure: Option<std::io::Error>,
    result: ProtobufResult<()>,
)
    requires
        before is Vec,
        output::wrote(before, pieces, after, failure, result),
    ensures
        result is Ok,
        after == (Output::Vec { contents: before.accepted() + output::concat(pieces) }),
{
    output::lemma_put_all(before, pieces);
}

/// A write to a slice fails exactly when it asks for more bytes than are free. Either way the
/// pieces that fit are written whole, nothing else of the slice changes, and the slice keeps its
/// length.
pub proof fn law_slice_takes_what_fits(
    before: Output,
    pieces: Seq<Seq<u8>>,
    after: Output,
    failure: Option<std::io::Error>,
    result: ProtobufResult<()>,
)
    requires
        before is Slice,
        output::wrote(before, pieces, after, failure, result),
    ensures
        result is Ok <==> output::concat(pieces).len() <= before->free.len(),
        after is Slice,
        exists|k: int|
            0 <= k <= pieces.len() && after->filled == before->filled + #[trigger] output::concat(
                pieces.take(k),
            ) && after->free == before->free.skip(output::concat(pieces.take(k)).len() as int),
        after->filled.len() + after->free.len() == before->filled.len() + before->free.len(),
        result is Ok && output::concat(pieces).len() == before->free.len() ==> after->free.len()
            == 0,
{
    match result {
        Ok(()) => {
            output::lemma_put_all(before, pieces);
            assert(pieces.take(pieces.len() as int) =~= pieces);
        },
        Err(error) => {
            let k = choose|k: int| output::refused_at(before, pieces, k, after);
            output::lemma_put_all(before, pieces.take(k));
            assert(pieces =~= pieces.take(k + 1) + pieces.skip(k + 1));
            assert(pieces.take(k + 1).drop_last() =~= pieces.take(k));
            output::lemma_concat_append(pieces.take(k + 1), pieces.skip(k + 1));
        },
    }
}

/// A stream over a writer is buffered: as long as the pending bytes fit the buffer, the writer is
/// not asked, so that it stays as it was, and the write succeeds.
pub proof fn law_writer_is_not_asked_early<'a, W: Write + ?Sized>(
    before: CodedOutputStream<'a, W>,
    pieces: Seq<Seq<u8>>,
    after: CodedOutputStream<'a, W>,
    result: ProtobufResult<()>,
)
    requires
        before@ is Writer,
        before@->pending.len() + output::concat(pieces).len() <= 8192,
        after.wrote(before, pieces, result),
    ensures
        result is Ok,
        after@ == (Output::Writer {
            written: before@->written,
            pending: before@->pending + output::concat(pieces),
        }),
        after.writer() == before.writer(),
{
    output::lemma_put_all_buffered(before@, pieces);
    if result is Err {
        let k = choose|k: int| output::refused_at(before@, pieces, k, after@);
        assert(pieces =~= pieces.take(k + 1) + pieces.skip(k + 1));
        assert(pieces.take(k + 1).drop_last() =~= pieces.take(k));
        output::lemma_concat_append(pieces.take(k + 1), pieces.skip(k + 1));
        output::lemma_put_all_buffered(before@, pieces.take(k));
    }
}

/// A message is written in whole pieces, also when it gives up or is refused: a vector or a slice
/// then has a beginning of what was to be written. If it succeeds, it has all of it.
pub proof fn law_message_is_written_in_whole_pieces(
    before: Output,
    front: Seq<Seq<u8>>,
    message: Seq<Seq<u8>>,
    after: Output,
    failure: Option<std::io::Error>,
    result: ProtobufResult<()>,
)
    requires
        !(before is Writer),
        output::wrote_message(before, front, message, after, failure, result),
    ensures
        exists|k: int|
            0 <= k <= (front + message).len() && after.accepted() == before.accepted()
                + #[trigger] output::concat((front + message).take(k)),
        result is Ok ==> after.accepted() == before.accepted() + output::concat(front + message),
{
    let pieces = front + message;
    assert(pieces.take(pieces.len() as int) =~= pieces);
    if output::wrote(before, pieces, after, failure, result) {
        if result is Ok {
            output::lemma_put_all(before, pieces);
        } else {
            let k = choose|k: int| output::refused_at(before, pieces, k, after);
            output::lemma_put_all(before, pieces.take(k));
        }
    } else {
        let k = choose|k: int| output::gave_up_after(before, front, message, k, after);
        assert(pieces.take(front.len() + k) =~= front + message.take(k));
        output::lemma_put_all(before, pieces.take(front.len() + k));
    }
}

/// What a writer holds is a beginning of what the stream was given, also when the write fails.
pub proof fn law_writer_holds_a_beginning(
    before: Output,
    pieces: Seq<Seq<u8>>,
    after: Output,
    failure: Option<std::io::Error>,
    result: ProtobufResult<()>,
)
    requires
        before is Writer,
        output::wrote(before, pieces, after, failure, result),
    ensures
        after is Writer,
        before->written.is_prefix_of(after->written),
        after->written.is_prefix_of(before.accepted() + output::concat(pieces)),
{
    let all = before.accepted() + output::concat(pieces);
    match result {
        Ok(()) => {
            output::lemma_put_all(before, pieces);
            lemma_written_grows(before, pieces);
        },
        Err(error) => {
            let k = choose|k: int| output::refused_at(before, pieces, k, after);
            let middle = before.put_all(pieces.take(k));
            output::lemma_put_all(before, pieces.take(k));
            lemma_written_grows(before, pieces.take(k));
            assert(pieces =~= pieces.take(k + 1) + pieces.skip(k + 1));
            assert(pieces.take(k + 1).drop_last() =~= pieces.take(k));
            output::lemma_concat_append(pieces.take(k + 1), pieces.skip(k + 1));
            assert(all =~= middle.accepted() + pieces[k] + output::concat(pieces.skip(k + 1)));
            assert(middle->written.is_prefix_of(after->written));
            assert(after->written.is_prefix_of(all));
        },
    }
}

proof fn lemma_written_grows(before: Output, pieces: Seq<Seq<u8>>)
    requires
        before is Writer,
    ensures
        before.put_all(pieces) is Writer,
        before->written.is_prefix_of(before.put_all(pieces)->written),
    decreases pieces.len(),
{
    if pieces.len() > 0 {
        lemma_written_grows(before, pieces.drop_last());
    }
}

/// A flush that succeeds brings the writer every byte that the stream was given; it changes
/// nothing of what was given, and another flush has nothing left to do.
pub proof fn law_flush_delivers(before: Output, after: Output, failure: Option<std::io::Error>)
    requires
        output::flushed(before, after, failure, Ok(())),
    ensures
        after.accepted() == before.accepted(),
        after matches Output::Writer { written, pending } ==> written == before.accepted()
            && pending.len() == 0,
        after.drained() == after,
{
    assert(after.accepted() =~= before.accepted());
    assert(after.drained() =~= after);
}

/// Flushing a vector or a slice succeeds and does nothing.
pub proof fn law_only_writers_are_flushed(
    before: Output,
    after: Output,
    failure: Option<std::io::Error>,
    result: ProtobufResult<()>,
)
    requires
        !(before is Writer),
        output::flushed(before, after, failure, result),
    ensures
        result is Ok,
        after == before,
{
}

/// Two streams in equal states that are given the same bytes, fewer than a buffer holds, end alike,
/// as long as the writers answer alike when they are handed the pending bytes.
pub proof fn law_equal_writes_end_alike<'a, W: Write + ?Sized>(
    one: CodedOutputStream<'a, W>,
    one_after: CodedOutputStream<'a, W>,
    one_result: ProtobufResult<()>,
    other: CodedOutputStream<'a, W>,
    other_after: CodedOutputStream<'a, W>,
    other_result: ProtobufResult<()>,
    bytes: Seq<u8>,
)
    requires
        one@ == other@,
        bytes.len() < OUTPUT_STREAM_BUFFER_SIZE,
        one_after.wrote(one, seq![bytes], one_result),
        one@.overflows(bytes.len()) ==> exists|
            w: &mut W,
            data: &[u8],
            answer: Result<(), std::io::Error>,
        |
            {
                &&& #[trigger] call_ensures(W::write_all, (w, data), answer)
                &&& &*w == &*one.writer()
                &&& data@ == one@->pending
                &&& &*final(w) == &*one_after.writer()
                &&& answer is Ok <==> one_result is Ok
            },
        other_after.wrote(other, seq![bytes], other_result),
        other@.overflows(bytes.len()) ==> exists|
            w: &mut W,
            data: &[u8],
            answer: Result<(), std::io::Error>,
        |
            {
                &&& #[trigger] call_ensures(W::write_all, (w, data), answer)
                &&& &*w == &*other.writer()
                &&& data@ == other@->pending
                &&& &*final(w) == &*other_after.writer()
                &&& answer is Ok <==> other_result is Ok
            },
        forall|
            v: &mut W,
            w: &mut W,
            data: &[u8],
            same: &[u8],
            answer: Result<(), std::io::Error>,
            reply: Result<(), std::io::Error>,
        |
            #![trigger call_ensures(W::write_all, (v, data), answer),
                call_ensures(W::write_all, (w, same), reply)]
            {
                &&& one@.overflows(bytes.len())
                &&& call_ensures(W::write_all, (v, data), answer)
                &&& call_ensures(W::write_all, (w, same), reply)
                &&& &*v == &*one.writer()
                &&& &*w == &*other.writer()
                &&& data@ == one@->pending
                &&& same@ == one@->pending
            } ==> {
                &&& answer is Ok <==> reply is Ok
                &&& answer is Err ==> answer == reply
                &&& final(v).written() == final(w).written()
            },
    ensures
        one_result is Ok <==> other_result is Ok,
        one@ is Writer ==> one_result == other_result,
        one_after@ == other_after@,
        one_result is Ok ==> one_after@ == one@.put(bytes),
        one@ matches Output::Slice { filled, free } ==> {
            &&& one_result is Err <==> free.len() < bytes.len()
            &&& one_result is Err ==> one_after@ == one@
        },
{
    output::lemma_one_piece(one@, bytes);
    law_writer_has_what_is_written(one_after);
    law_writer_has_what_is_written(other_after);
    match (one_result, other_result) {
        (Ok(nothing), Ok(other_nothing)) => {
            assert(nothing == other_nothing);
        },
        (Err(error), Err(other_error)) => {
            if one@ is Writer {
                assert(one_after.failure() == other_after.failure());
                assert(error == other_error);
            }
        },
        _ => {},
    }
}

/// Writing a byte is writing a slice of that one byte: on streams in equal states, over writers
/// that answer alike when they are handed the pending bytes, both calls end alike. Over a slice
/// they fail exactly when it is full, and then change nothing.
pub proof fn law_byte_is_written_as_bytes<'a, W: Write + ?Sized>(
    one: &mut CodedOutputStream<'a, W>,
    bytes: &[u8],
    one_result: ProtobufResult<()>,
    other: &mut CodedOutputStream<'a, W>,
    byte: u8,
    other_result: ProtobufResult<()>,
)
    requires
        one.wf(),
        other.wf(),
        one@ == other@,
        bytes@ == seq![byte],
        call_ensures(CodedOutputStream::write_raw_bytes, (one, bytes), one_result),
        call_ensures(CodedOutputStream::write_raw_byte, (other, byte), other_result),
        forall|
            v: &mut W,
            w: &mut W,
            data: &[u8],
            same: &[u8],
            answer: Result<(), std::io::Error>,
            reply: Result<(), std::io::Error>,
        |
            #![trigger call_ensures(W::write_all, (v, data), answer),
                call_ensures(W::write_all, (w, same), reply)]
            {
                &&& one@.overflows(1)
                &&& call_ensures(W::write_all, (v, data), answer)
                &&& call_ensures(W::write_all, (w, same), reply)
                &&& &*v == &*one.writer()
                &&& &*w == &*other.writer()
                &&& data@ == one@->pending
                &&& same@ == one@->pending
            } ==> {
                &&& answer is Ok <==> reply is Ok
                &&& answer is Err ==> answer == reply
                &&& final(v).written() == final(w).written()
            },
    ensures
        one_result is Ok <==> other_result is Ok,
        old(one)@ is Writer ==> one_result == other_result,
        final(one)@ == final(other)@,
        one_result is Ok ==> final(one)@ == old(one)@.put(seq![byte]),
        old(one)@ matches Output::Slice { filled, free } ==> {
            &&& one_result is Err <==> free.len() < seq![byte].len()
            &&& one_result is Err ==> final(one)@ == old(one)@
        },
{
    let bytes = seq![byte];
    law_equal_writes_end_alike(
        *one,
        *final(one),
        one_result,
        *other,
        *final(other),
        other_result,
        bytes,
    );
}

/// A 32-bit number is written alike as a varint of either width: on streams in equal states, over
/// writers that answer alike when they are handed the pending bytes, both calls end alike. Over a
/// slice they fail exactly when the encoding is longer than what is free, and then change nothing.
pub proof fn law_varint_widths_agree<'a, W: Write + ?Sized>(
    one: &mut CodedOutputStream<'a, W>,
    value: u32,
    one_result: ProtobufResult<()>,
    other: &mut CodedOutputStream<'a, W>,
    wide: u64,
    other_result: ProtobufResult<()>,
)
    requires
        one.wf(),
        other.wf(),
        one@ == other@,
        wide == value,
        call_ensures(CodedOutputStream::write_raw_varint32, (one, value), one_result),
        call_ensures(CodedOutputStream::write_raw_varint64, (other, wide), other_result),
        forall|
            v: &mut W,
            w: &mut W,
            data: &[u8],
            same: &[u8],
            answer: Result<(), std::io::Error>,
            reply: Result<(), std::io::Error>,
        |
            #![trigger call_ensures(W::write_all, (v, data), answer),
                call_ensures(W::write_all, (w, same), reply)]
            {
                &&& one@.overflows(varint::varint(value as nat).len())
                &&& call_ensures(W::write_all, (v, data), answer)
                &&& call_ensures(W::write_all, (w, same), reply)
                &&& &*v == &*one.writer()
                &&& &*w == &*other.writer()
                &&& data@ == one@->pending
                &&& same@ == one@->pending
            } ==> {
                &&& answer is Ok <==> reply is Ok
                &&& answer is Err ==> answer == reply
                &&& final(v).written() == final(w).written()
            },
    ensures
        one_result is Ok <==> other_result is Ok,
        old(one)@ is Writer ==> one_result == other_result,
        final(one)@ == final(other)@,
        one_result is Ok ==> final(one)@ == old(one)@.put(varint::varint(value as nat)),
        old(one)@ matches Output::Slice { filled, free } ==> {
            &&& one_result is Err <==> free.len() < varint::varint(value as nat).len()
            &&& one_result is Err ==> final(one)@ == old(one)@
        },
{
    let bytes = varint::varint(value as nat);
    varint::law_varint_length(value as nat);
    law_equal_writes_end_alike(
        *one,
        *final(one),
        one_result,
        *other,
        *final(other),
        other_result,
        bytes,
    );
}

} // verus!
