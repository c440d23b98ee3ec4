//! Running a function on a stream that is made for it.
use vstd::prelude::*;

use crate::coded_output_stream::CodedOutputStream;
use crate::error::{ProtobufError, ProtobufResult};
use crate::output;
use crate::output::Output;
use crate::writer::Write;

verus! {

/// What is returned when the function gave `given`, the flush behind it ended in `flushed`, and
/// closing the stream in `closed`: the first error, or else what the function gave.
pub open spec fn overall<T>(
    given: ProtobufResult<T>,
    flushed: ProtobufResult<()>,
    closed: ProtobufResult<()>,
) -> ProtobufResult<T> {
    match (given, flushed, closed) {
        (Ok(value), Err(error), _) => Err(error),
        (Ok(value), Ok(()), Err(error)) => Err(error),
        _ => given,
    }
}

/// The flush behind the function led from `before` to `after`. It is left out when the function
/// failed.
pub open spec fn flushed_behind<'a, W: Write + ?Sized, T>(
    before: CodedOutputStream<'a, W>,
    given: ProtobufResult<T>,
    after: CodedOutputStream<'a, W>,
    flushed: ProtobufResult<()>,
) -> bool {
    if given is Ok {
        &&& after.wf()
        &&& output::flushed(before@, after@, after.failure(), flushed)
    } else {
        &&& after == before
        &&& flushed is Ok
    }
}

/// A target that a stream can be put over; `W` is the kind of writer that the stream could have.
pub trait WithCodedOutputStream<W: Write + ?Sized>: Sized {
    /// What a stream over the target has at the start.
    open spec fn start(self) -> Output {
        arbitrary()
    }

    /// Runs `cb` on a stream over the target, flushes the stream if `cb` succeeded, and closes it.
    fn with_coded_output_stream<T, F>(self, cb: F) -> (result: ProtobufResult<T>) where
        F: FnOnce(&mut CodedOutputStream<'_, W>) -> ProtobufResult<T>,

        requires
            forall|os: &mut CodedOutputStream<'_, W>|
                os.wf() ==> #[trigger] call_requires(cb, (os,)),
            forall|os: &mut CodedOutputStream<'_, W>, given: ProtobufResult<T>|
                os.wf() && #[trigger] call_ensures(cb, (os,), given) ==> final(os).wf(),
        ensures
            exists|
                os: &mut CodedOutputStream<'_, W>,
                given: ProtobufResult<T>,
                middle: CodedOutputStream<'_, W>,
                flushed: ProtobufResult<()>,
                end: Output,
                closed: ProtobufResult<()>,
            |
                {
                    &&& #[trigger] call_ensures(cb, (os,), given)
                    &&& os.wf()
                    &&& os@ == self.start()
                    &&& #[trigger] flushed_behind(*final(os), given, middle, flushed)
                    &&& &*final(middle.writer()) == &*final(final(os).writer())
                    &&& #[trigger] output::flushed(
                        middle@,
                        end,
                        final(final(os).writer()).failure(),
                        closed,
                    )
                    &&& end.held(
                        final(final(os).writer()).written(),
                        final(final(os).vector())@,
                        final(final(os).slice())@,
                    )
                    &&& result == overall(given, flushed, closed)
                },
    ;
}

/// Runs `cb` on the stream, flushes the stream if `cb` succeeded, and closes it.
fn run<W: Write + ?Sized, T, F>(os: CodedOutputStream<'_, W>, cb: F) -> (result: ProtobufResult<
    T,
>) where F: FnOnce(&mut CodedOutputStream<'_, W>) -> ProtobufResult<T>,
    requires
        os.wf(),
        forall|os: &mut CodedOutputStream<'_, W>|
            os.wf() ==> #[trigger] call_requires(cb, (os,)),
        forall|os: &mut CodedOutputStream<'_, W>, given: ProtobufResult<T>|
            os.wf() && #[trigger] call_ensures(cb, (os,), given) ==> final(os).wf(),
    ensures
        exists|
            stream: &mut CodedOutputStream<'_, W>,
            given: ProtobufResult<T>,
            middle: CodedOutputStream<'_, W>,
            flushed: ProtobufResult<()>,
            end: Output,
            closed: ProtobufResult<()>,
        |
            {
                &&& #[trigger] call_ensures(cb, (stream,), given)
                &&& *stream == os
                &&& #[trigger] flushed_behind(*final(stream), given, middle, flushed)
                &&& &*final(middle.writer()) == &*final(final(stream).writer())
                &&& #[trigger] output::flushed(
                    middle@,
                    end,
                    final(final(stream).writer()).failure(),
                    closed,
                )
                &&& end.held(
                    final(final(stream).writer()).written(),
                    final(final(stream).vector())@,
                    final(final(stream).slice())@,
                )
                &&& result == overall(given, flushed, closed)
            },
{
    let mut stream = os;
    let given = cb(&mut stream);
    let ghost before = stream;
    let flushed = if given.is_ok() {
        stream.flush()
    } else {
        Ok(())
    };
    assert(flushed_behind(before, given, stream, flushed));
    let closed = stream.close();
    match (given, flushed, closed) {
        (Ok(_), Err(error), _) => Err(error),
        (Ok(_), Ok(()), Err(error)) => Err(error),
        (given, _, _) => given,
    }
}

impl<'a> WithCodedOutputStream<dyn Write + 'a> for &'a mut (dyn Write + 'a) {
    open spec fn start(self) -> Output {
        Output::Writer { written: self.written(), pending: seq![] }
    }

    fn with_coded_output_stream<T, F>(self, cb: F) -> (result: ProtobufResult<T>) where
        F: FnOnce(&mut CodedOutputStream<'_, dyn Write + 'a>) -> ProtobufResult<T>,

        ensures
            exists|
                os: &mut CodedOutputStream<'_, dyn Write + 'a>,
                given: ProtobufResult<T>,
                middle: CodedOutputStream<'_, dyn Write + 'a>,
                flushed: ProtobufResult<()>,
                end: Output,
                closed: ProtobufResult<()>,
            |
                {
                    &&& #[trigger] call_ensures(cb, (os,), given)
                    &&& os.wf()
                    &&& os@ == (Output::Writer { written: old(self).written(), pending: seq![] })
                    &&& &*os.writer() == &*old(self)
                    &&& &*final(os.writer()) == &*final(self)
                    &&& #[trigger] flushed_behind(*final(os), given, middle, flushed)
                    &&& &*final(middle.writer()) == &*final(final(os).writer())
                    &&& #[trigger] output::flushed(
                        middle@,
                        end,
                        final(final(os).writer()).failure(),
                        closed,
                    )
                    &&& end.held(
                        final(final(os).writer()).written(),
                        final(final(os).vector())@,
                        final(final(os).slice())@,
                    )
                    &&& result == overall(given, flushed, closed)
                },
    {
        run(CodedOutputStream::new(self), cb)
    }
}

impl<'a> WithCodedOutputStream<Vec<u8>> for &'a mut Vec<u8> {
    open spec fn start(self) -> Output {
        Output::Vec { contents: self@ }
    }

    fn with_coded_output_stream<T, F>(self, cb: F) -> (result: ProtobufResult<T>) where
        F: FnOnce(&mut CodedOutputStream<'_, Vec<u8>>) -> ProtobufResult<T>,

        ensures
            exists|
                os: &mut CodedOutputStream<'_, Vec<u8>>,
                given: ProtobufResult<T>,
                middle: CodedOutputStream<'_, Vec<u8>>,
                flushed: ProtobufResult<()>,
                end: Output,
                closed: ProtobufResult<()>,
            |
                {
                    &&& #[trigger] call_ensures(cb, (os,), given)
                    &&& os.wf()
                    &&& os@ == (Output::Vec { contents: old(self)@ })
                    &&& *final(os.vector()) == *final(self)
                    &&& #[trigger] flushed_behind(*final(os), given, middle, flushed)
                    &&& &*final(middle.writer()) == &*final(final(os).writer())
                    &&& #[trigger] output::flushed(
                        middle@,
                        end,
                        final(final(os).writer()).failure(),
                        closed,
                    )
                    &&& end.held(
                        final(final(os).writer()).written(),
                        final(final(os).vector())@,
                        final(final(os).slice())@,
                    )
                    &&& result == overall(given, flushed, closed)
                },
    {
        run(CodedOutputStream::vec(self), cb)
    }
}

/// The function's error comes first, then that of the flush, then that of closing the stream; and
/// if there is none, what the function gave is returned.
pub proof fn law_first_error_is_returned<T>(
    given: ProtobufResult<T>,
    flushed: ProtobufResult<()>,
    closed: ProtobufResult<()>,
    result: ProtobufResult<T>,
)
    requires
        result == overall(given, flushed, closed),
    ensures
        result is Ok <==> given is Ok && flushed is Ok && closed is Ok,
        given is Err || result is Ok ==> result == given,
        result matches Err(error) ==> {
            ||| given == Err::<T, ProtobufError>(error)
            ||| given is Ok && flushed == Err::<(), ProtobufError>(error)
            ||| given is Ok && flushed is Ok && closed == Err::<(), ProtobufError>(error)
        },
{
}

/// When the function is done and the stream closed, the target has every byte that the function
/// left in the stream: a vector or a slice in any case, and a writer if neither the flush nor
/// closing the stream failed; so also if no error is returned.
pub proof fn law_target_has_what_the_function_left<'a, W: Write + ?Sized, T>(
    left: CodedOutputStream<'a, W>,
    given: ProtobufResult<T>,
    middle: CodedOutputStream<'a, W>,
    flushed: ProtobufResult<()>,
    end: Output,
    failure: Option<std::io::Error>,
    closed: ProtobufResult<()>,
    written: Seq<u8>,
    vector: Seq<u8>,
    slice: Seq<u8>,
)
    requires
        flushed_behind(left, given, middle, flushed),
        output::flushed(middle@, end, failure, closed),
        end.held(written, vector, slice),
    ensures
        match left@ {
            Output::Writer { written: delivered, pending } => {
                &&& flushed is Ok && closed is Ok ==> written == delivered + pending
                &&& overall(given, flushed, closed) is Ok ==> written == delivered + pending
            },
            Output::Vec { contents } => {
                &&& vector == contents
                &&& overall(given, flushed, closed) == given
            },
            Output::Slice { filled, free } => {
                &&& slice == filled + free
                &&& overall(given, flushed, closed) == given
            },
        },
{
    if let Output::Writer { written: delivered, pending } = left@ {
        assert(delivered + pending + seq![] =~= delivered + pending);
    }
}

} // verus!
