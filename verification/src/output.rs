//! The model of a stream: where the bytes that it was given are, and how a write moves them.
use vstd::prelude::*;

use crate::error::{IoError, ProtobufError, ProtobufResult};

verus! {

/// How many bytes are held back for a writer. It is what a `BufWriter` holds, so that a stream
/// over one mostly goes past that second buffer.
pub const OUTPUT_STREAM_BUFFER_SIZE: usize = 8 * 1024;

/// Where the bytes are that a stream was given.
#[verifier::ext_equal]
pub enum Output {
    /// Some have reached the writer, the latest ones are pending in the buffer.
    Writer { written: Seq<u8>, pending: Seq<u8> },
    /// All stand at the end of the vector.
    Vec { contents: Seq<u8> },
    /// All stand at the front of the slice; the rest of it is as it was.
    Slice { filled: Seq<u8>, free: Seq<u8> },
}

/// The pieces one behind the other.
pub open spec fn concat(pieces: Seq<Seq<u8>>) -> Seq<u8>
    decreases pieces.len(),
{
    if pieces.len() == 0 {
        seq![]
    } else {
        concat(pieces.drop_last()) + pieces.last()
    }
}

impl Output {
    /// Every byte that was taken, wherever it is now; for a vector or a writer also what it held
    /// before.
    pub open spec fn accepted(self) -> Seq<u8> {
        match self {
            Output::Writer { written, pending } => written + pending,
            Output::Vec { contents } => contents,
            Output::Slice { filled, free } => filled,
        }
    }

    /// No more is pending than the buffer holds.
    pub open spec fn valid(self) -> bool {
        self matches Output::Writer { written, pending } ==> pending.len()
            <= OUTPUT_STREAM_BUFFER_SIZE
    }

    /// There is space for `count` more bytes: a slice ends, the others do not.
    pub open spec fn has_space(self, count: nat) -> bool {
        self matches Output::Slice { filled, free } ==> count <= free.len()
    }

    /// The buffer has to be emptied before `count` more bytes can go into it.
    pub open spec fn overflows(self, count: nat) -> bool {
        self matches Output::Writer { written, pending } && pending.len() + count
            > OUTPUT_STREAM_BUFFER_SIZE
    }

    /// What a write of `bytes` leads to when nothing refuses it.
    pub open spec fn put(self, bytes: Seq<u8>) -> Output {
        match self {
            Output::Writer { written, pending } => {
                if !self.overflows(bytes.len()) {
                    Output::Writer { written, pending: pending + bytes }
                } else if bytes.len() < OUTPUT_STREAM_BUFFER_SIZE {
                    Output::Writer { written: written + pending, pending: bytes }
                } else {
                    Output::Writer { written: written + pending + bytes, pending: seq![] }
                }
            },
            Output::Vec { contents } => Output::Vec { contents: contents + bytes },
            Output::Slice { filled, free } => {
                Output::Slice { filled: filled + bytes, free: free.skip(bytes.len() as int) }
            },
        }
    }

    /// What writing the pieces one after the other leads to when nothing refuses them.
    pub open spec fn put_all(self, pieces: Seq<Seq<u8>>) -> Output
        decreases pieces.len(),
    {
        if pieces.len() == 0 {
            self
        } else {
            self.put_all(pieces.drop_last()).put(pieces.last())
        }
    }

    /// What emptying the buffer leads to when the writer takes it.
    pub open spec fn drained(self) -> Output {
        match self {
            Output::Writer { written, pending } => {
                Output::Writer { written: written + pending, pending: seq![] }
            },
            _ => self,
        }
    }

    /// What the target holds is what was moved there: `written` is what the writer has, `vector`
    /// and `slice` are the contents of the others, and the one that is the target counts. A writer
    /// does not have the pending bytes.
    pub open spec fn held(self, written: Seq<u8>, vector: Seq<u8>, slice: Seq<u8>) -> bool {
        match self {
            Output::Writer { written: delivered, pending } => written == delivered,
            Output::Vec { contents } => vector == contents,
            Output::Slice { filled, free } => slice == filled + free,
        }
    }

    /// The writer took `taken` of the pending bytes and failed; all of them stay pending.
    pub open spec fn drain_broke_off(self, taken: int, after: Output) -> bool {
        self matches Output::Writer { written, pending } && 0 <= taken <= pending.len() && after
            == (Output::Writer { written: written + pending.take(taken), pending })
    }

    /// The writer took the pending bytes and then `taken` of `bytes`, which were handed to it
    /// past the buffer, and failed.
    pub open spec fn direct_broke_off(self, bytes: Seq<u8>, taken: int, after: Output) -> bool {
        self matches Output::Writer { written, pending } && 0 <= taken <= bytes.len() && after
            == (Output::Writer {
            written: written + pending + bytes.take(taken),
            pending: seq![],
        })
    }
}

/// The message of the error for a slice that is used up.
pub open spec fn slice_too_small() -> Seq<char> {
    "given slice is too small to serialize the message"@
}

/// The error of a target that refuses bytes: what the writer reported, or that the slice is too
/// small. A vector has none.
pub open spec fn refusal(
    target: Output,
    failure: Option<std::io::Error>,
    error: ProtobufError,
) -> bool {
    match target {
        Output::Writer { written, pending } => failure matches Some(reported) && error
            == ProtobufError::IoError(IoError::Writer(reported)),
        Output::Slice { filled, free } => error matches ProtobufError::IoError(IoError::Other(
            message,
        )) && message@ == slice_too_small(),
        Output::Vec { contents } => false,
    }
}

/// A write of `bytes` was refused and left `after`: a slice has no space and is unchanged; a
/// writer failed on the buffer, or on bytes too many for the buffer.
pub open spec fn put_refused(before: Output, bytes: Seq<u8>, after: Output) -> bool {
    match before {
        Output::Writer { written, pending } => {
            &&& before.overflows(bytes.len())
            &&& {
                ||| exists|taken: int| before.drain_broke_off(taken, after)
                ||| bytes.len() >= OUTPUT_STREAM_BUFFER_SIZE && exists|taken: int|
                    before.direct_broke_off(bytes, taken, after)
            }
        },
        Output::Slice { filled, free } => !before.has_space(bytes.len()) && after == before,
        Output::Vec { contents } => false,
    }
}

/// The pieces before number `k` were written, and number `k` was refused.
pub open spec fn refused_at(
    before: Output,
    pieces: Seq<Seq<u8>>,
    k: int,
    after: Output,
) -> bool {
    &&& 0 <= k < pieces.len()
    &&& before.has_space(concat(pieces.take(k)).len())
    &&& put_refused(before.put_all(pieces.take(k)), pieces[k], after)
}

/// What writing the pieces one after the other may lead to, and with which result.
///
/// It is `Ok` exactly when nothing refused a piece, and then every piece was written. Otherwise
/// the pieces in front of the refused one were written, and the error is that of the target. A
/// vector refuses nothing, a slice only what it has no space for, and a writer is asked only when
/// the buffer overflows.
pub open spec fn wrote(
    before: Output,
    pieces: Seq<Seq<u8>>,
    after: Output,
    failure: Option<std::io::Error>,
    result: ProtobufResult<()>,
) -> bool {
    match result {
        Ok(()) => before.has_space(concat(pieces).len()) && after == before.put_all(pieces),
        Err(error) => refusal(before, failure, error) && exists|k: int|
            refused_at(before, pieces, k, after),
    }
}

/// The pieces in front of a message were written and `k` of its own, and then it gave up.
pub open spec fn gave_up_after(
    before: Output,
    front: Seq<Seq<u8>>,
    message: Seq<Seq<u8>>,
    k: int,
    after: Output,
) -> bool {
    &&& 0 <= k <= message.len()
    &&& before.has_space(concat(front + message.take(k)).len())
    &&& after == before.put_all(front + message.take(k))
}

/// What writing some pieces and a message behind them may lead to, and with which result.
///
/// It is what writing the pieces and then those of the message leads to, but that the message may
/// give up with an error of its own.
pub open spec fn wrote_message(
    before: Output,
    front: Seq<Seq<u8>>,
    message: Seq<Seq<u8>>,
    after: Output,
    failure: Option<std::io::Error>,
    result: ProtobufResult<()>,
) -> bool {
    ||| wrote(before, front + message, after, failure, result)
    ||| result is Err && exists|k: int| gave_up_after(before, front, message, k, after)
}

/// What emptying the buffer may lead to, and with which result.
///
/// Only a writer has a buffer, and only a writer can fail; what it failed on stays pending.
pub open spec fn flushed(
    before: Output,
    after: Output,
    failure: Option<std::io::Error>,
    result: ProtobufResult<()>,
) -> bool {
    match result {
        Ok(()) => after == before.drained(),
        Err(error) => before is Writer && refusal(before, failure, error) && exists|taken: int|
            before.drain_broke_off(taken, after),
    }
}

/// Writing one piece.
pub proof fn lemma_one_piece(before: Output, bytes: Seq<u8>)
    ensures
        concat(seq![bytes]) == bytes,
        before.put_all(seq![bytes]) == before.put(bytes),
        forall|after: Output| #[trigger]
            put_refused(before, bytes, after) ==> refused_at(before, seq![bytes], 0, after),
        forall|after: Output, k: int| #[trigger]
            refused_at(before, seq![bytes], k, after) ==> put_refused(before, bytes, after),
{
    reveal_with_fuel(concat, 2);
    reveal_with_fuel(Output::put_all, 2);
    let pieces = seq![bytes];
    assert(pieces.drop_last() =~= seq![]);
    assert(pieces.take(0) =~= seq![]);
    assert(concat(pieces) =~= bytes);
}

/// Two lists of pieces one behind the other.
pub proof fn lemma_concat_append(one: Seq<Seq<u8>>, other: Seq<Seq<u8>>)
    ensures
        concat(one + other) == concat(one) + concat(other),
    decreases other.len(),
{
    if other.len() == 0 {
        assert(one + other =~= one);
        assert(concat(one) + concat(other) =~= concat(one));
    } else {
        assert((one + other).drop_last() =~= one + other.drop_last());
        lemma_concat_append(one, other.drop_last());
        assert(concat(one) + concat(other) =~= concat(one) + concat(other.drop_last())
            + other.last());
    }
}

/// Writing two lists of pieces is writing the one and then the other.
pub proof fn lemma_put_all_append(before: Output, one: Seq<Seq<u8>>, other: Seq<Seq<u8>>)
    ensures
        before.put_all(one + other) == before.put_all(one).put_all(other),
    decreases other.len(),
{
    if other.len() == 0 {
        assert(one + other =~= one);
    } else {
        assert((one + other).drop_last() =~= one + other.drop_last());
        lemma_put_all_append(before, one, other.drop_last());
    }
}

/// Where the bytes are after writing pieces for which there is space.
pub proof fn lemma_put_all(before: Output, pieces: Seq<Seq<u8>>)
    requires
        before.has_space(concat(pieces).len()),
    ensures
        before.put_all(pieces).accepted() == before.accepted() + concat(pieces),
        before.valid() ==> before.put_all(pieces).valid(),
        match (before, before.put_all(pieces)) {
            (Output::Writer { .. }, Output::Writer { .. }) => true,
            (Output::Vec { .. }, Output::Vec { .. }) => true,
            (Output::Slice { filled: _, free: f0 }, Output::Slice { filled: _, free: f1 }) => {
                f1 == f0.skip(concat(pieces).len() as int)
            },
            _ => false,
        },
    decreases pieces.len(),
{
    if pieces.len() == 0 {
        assert(before.accepted() + concat(pieces) =~= before.accepted());
        if let Output::Slice { filled, free } = before {
            assert(free.skip(0) =~= free);
        }
    } else {
        let init = pieces.drop_last();
        lemma_put_all(before, init);
        let middle = before.put_all(init);
        assert(middle.put(pieces.last()).accepted() =~= middle.accepted() + pieces.last());
        assert(before.accepted() + concat(pieces) =~= before.accepted() + concat(init)
            + pieces.last());
        if let Output::Slice { filled, free } = before {
            assert(free.skip(concat(init).len() as int).skip(pieces.last().len() as int)
                =~= free.skip(concat(pieces).len() as int));
        }
    }
}

/// Writing pieces for which the buffer has space leaves them pending. Other targets have no
/// buffer, and keep their kind.
pub proof fn lemma_put_all_buffered(before: Output, pieces: Seq<Seq<u8>>)
    requires
        !before.overflows(concat(pieces).len()),
    ensures
        before is Writer ==> before.put_all(pieces) == (Output::Writer {
            written: before->written,
            pending: before->pending + concat(pieces),
        }),
        before is Writer <==> before.put_all(pieces) is Writer,
    decreases pieces.len(),
{
    if pieces.len() == 0 {
        if before is Writer {
            assert(before->pending + concat(pieces) =~= before->pending);
        }
    } else {
        lemma_put_all_buffered(before, pieces.drop_last());
        if before is Writer {
            assert(before->pending + concat(pieces) =~= before->pending + concat(
                pieces.drop_last(),
            ) + pieces.last());
        }
    }
}

/// A write that succeeded, and then another.
pub proof fn lemma_wrote_both(
    before: Output,
    one: Seq<Seq<u8>>,
    middle: Output,
    other: Seq<Seq<u8>>,
    after: Output,
    failure: Option<std::io::Error>,
    result: ProtobufResult<()>,
)
    requires
        before.has_space(concat(one).len()),
        middle == before.put_all(one),
        wrote(middle, other, after, failure, result),
    ensures
        wrote(before, one + other, after, failure, result),
{
    lemma_put_all(before, one);
    match result {
        Ok(()) => {
            lemma_concat_append(one, other);
            lemma_put_all_append(before, one, other);
        },
        Err(error) => {
            let k = choose|k: int| refused_at(middle, other, k, after);
            let pieces = one + other;
            let taken = other.take(k);
            assert(pieces.take(one.len() + k) =~= one + taken);
            lemma_concat_append(one, taken);
            lemma_put_all_append(before, one, taken);
            assert(refused_at(before, pieces, one.len() + k, after));
        },
    }
}

/// A write that failed, so that another behind it was not tried.
pub proof fn lemma_wrote_first(
    before: Output,
    one: Seq<Seq<u8>>,
    after: Output,
    other: Seq<Seq<u8>>,
    failure: Option<std::io::Error>,
    result: ProtobufResult<()>,
)
    requires
        result is Err,
        wrote(before, one, after, failure, result),
    ensures
        wrote(before, one + other, after, failure, result),
{
    let k = choose|k: int| refused_at(before, one, k, after);
    assert((one + other).take(k) =~= one.take(k));
    assert(refused_at(before, one + other, k, after));
}

/// Writing one list of pieces, and, if that succeeds, another, is writing both. If both together
/// fit the buffer, so does each in its turn.
pub proof fn lemma_sequence(before: Output, one: Seq<Seq<u8>>, other: Seq<Seq<u8>>)
    ensures
        forall|
            middle: Output,
            failure: Option<std::io::Error>,
            result: ProtobufResult<()>,
            after: Output,
            last_failure: Option<std::io::Error>,
            last_result: ProtobufResult<()>,
        |
            #![trigger wrote(before, one, middle, failure, result),
                wrote(middle, other, after, last_failure, last_result)]
            result is Ok && wrote(before, one, middle, failure, result) && wrote(
                middle,
                other,
                after,
                last_failure,
                last_result,
            ) ==> wrote(before, one + other, after, last_failure, last_result),
        forall|after: Output, failure: Option<std::io::Error>, result: ProtobufResult<()>|
            result is Err && #[trigger] wrote(before, one, after, failure, result) ==> wrote(
                before,
                one + other,
                after,
                failure,
                result,
            ),
        !before.overflows(concat(one + other).len()) ==> !before.overflows(concat(one).len())
            && !before.put_all(one).overflows(concat(other).len()),
{
    lemma_concat_append(one, other);
    if !before.overflows(concat(one + other).len()) {
        lemma_put_all_buffered(before, one);
    }
    assert forall|
        middle: Output,
        failure: Option<std::io::Error>,
        result: ProtobufResult<()>,
        after: Output,
        last_failure: Option<std::io::Error>,
        last_result: ProtobufResult<()>,
    |
        #![trigger wrote(before, one, middle, failure, result),
            wrote(middle, other, after, last_failure, last_result)]
        result is Ok && wrote(before, one, middle, failure, result) && wrote(
            middle,
            other,
            after,
            last_failure,
            last_result,
        ) implies wrote(before, one + other, after, last_failure, last_result) by {
        lemma_wrote_both(before, one, middle, other, after, last_failure, last_result);
    }
    assert forall|after: Output, failure: Option<std::io::Error>, result: ProtobufResult<()>|
        result is Err && #[trigger] wrote(before, one, after, failure, result) implies wrote(
        before,
        one + other,
        after,
        failure,
        result,
    ) by {
        lemma_wrote_first(before, one, after, other, failure, result);
    }
}

/// Writing pieces, and, if that succeeds, other pieces and a message, is writing all of them. If
/// all of them together fit the buffer, so does each part in its turn.
pub proof fn lemma_message_behind(
    before: Output,
    one: Seq<Seq<u8>>,
    front: Seq<Seq<u8>>,
    message: Seq<Seq<u8>>,
)
    ensures
        forall|
            middle: Output,
            failure: Option<std::io::Error>,
            result: ProtobufResult<()>,
            after: Output,
            last_failure: Option<std::io::Error>,
            last_result: ProtobufResult<()>,
        |
            #![trigger wrote(before, one, middle, failure, result),
                wrote_message(middle, front, message, after, last_failure, last_result)]
            result is Ok && wrote(before, one, middle, failure, result) && wrote_message(
                middle,
                front,
                message,
                after,
                last_failure,
                last_result,
            ) ==> wrote_message(before, one + front, message, after, last_failure, last_result),
        forall|after: Output, failure: Option<std::io::Error>, result: ProtobufResult<()>|
            result is Err && #[trigger] wrote(before, one, after, failure, result)
                ==> wrote_message(before, one + front, message, after, failure, result),
        !before.overflows(concat(one + front + message).len()) ==> !before.overflows(
            concat(one).len(),
        ) && !before.put_all(one).overflows(concat(front + message).len()),
{
    assert(one + (front + message) =~= one + front + message);
    lemma_sequence(before, one, front + message);
    assert forall|
        middle: Output,
        failure: Option<std::io::Error>,
        result: ProtobufResult<()>,
        after: Output,
        last_failure: Option<std::io::Error>,
        last_result: ProtobufResult<()>,
    |
        #![trigger wrote(before, one, middle, failure, result),
            wrote_message(middle, front, message, after, last_failure, last_result)]
        result is Ok && wrote(before, one, middle, failure, result) && wrote_message(
            middle,
            front,
            message,
            after,
            last_failure,
            last_result,
        ) implies wrote_message(
        before,
        one + front,
        message,
        after,
        last_failure,
        last_result,
    ) by {
        if !wrote(middle, front + message, after, last_failure, last_result) {
            let k = choose|k: int| gave_up_after(middle, front, message, k, after);
            let behind = front + message.take(k);
            assert(one + behind =~= one + front + message.take(k));
            lemma_put_all(before, one);
            lemma_concat_append(one, behind);
            lemma_put_all_append(before, one, behind);
            assert(gave_up_after(before, one + front, message, k, after));
        }
    }
}

} // verus!
