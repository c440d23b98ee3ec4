//! Where a buffered stream sends its bytes.
use vstd::prelude::*;

verus! {

/// A destination for bytes, which may refuse them.
///
/// Implementing it for a type makes that type a target of
/// [`CodedOutputStream::new`](crate::coded_output_stream::CodedOutputStream::new).
pub trait Write {
    /// Every byte that has been taken so far, oldest first. It is up to the implementation to say
    /// where they are; code that is not verified leaves it unsaid.
    open spec fn written(&self) -> Seq<u8> {
        arbitrary()
    }

    /// The error that the latest refused call reported.
    open spec fn failure(&self) -> Option<std::io::Error> {
        arbitrary()
    }

    /// Takes all of `buf`, or reports an error after having taken some prefix of it.
    fn write_all(&mut self, buf: &[u8]) -> (result: Result<(), std::io::Error>)
        ensures
            match result {
                Ok(()) => final(self).written() == old(self).written() + buf@,
                Err(error) => {
                    &&& final(self).failure() == Some(error)
                    &&& exists|taken: int|
                        0 <= taken <= buf@.len() && #[trigger] took(
                            old(self).written(),
                            buf@,
                            taken,
                            final(self).written(),
                        )
                },
            },
    ;
}

/// `after` is `before` with the first `taken` bytes of `bytes` behind it.
pub open spec fn took(before: Seq<u8>, bytes: Seq<u8>, taken: int, after: Seq<u8>) -> bool {
    after == before + bytes.take(taken)
}

/// A vector takes every byte and never refuses.
impl Write for Vec<u8> {
    open spec fn written(&self) -> Seq<u8> {
        self@
    }

    open spec fn failure(&self) -> Option<std::io::Error> {
        None
    }

    fn write_all(&mut self, buf: &[u8]) -> (result: Result<(), std::io::Error>)
        ensures
            result is Ok,
            final(self)@ == old(self)@ + buf@,
    {
        self.extend_from_slice(buf);
        assert(self@ =~= old(self)@ + buf@);
        Ok(())
    }
}

/// What a vector has taken is what it holds, byte for byte.
pub proof fn law_vector_holds_what_it_took(vec: Vec<u8>)
    ensures
        vec.written() == vec@,
        vec.failure() is None,
{
}

} // verus!
