//! Line framing: cutting a byte stream at every newline.

use crate::views::view_each;
use vstd::prelude::*;

verus! {

/// The byte that ends a line.
pub const NEWLINE: u8 = 0x0a;

/// The unterminated tail of a stream: the bytes after its last newline.
pub open spec fn pending(stream: Seq<u8>) -> Seq<u8>
    decreases stream.len(),
{
    if stream.len() == 0 || stream.last() == NEWLINE {
        Seq::empty()
    } else {
        pending(stream.drop_last()).push(stream.last())
    }
}

/// The complete lines of a stream, in order, each without its newline.
pub open spec fn complete_lines(stream: Seq<u8>) -> Seq<Seq<u8>>
    decreases stream.len(),
{
    if stream.len() == 0 {
        Seq::empty()
    } else if stream.last() == NEWLINE {
        complete_lines(stream.drop_last()).push(pending(stream.drop_last()))
    } else {
        complete_lines(stream.drop_last())
    }
}

/// Whether no byte of `bytes` is a newline.
pub open spec fn newline_free(bytes: Seq<u8>) -> bool {
    forall|i: int| 0 <= i < bytes.len() ==> bytes[i] != NEWLINE
}

/// The stream that a list of lines came from: every line followed by a
/// newline.
pub open spec fn join_lines(lines: Seq<Seq<u8>>) -> Seq<u8>
    decreases lines.len(),
{
    if lines.len() == 0 {
        Seq::empty()
    } else {
        join_lines(lines.drop_last()) + lines.last().push(NEWLINE)
    }
}

/// The tail of a stream holds no newline.
pub proof fn lemma_pending_newline_free(stream: Seq<u8>)
    ensures
        newline_free(pending(stream)),
    decreases stream.len(),
{
    if stream.len() != 0 && stream.last() != NEWLINE {
        lemma_pending_newline_free(stream.drop_last());
    }
}

/// No complete line holds a newline.
pub proof fn lemma_lines_newline_free(stream: Seq<u8>)
    ensures
        forall|k: int|
            0 <= k < complete_lines(stream).len() ==> newline_free(
                #[trigger] complete_lines(stream)[k],
            ),
    decreases stream.len(),
{
    if stream.len() != 0 {
        let front = stream.drop_last();
        lemma_lines_newline_free(front);
        lemma_pending_newline_free(front);
        assert forall|k: int| 0 <= k < complete_lines(stream).len() implies newline_free(
            #[trigger] complete_lines(stream)[k],
        ) by {
            if k < complete_lines(front).len() {
                assert(newline_free(complete_lines(front)[k]));
            }
        }
    }
}

/// Framing loses nothing: the complete lines, each with its newline put
/// back, followed by the tail, are the stream.
pub proof fn lemma_framing_reassembles(stream: Seq<u8>)
    ensures
        join_lines(complete_lines(stream)) + pending(stream) == stream,
    decreases stream.len(),
{
    if stream.len() != 0 {
        let front = stream.drop_last();
        lemma_framing_reassembles(front);
        assert(front.push(stream.last()) == stream);
        if stream.last() == NEWLINE {
            assert(complete_lines(stream).drop_last() == complete_lines(front));
        }
    }
}

/// A stream without a newline is all tail.
pub proof fn lemma_newline_free_is_pending(bytes: Seq<u8>)
    requires
        newline_free(bytes),
    ensures
        pending(bytes) == bytes,
        complete_lines(bytes) == Seq::<Seq<u8>>::empty(),
    decreases bytes.len(),
{
    if bytes.len() != 0 {
        lemma_newline_free_is_pending(bytes.drop_last());
    }
}

/// Framing can be resumed: the tail of a stream followed by more bytes has
/// the same tail as the whole, and the lines of the whole are those of the
/// stream followed by those that the continuation completes.
pub proof fn lemma_framing_resumes(stream: Seq<u8>, more: Seq<u8>)
    ensures
        pending(stream + more) == pending(pending(stream) + more),
        complete_lines(stream + more) == complete_lines(stream) + complete_lines(
            pending(stream) + more,
        ),
    decreases more.len(),
{
    if more.len() == 0 {
        lemma_pending_newline_free(stream);
        lemma_newline_free_is_pending(pending(stream));
    } else {
        let front = more.drop_last();
        lemma_framing_resumes(stream, front);
        assert((stream + more).drop_last() == stream + front);
        assert((pending(stream) + more).drop_last() == pending(stream) + front);
    }
}

/// The bytes received since the last newline, kept until the line they
/// belong to is complete.
pub struct LineBuffer {
    bytes: Vec<u8>,
}

impl View for LineBuffer {
    type V = Seq<u8>;

    closed spec fn view(&self) -> Seq<u8> {
        self.bytes@
    }
}

impl LineBuffer {
    #[verifier::type_invariant]
    spec fn holds_partial_line(&self) -> bool {
        newline_free(self.bytes@)
    }

    /// An empty buffer.
    pub fn new() -> (buffer: Self)
        ensures
            buffer@ == Seq::<u8>::empty(),
    {
        LineBuffer { bytes: Vec::new() }
    }

    /// The buffered bytes: the part of a line that has arrived so far.
    pub fn as_slice(&self) -> (bytes: &[u8])
        ensures
            bytes@ == self@,
            newline_free(self@),
    {
        proof {
            use_type_invariant(self);
        }
        self.bytes.as_slice()
    }

    /// Appends `chunk` and splits off every line that it completes. The
    /// lines come back in stream order without their newline; what follows
    /// the last newline stays buffered.
    pub fn push(&mut self, chunk: &[u8]) -> (lines: Vec<Vec<u8>>)
        ensures
            final(self)@ == pending(old(self)@ + chunk@),
            view_each(lines@) == complete_lines(old(self)@ + chunk@),
    {
        proof {
            use_type_invariant(&*self);
            lemma_newline_free_is_pending(self.bytes@);
        }
        let ghost start = self.bytes@;
        let mut partial: Vec<u8> = Vec::new();
        core::mem::swap(&mut self.bytes, &mut partial);
        let mut lines: Vec<Vec<u8>> = Vec::new();
        let mut i: usize = 0;
        while i < chunk.len()
            invariant
                i <= chunk.len(),
                partial@ == pending(start + chunk@.take(i as int)),
                view_each(lines@) == complete_lines(start + chunk@.take(i as int)),
            decreases chunk.len() - i,
        {
            let byte = chunk[i];
            assert((start + chunk@.take(i + 1)).drop_last() == start + chunk@.take(i as int));
            if byte == NEWLINE {
                let mut line: Vec<u8> = Vec::new();
                core::mem::swap(&mut partial, &mut line);
                lines.push(line);
            } else {
                partial.push(byte);
            }
            i += 1;
        }
        proof {
            assert(chunk@.take(i as int) == chunk@);
            lemma_pending_newline_free(start + chunk@);
        }
        core::mem::swap(&mut self.bytes, &mut partial);
        lines
    }
}

} // verus!
