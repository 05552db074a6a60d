//! The stream decoder: from chunks of bytes to fragments of text.

use crate::event::{decode_line, line_outcome, DecodeError, Event, Failure, Outcome};
use crate::lines::{
    complete_lines, lemma_pending_newline_free, newline_free, pending, LineBuffer,
};
use crate::path::{FieldPath, Step};
use crate::views::view_each;
use vstd::prelude::*;

verus! {

/// Where a stream stands. A decoder starts `Active`. The sentinel makes it
/// `Done` and a line that cannot be decoded makes it `Failed`; it leaves
/// neither state again.
#[derive(Debug, Clone, Copy, PartialEq, Eq, Structural)]
pub enum StreamState {
    Active,
    Done,
    Failed,
}

/// What a run of lines has come to: the state reached, the fragments
/// found, in order, and the failure that ended the run, if one did.
pub struct Progress {
    pub state: StreamState,
    pub fragments: Seq<Seq<char>>,
    pub failure: Option<Failure>,
}

/// The progress of a run that has read nothing yet.
pub open spec fn at_rest(state: StreamState) -> Progress {
    Progress { state, fragments: Seq::empty(), failure: None }
}

/// The progress after one more line. Only an active stream reads it.
pub open spec fn advance(path: Seq<Step>, before: Progress, line: Seq<u8>) -> Progress {
    if before.state != StreamState::Active {
        before
    } else {
        match line_outcome(path, line) {
            Outcome::Noise => before,
            Outcome::NoField => before,
            Outcome::Done => Progress { state: StreamState::Done, ..before },
            Outcome::Fragment(text) => Progress {
                fragments: before.fragments.push(text),
                ..before
            },
            Outcome::Failure(failure) => Progress {
                state: StreamState::Failed,
                failure: Some(failure),
                ..before
            },
        }
    }
}

/// The progress of a stream in `state` over `lines`, read in order.
pub open spec fn run_lines(path: Seq<Step>, state: StreamState, lines: Seq<Seq<u8>>) -> Progress
    decreases lines.len(),
{
    if lines.len() == 0 {
        at_rest(state)
    } else {
        advance(path, run_lines(path, state, lines.drop_last()), lines.last())
    }
}

/// A decoder as contracts see it: its field path, the bytes of the line
/// that is still incomplete, and its state.
pub struct DecoderView {
    pub path: Seq<Step>,
    pub pending: Seq<u8>,
    pub state: StreamState,
}

impl DecoderView {
    /// Whether the buffered bytes are part of one line. This holds of every
    /// decoder.
    pub open spec fn well_formed(self) -> bool {
        newline_free(self.pending)
    }
}

/// What one chunk yields, as contracts see it.
pub struct DecodedView {
    pub fragments: Seq<Seq<char>>,
    pub failure: Option<Failure>,
}

/// The decoder after `chunk`. Framing goes on in every state: the lines
/// that the chunk completes leave the buffer, and what follows its last
/// newline is kept.
pub open spec fn decoder_after(decoder: DecoderView, chunk: Seq<u8>) -> DecoderView {
    let stream = decoder.pending + chunk;
    DecoderView {
        path: decoder.path,
        pending: pending(stream),
        state: run_lines(decoder.path, decoder.state, complete_lines(stream)).state,
    }
}

/// What `chunk` yields: the fragments of the lines that it completes, and
/// the failure of the first of them that cannot be decoded.
pub open spec fn decoded_from(decoder: DecoderView, chunk: Seq<u8>) -> DecodedView {
    let progress = run_lines(
        decoder.path,
        decoder.state,
        complete_lines(decoder.pending + chunk),
    );
    DecodedView { fragments: progress.fragments, failure: progress.failure }
}

/// What a decoder has yielded over several chunks: the fragments of all of
/// them, in order, and the first failure.
pub open spec fn joined(before: DecodedView, next: DecodedView) -> DecodedView {
    DecodedView {
        fragments: before.fragments + next.fragments,
        failure: if before.failure is Some {
            before.failure
        } else {
            next.failure
        },
    }
}

/// The decoder after a sequence of chunks, fed one at a time.
pub open spec fn decoder_after_each(decoder: DecoderView, chunks: Seq<Seq<u8>>) -> DecoderView
    decreases chunks.len(),
{
    if chunks.len() == 0 {
        decoder
    } else {
        decoder_after(decoder_after_each(decoder, chunks.drop_last()), chunks.last())
    }
}

/// What a sequence of chunks yields, fed one at a time.
pub open spec fn decoded_from_each(decoder: DecoderView, chunks: Seq<Seq<u8>>) -> DecodedView
    decreases chunks.len(),
{
    if chunks.len() == 0 {
        DecodedView { fragments: Seq::empty(), failure: None }
    } else {
        joined(
            decoded_from_each(decoder, chunks.drop_last()),
            decoded_from(decoder_after_each(decoder, chunks.drop_last()), chunks.last()),
        )
    }
}

/// What one chunk yields: the fragments to hand on, in stream order, and
/// the error that stopped the stream, if one did. The fragments that came
/// before the error are still delivered.
#[derive(Debug, Clone, PartialEq, Eq)]
pub struct Decoded {
    pub fragments: Vec<String>,
    pub error: Option<DecodeError>,
}

impl View for Decoded {
    type V = DecodedView;

    open spec fn view(&self) -> DecodedView {
        DecodedView {
            fragments: view_each(self.fragments@),
            failure: match self.error {
                Some(error) => Some(error@),
                None => None,
            },
        }
    }
}

/// Decodes one response stream, chunk by chunk.
pub struct StreamDecoder {
    path: FieldPath,
    buffer: LineBuffer,
    state: StreamState,
}

impl View for StreamDecoder {
    type V = DecoderView;

    closed spec fn view(&self) -> DecoderView {
        DecoderView { path: self.path@, pending: self.buffer@, state: self.state }
    }
}

impl StreamDecoder {
    /// A decoder for a new stream, whose events carry their text at `path`.
    pub fn new(path: FieldPath) -> (decoder: Self)
        ensures
            decoder@ == (DecoderView {
                path: path@,
                pending: Seq::empty(),
                state: StreamState::Active,
            }),
            decoder@.well_formed(),
    {
        StreamDecoder { path, buffer: LineBuffer::new(), state: StreamState::Active }
    }

    /// The state of the stream.
    pub fn state(&self) -> (state: StreamState)
        ensures
            state == self@.state,
    {
        self.state
    }

    /// Whether the sentinel has been seen.
    pub fn is_done(&self) -> (done: bool)
        ensures
            done == (self@.state == StreamState::Done),
    {
        self.state == StreamState::Done
    }

    /// The field path that the decoder was made with.
    pub fn path(&self) -> (path: &FieldPath)
        ensures
            path@ == self@.path,
    {
        &self.path
    }

    /// The bytes of the line that is still incomplete.
    pub fn buffered(&self) -> (bytes: &[u8])
        ensures
            bytes@ == self@.pending,
            self@.well_formed(),
    {
        self.buffer.as_slice()
    }

    /// Takes the next chunk of the stream and returns what it yields.
    ///
    /// The chunk is appended to the buffered bytes and every line that it
    /// completes is read in order, as long as the stream is active: a
    /// fragment is collected, the sentinel ends the stream, and a line that
    /// cannot be decoded fails it. Once the stream is not active, lines are
    /// dropped unread.
    pub fn feed(&mut self, chunk: &[u8]) -> (decoded: Decoded)
        ensures
            final(self)@ == decoder_after(old(self)@, chunk@),
            final(self)@.well_formed(),
            decoded@ == decoded_from(old(self)@, chunk@),
    {
        let ghost path = self.path@;
        let ghost start = self.state;
        let ghost stream = self.buffer@ + chunk@;
        let lines = self.buffer.push(chunk);
        let mut fragments: Vec<String> = Vec::new();
        let mut error: Option<DecodeError> = None;
        let mut i: usize = 0;
        assert(view_each(fragments@) =~= Seq::<Seq<char>>::empty());
        while i < lines.len() && self.state == StreamState::Active
            invariant
                i <= lines@.len(),
                self.path@ == path,
                self.buffer@ == pending(stream),
                view_each(lines@) == complete_lines(stream),
                run_lines(path, start, view_each(lines@).take(i as int)) == (Progress {
                    state: self.state,
                    fragments: view_each(fragments@),
                    failure: match error {
                        Some(e) => Some(e@),
                        None => None,
                    },
                }),
            decreases lines@.len() - i,
        {
            let ghost before = view_each(fragments@);
            let decoded = decode_line(lines[i].as_slice(), &self.path);
            assert(view_each(lines@).take(i + 1).drop_last() =~= view_each(lines@).take(i as int));
            match decoded {
                Ok(Event::Fragment(text)) => {
                    fragments.push(text);
                    assert(view_each(fragments@) =~= before.push(text@));
                },
                Ok(Event::Done) => {
                    self.state = StreamState::Done;
                },
                Ok(Event::Noise) => {},
                Ok(Event::NoField) => {},
                Err(e) => {
                    error = Some(e);
                    self.state = StreamState::Failed;
                },
            }
            i += 1;
        }
        proof {
            let all = view_each(lines@);
            let read = all.take(i as int);
            let unread = all.skip(i as int);
            assert(read + unread =~= all);
            lemma_run_resumes(path, start, read, unread);
            if i < lines@.len() {
                lemma_inactive_reads_nothing(path, self.state, unread);
            }
            lemma_pending_newline_free(stream);
        }
        Decoded { fragments, error }
    }

    /// Feeds a sequence of chunks, one after the other, and returns what
    /// they yield together: all fragments in stream order and the error
    /// that stopped the stream, if one did.
    pub fn feed_each(&mut self, chunks: &[Vec<u8>]) -> (decoded: Decoded)
        ensures
            final(self)@ == decoder_after_each(old(self)@, view_each(chunks@)),
            decoded@ == decoded_from_each(old(self)@, view_each(chunks@)),
    {
        let ghost start = self@;
        let mut fragments: Vec<String> = Vec::new();
        let mut error: Option<DecodeError> = None;
        let mut i: usize = 0;
        assert(view_each(fragments@) =~= Seq::<Seq<char>>::empty());
        while i < chunks.len()
            invariant
                i <= chunks@.len(),
                self@ == decoder_after_each(start, view_each(chunks@).take(i as int)),
                decoded_from_each(start, view_each(chunks@).take(i as int)) == (DecodedView {
                    fragments: view_each(fragments@),
                    failure: match error {
                        Some(e) => Some(e@),
                        None => None,
                    },
                }),
            decreases chunks@.len() - i,
        {
            let ghost before = view_each(fragments@);
            let mut next = self.feed(chunks[i].as_slice());
            assert(view_each(chunks@).take(i + 1).drop_last() =~= view_each(chunks@).take(
                i as int,
            ));
            let ghost added = view_each(next.fragments@);
            fragments.append(&mut next.fragments);
            assert(view_each(fragments@) =~= before + added);
            if error.is_none() {
                error = next.error;
            }
            i += 1;
        }
        assert(view_each(chunks@).take(i as int) =~= view_each(chunks@));
        Decoded { fragments, error }
    }
}

/// Only a failed run carries a failure, and a run that starts active has
/// failed only if it carries one.
pub proof fn lemma_failure_means_failed(path: Seq<Step>, state: StreamState, lines: Seq<Seq<u8>>)
    ensures
        run_lines(path, state, lines).failure is Some ==> run_lines(path, state, lines).state
            == StreamState::Failed,
        state == StreamState::Active && run_lines(path, state, lines).state
            == StreamState::Failed ==> run_lines(path, state, lines).failure is Some,
    decreases lines.len(),
{
    if lines.len() != 0 {
        lemma_failure_means_failed(path, state, lines.drop_last());
    }
}

/// A stream that is not active reads nothing: it stays in its state and
/// yields neither a fragment nor a failure, whatever the lines hold.
pub proof fn lemma_inactive_reads_nothing(path: Seq<Step>, state: StreamState, lines: Seq<Seq<u8>>)
    requires
        state != StreamState::Active,
    ensures
        run_lines(path, state, lines) == at_rest(state),
    decreases lines.len(),
{
    if lines.len() != 0 {
        lemma_inactive_reads_nothing(path, state, lines.drop_last());
    }
}

/// A run can be resumed: reading `first` and then `second` from the state
/// reached gives the state of reading both at once, the fragments of the
/// two runs in order, and the failure of whichever run failed.
pub proof fn lemma_run_resumes(
    path: Seq<Step>,
    state: StreamState,
    first: Seq<Seq<u8>>,
    second: Seq<Seq<u8>>,
)
    ensures
        ({
            let a = run_lines(path, state, first);
            let b = run_lines(path, a.state, second);
            let whole = run_lines(path, state, first + second);
            &&& whole.state == b.state
            &&& whole.fragments == a.fragments + b.fragments
            &&& whole.failure == if a.failure is Some {
                a.failure
            } else {
                b.failure
            }
        }),
    decreases second.len(),
{
    if second.len() != 0 {
        let front = second.drop_last();
        let reached = run_lines(path, state, first).state;
        lemma_run_resumes(path, state, first, front);
        lemma_failure_means_failed(path, state, first);
        assert((first + second).drop_last() =~= first + front);
        if reached != StreamState::Active {
            lemma_inactive_reads_nothing(path, reached, front);
        }
    }
}

} // verus!
