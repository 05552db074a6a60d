//! What holds of the decoder for every stream and every way of cutting it
//! into chunks.

use crate::decoder::{
    advance, at_rest, decoded_from, decoded_from_each, decoder_after, decoder_after_each, joined,
    lemma_failure_means_failed, lemma_inactive_reads_nothing, lemma_run_resumes, run_lines,
    DecodedView, DecoderView, Progress, StreamState,
};
use crate::event::Failure;
use crate::json::json_parse;
use crate::lines::{
    complete_lines, lemma_framing_resumes, lemma_newline_free_is_pending, pending,
};
use crate::path::Step;
use crate::token::{begins_with, marker, payload, sentinel, token_of, TokenView};
use vstd::prelude::*;
use vstd::utf8::{decode_utf8, valid_utf8};

verus! {

/// A chunk boundary changes nothing: feeding `first` and then `second`
/// leaves the decoder where feeding both as one chunk leaves it, and
/// yields the same fragments in the same order and the same failure.
/// The boundary may fall anywhere: inside the marker, inside a payload or
/// inside the encoding of one character.
pub proof fn lemma_chunk_boundary(decoder: DecoderView, first: Seq<u8>, second: Seq<u8>)
    ensures
        decoder_after(decoder_after(decoder, first), second) == decoder_after(
            decoder,
            first + second,
        ),
        joined(decoded_from(decoder, first), decoded_from(decoder_after(decoder, first), second))
            == decoded_from(decoder, first + second),
{
    let stream = decoder.pending + first;
    assert(decoder.pending + (first + second) =~= stream + second);
    lemma_framing_resumes(stream, second);
    lemma_run_resumes(
        decoder.path,
        decoder.state,
        complete_lines(stream),
        complete_lines(pending(stream) + second),
    );
}

/// An empty chunk changes nothing and yields nothing.
pub proof fn lemma_empty_chunk(decoder: DecoderView)
    requires
        decoder.well_formed(),
    ensures
        decoder_after(decoder, Seq::empty()) == decoder,
        decoded_from(decoder, Seq::empty()) == (DecodedView {
            fragments: Seq::empty(),
            failure: None,
        }),
{
    lemma_newline_free_is_pending(decoder.pending);
}

/// However a stream is cut into chunks, the decoder ends where the whole
/// stream fed as one chunk leaves it, and yields the same fragments in the
/// same order and the same failure.
pub proof fn lemma_chunking_is_irrelevant(decoder: DecoderView, chunks: Seq<Seq<u8>>)
    requires
        decoder.well_formed(),
    ensures
        decoder_after_each(decoder, chunks) == decoder_after(decoder, chunks.flatten()),
        decoded_from_each(decoder, chunks) == decoded_from(decoder, chunks.flatten()),
    decreases chunks.len(),
{
    if chunks.len() == 0 {
        lemma_empty_chunk(decoder);
    } else {
        let front = chunks.drop_last();
        lemma_chunking_is_irrelevant(decoder, front);
        front.lemma_flatten_push(chunks.last());
        assert(front.push(chunks.last()) =~= chunks);
        lemma_chunk_boundary(decoder, front.flatten(), chunks.last());
    }
}

/// At any point the buffer holds exactly the unterminated tail of the
/// stream seen so far.
pub proof fn lemma_buffer_is_tail(path: Seq<Step>, chunks: Seq<Seq<u8>>)
    ensures
        decoder_after_each(
            DecoderView { path, pending: Seq::empty(), state: StreamState::Active },
            chunks,
        ).pending == pending(chunks.flatten()),
{
    let fresh = DecoderView { path, pending: Seq::empty(), state: StreamState::Active };
    lemma_chunking_is_irrelevant(fresh, chunks);
    assert(fresh.pending + chunks.flatten() =~= chunks.flatten());
}

/// Two ways of cutting the same stream into chunks give the same result.
pub proof fn lemma_same_stream_same_result(
    decoder: DecoderView,
    one: Seq<Seq<u8>>,
    other: Seq<Seq<u8>>,
)
    requires
        decoder.well_formed(),
        one.flatten() == other.flatten(),
    ensures
        decoder_after_each(decoder, one) == decoder_after_each(decoder, other),
        decoded_from_each(decoder, one) == decoded_from_each(decoder, other),
{
    lemma_chunking_is_irrelevant(decoder, one);
    lemma_chunking_is_irrelevant(decoder, other);
}

/// Lines without the marker yield nothing: no fragment and no failure, and
/// the stream stays as it was.
pub proof fn lemma_noise_yields_nothing(path: Seq<Step>, state: StreamState, lines: Seq<Seq<u8>>)
    requires
        forall|k: int| 0 <= k < lines.len() ==> !begins_with(#[trigger] lines[k], marker()),
    ensures
        run_lines(path, state, lines) == at_rest(state),
    decreases lines.len(),
{
    if lines.len() != 0 {
        lemma_noise_yields_nothing(path, state, lines.drop_last());
    }
}

/// Chunks that complete no line with the marker yield no fragment and no
/// failure, and leave the state of the stream as it was.
pub proof fn lemma_noise_chunks_yield_nothing(decoder: DecoderView, chunks: Seq<Seq<u8>>)
    requires
        decoder.well_formed(),
        forall|k: int|
            0 <= k < complete_lines(decoder.pending + chunks.flatten()).len() ==> !begins_with(
                #[trigger] complete_lines(decoder.pending + chunks.flatten())[k],
                marker(),
            ),
    ensures
        decoded_from_each(decoder, chunks) == (DecodedView {
            fragments: Seq::empty(),
            failure: None,
        }),
        decoder_after_each(decoder, chunks).state == decoder.state,
{
    lemma_chunking_is_irrelevant(decoder, chunks);
    lemma_noise_yields_nothing(
        decoder.path,
        decoder.state,
        complete_lines(decoder.pending + chunks.flatten()),
    );
}

/// Once a stream is done or has failed, no chunk yields anything and the
/// state stays, whatever the chunk holds.
pub proof fn lemma_ended_stream_stays_silent(decoder: DecoderView, chunk: Seq<u8>)
    requires
        decoder.state != StreamState::Active,
    ensures
        decoder_after(decoder, chunk).state == decoder.state,
        decoded_from(decoder, chunk) == (DecodedView { fragments: Seq::empty(), failure: None }),
{
    lemma_inactive_reads_nothing(
        decoder.path,
        decoder.state,
        complete_lines(decoder.pending + chunk),
    );
}

/// Once a stream is done or has failed, no sequence of chunks yields
/// anything.
pub proof fn lemma_ended_stream_stays_silent_each(decoder: DecoderView, chunks: Seq<Seq<u8>>)
    requires
        decoder.state != StreamState::Active,
    ensures
        decoder_after_each(decoder, chunks).state == decoder.state,
        decoded_from_each(decoder, chunks) == (DecodedView {
            fragments: Seq::empty(),
            failure: None,
        }),
    decreases chunks.len(),
{
    if chunks.len() != 0 {
        lemma_ended_stream_stays_silent_each(decoder, chunks.drop_last());
        lemma_ended_stream_stays_silent(
            decoder_after_each(decoder, chunks.drop_last()),
            chunks.last(),
        );
    }
}

/// The line `data: [DONE]` is the sentinel.
pub proof fn lemma_done_line()
    ensures
        token_of(marker() + sentinel()) == TokenView::Done,
{
    let line = marker() + sentinel();
    assert(line.take(6) =~= marker());
    assert(line.subrange(6, 12) =~= sentinel());
}

/// After the sentinel nothing more is read: what follows in the stream
/// adds no fragment and no failure, and the stream stays done.
pub proof fn lemma_nothing_after_done(
    path: Seq<Step>,
    before: Seq<Seq<u8>>,
    done: Seq<u8>,
    after: Seq<Seq<u8>>,
)
    requires
        run_lines(path, StreamState::Active, before).state == StreamState::Active,
        token_of(done) == TokenView::Done,
    ensures
        run_lines(path, StreamState::Active, before.push(done) + after) == (Progress {
            state: StreamState::Done,
            ..run_lines(path, StreamState::Active, before)
        }),
{
    let lines = before.push(done);
    assert(lines.drop_last() =~= before);
    lemma_run_resumes(path, StreamState::Active, lines, after);
    lemma_inactive_reads_nothing(path, StreamState::Done, after);
}

/// A payload that is not valid JSON fails the stream. The failure carries
/// the text of the payload, the fragments found before it stay, and what
/// follows in the stream adds nothing.
pub proof fn lemma_invalid_payload_fails(
    path: Seq<Step>,
    before: Seq<Seq<u8>>,
    bad: Seq<u8>,
    after: Seq<Seq<u8>>,
)
    requires
        run_lines(path, StreamState::Active, before).state == StreamState::Active,
        token_of(bad) == TokenView::Payload(payload(bad)),
        valid_utf8(payload(bad)),
        json_parse(decode_utf8(payload(bad))) is None,
    ensures
        run_lines(path, StreamState::Active, before.push(bad) + after) == (Progress {
            state: StreamState::Failed,
            fragments: run_lines(path, StreamState::Active, before).fragments,
            failure: Some(Failure::InvalidPayload { payload: decode_utf8(payload(bad)) }),
        }),
{
    let lines = before.push(bad);
    assert(lines.drop_last() =~= before);
    lemma_failure_means_failed(path, StreamState::Active, before);
    lemma_run_resumes(path, StreamState::Active, lines, after);
    lemma_inactive_reads_nothing(path, StreamState::Failed, after);
}

/// Every line yields at most one fragment, and a line that yields one
/// changes nothing else.
pub proof fn lemma_one_fragment_per_line(path: Seq<Step>, before: Progress, line: Seq<u8>)
    ensures
        ({
            let after = advance(path, before, line);
            ||| after.fragments == before.fragments
            ||| exists|text: Seq<char>|
                after == (Progress { fragments: before.fragments.push(text), ..before })
        }),
{
}

} // verus!
