//! The tokenizer: what one line of the stream is.
//!
//! A line that begins with the marker `data: ` carries a payload: the rest
//! of the line without the white space around it. The payload `[DONE]` is
//! the sentinel that ends the stream. A line without the marker is noise.

use vstd::prelude::*;

verus! {

/// The length of the marker.
pub const MARKER_LEN: usize = 6;

/// The marker `data: ` that begins every line with a payload.
pub open spec fn marker() -> Seq<u8> {
    seq![0x64u8, 0x61u8, 0x74u8, 0x61u8, 0x3au8, 0x20u8]
}

/// The sentinel `[DONE]`.
pub open spec fn sentinel() -> Seq<u8> {
    seq![0x5bu8, 0x44u8, 0x4fu8, 0x4eu8, 0x45u8, 0x5du8]
}

/// White space: the space and the control characters from tab to carriage
/// return.
pub open spec fn is_space(byte: u8) -> bool {
    byte == 0x20 || (0x09 <= byte && byte <= 0x0d)
}

/// Whether `line` begins with `prefix`.
pub open spec fn begins_with(line: Seq<u8>, prefix: Seq<u8>) -> bool {
    prefix.len() <= line.len() && line.take(prefix.len() as int) == prefix
}

/// The first position at or after `from` that holds no white space, or the
/// length of the line where only white space follows.
pub open spec fn skip_spaces(line: Seq<u8>, from: int) -> int
    decreases line.len() - from,
{
    if 0 <= from < line.len() && is_space(line[from]) {
        skip_spaces(line, from + 1)
    } else {
        from
    }
}

/// The end of `line[from..to]` with the white space at its end left out.
pub open spec fn drop_spaces(line: Seq<u8>, from: int, to: int) -> int
    decreases to - from,
{
    if from < to <= line.len() && is_space(line[to - 1]) {
        drop_spaces(line, from, to - 1)
    } else {
        to
    }
}

/// Where the payload of a marked line begins.
pub open spec fn payload_start(line: Seq<u8>) -> int {
    skip_spaces(line, MARKER_LEN as int)
}

/// Where the payload of a marked line ends.
pub open spec fn payload_end(line: Seq<u8>) -> int {
    drop_spaces(line, payload_start(line), line.len() as int)
}

/// The payload of a marked line: what follows the marker, without the
/// white space around it.
pub open spec fn payload(line: Seq<u8>) -> Seq<u8> {
    line.subrange(payload_start(line), payload_end(line))
}

/// What a line is, as contracts see it.
pub enum TokenView {
    Noise,
    Done,
    Payload(Seq<u8>),
}

/// What the tokenizer makes of `line`.
pub open spec fn token_of(line: Seq<u8>) -> TokenView {
    if !begins_with(line, marker()) {
        TokenView::Noise
    } else if payload(line) == sentinel() {
        TokenView::Done
    } else {
        TokenView::Payload(payload(line))
    }
}

/// What a line is.
#[derive(Debug, Clone, Copy, PartialEq, Eq)]
pub enum Token {
    /// The line does not begin with the marker.
    Noise,
    /// The line carries the sentinel.
    Done,
    /// The line carries the payload `line[start..end]`.
    Payload { start: usize, end: usize },
}

/// The bounds of the payload lie in order between the marker and the end
/// of the line.
pub proof fn lemma_payload_bounds(line: Seq<u8>)
    requires
        MARKER_LEN <= line.len(),
    ensures
        MARKER_LEN <= payload_start(line) <= payload_end(line) <= line.len(),
{
    lemma_skip_spaces_bounds(line, MARKER_LEN as int);
    lemma_drop_spaces_bounds(line, payload_start(line), line.len() as int);
}

proof fn lemma_skip_spaces_bounds(line: Seq<u8>, from: int)
    requires
        0 <= from <= line.len(),
    ensures
        from <= skip_spaces(line, from) <= line.len(),
        forall|i: int| from <= i < skip_spaces(line, from) ==> is_space(line[i]),
        skip_spaces(line, from) < line.len() ==> !is_space(line[skip_spaces(line, from)]),
    decreases line.len() - from,
{
    if from < line.len() && is_space(line[from]) {
        lemma_skip_spaces_bounds(line, from + 1);
    }
}

proof fn lemma_drop_spaces_bounds(line: Seq<u8>, from: int, to: int)
    requires
        0 <= from <= to <= line.len(),
    ensures
        from <= drop_spaces(line, from, to) <= to,
        forall|i: int| drop_spaces(line, from, to) <= i < to ==> is_space(line[i]),
        from < drop_spaces(line, from, to) ==> !is_space(line[drop_spaces(line, from, to) - 1]),
    decreases to - from,
{
    if from < to && is_space(line[to - 1]) {
        lemma_drop_spaces_bounds(line, from, to - 1);
    }
}

/// The payload is the rest of the line with nothing but white space cut
/// from its two ends, and it neither begins nor ends with white space.
pub proof fn lemma_payload_is_trimmed(line: Seq<u8>)
    requires
        MARKER_LEN <= line.len(),
    ensures
        forall|i: int| MARKER_LEN <= i < payload_start(line) ==> is_space(line[i]),
        forall|i: int| payload_end(line) <= i < line.len() ==> is_space(line[i]),
        payload(line).len() > 0 ==> !is_space(payload(line).first()) && !is_space(
            payload(line).last(),
        ),
{
    lemma_skip_spaces_bounds(line, MARKER_LEN as int);
    lemma_drop_spaces_bounds(line, payload_start(line), line.len() as int);
}

/// Whether `byte` is white space.
pub fn is_space_byte(byte: u8) -> (space: bool)
    ensures
        space == is_space(byte),
{
    byte == 0x20 || (0x09 <= byte && byte <= 0x0d)
}

/// Whether `line` begins with the marker.
pub fn has_marker(line: &[u8]) -> (marked: bool)
    ensures
        marked == begins_with(line@, marker()),
{
    if line.len() < MARKER_LEN {
        return false;
    }
    let marked = line[0] == 0x64 && line[1] == 0x61 && line[2] == 0x74 && line[3] == 0x61
        && line[4] == 0x3a && line[5] == 0x20;
    if marked {
        assert(line@.take(MARKER_LEN as int) =~= marker());
    }
    marked
}

/// Whether `bytes[start..end]` is the sentinel.
fn is_sentinel(bytes: &[u8], start: usize, end: usize) -> (found: bool)
    requires
        start <= end <= bytes@.len(),
    ensures
        found == (bytes@.subrange(start as int, end as int) == sentinel()),
{
    if end - start != 6 {
        assert(sentinel().len() == 6);
        return false;
    }
    let found = bytes[start] == 0x5b && bytes[start + 1] == 0x44 && bytes[start + 2] == 0x4f
        && bytes[start + 3] == 0x4e && bytes[start + 4] == 0x45 && bytes[start + 5] == 0x5d;
    if found {
        assert(bytes@.subrange(start as int, end as int) =~= sentinel());
    }
    found
}

/// Tells what `line` is: noise, the sentinel, or a payload with its bounds
/// in the line.
pub fn tokenize(line: &[u8]) -> (token: Token)
    ensures
        match token {
            Token::Noise => token_of(line@) == TokenView::Noise,
            Token::Done => token_of(line@) == TokenView::Done,
            Token::Payload { start, end } => {
                &&& token_of(line@) == TokenView::Payload(payload(line@))
                &&& start == payload_start(line@)
                &&& end == payload_end(line@)
                &&& start <= end <= line@.len()
            },
        },
{
    if !has_marker(line) {
        return Token::Noise;
    }
    let mut start: usize = MARKER_LEN;
    while start < line.len() && is_space_byte(line[start])
        invariant
            MARKER_LEN <= start <= line@.len(),
            skip_spaces(line@, start as int) == payload_start(line@),
        decreases line@.len() - start,
    {
        start += 1;
    }
    let mut end: usize = line.len();
    while start < end && is_space_byte(line[end - 1])
        invariant
            start <= end <= line@.len(),
            drop_spaces(line@, start as int, end as int) == drop_spaces(
                line@,
                start as int,
                line@.len() as int,
            ),
        decreases end - start,
    {
        end -= 1;
    }
    if is_sentinel(line, start, end) {
        Token::Done
    } else {
        Token::Payload { start, end }
    }
}

} // verus!
