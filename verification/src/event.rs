//! Events: what one line of the stream yields.

use crate::json::{json_parse, lookup, parse_value, text_at};
use crate::path::{FieldPath, Step};
use crate::text::{lemma_valid_prefix_greatest, valid_len};
use crate::token::{payload_start, token_of, tokenize, Token, TokenView};
use vstd::prelude::*;
use vstd::slice::slice_subrange;
use vstd::utf8::{decode_utf8, valid_utf8};

verus! {

/// Why a line could not be decoded, as contracts see it.
pub enum Failure {
    InvalidUtf8 { offset: int },
    InvalidPayload { payload: Seq<char> },
}

/// Why a line could not be decoded.
#[derive(Debug, Clone, PartialEq, Eq)]
pub enum DecodeError {
    /// The payload is not well-formed UTF-8. `offset` is the position in
    /// the line of the first byte that cannot be read as text.
    InvalidUtf8 { offset: usize },
    /// Payload decode error: the payload is not valid JSON. `payload` is
    /// its text.
    InvalidPayload { payload: String },
}

impl View for DecodeError {
    type V = Failure;

    open spec fn view(&self) -> Failure {
        match self {
            DecodeError::InvalidUtf8 { offset } => Failure::InvalidUtf8 { offset: *offset as int },
            DecodeError::InvalidPayload { payload } => Failure::InvalidPayload {
                payload: payload@,
            },
        }
    }
}

/// What a line yields, as contracts see it.
pub enum Outcome {
    Noise,
    Done,
    NoField,
    Fragment(Seq<char>),
    Failure(Failure),
}

/// What a line that could be decoded yields.
#[derive(Debug, Clone, PartialEq, Eq)]
pub enum Event {
    /// Framing noise: the line does not begin with the marker and is
    /// dropped.
    Noise,
    /// The termination signal: the line carries the sentinel and the stream
    /// is complete.
    Done,
    /// Field missing: the payload is valid JSON without text at the field
    /// path.
    NoField,
    /// The text at the field path of the payload.
    Fragment(String),
}

impl View for Event {
    type V = Outcome;

    open spec fn view(&self) -> Outcome {
        match self {
            Event::Noise => Outcome::Noise,
            Event::Done => Outcome::Done,
            Event::NoField => Outcome::NoField,
            Event::Fragment(text) => Outcome::Fragment(text@),
        }
    }
}

/// The outcome that a result of decoding stands for.
pub open spec fn outcome_of(decoded: Result<Event, DecodeError>) -> Outcome {
    match decoded {
        Ok(event) => event@,
        Err(error) => Outcome::Failure(error@),
    }
}

/// What a payload yields once it is text: the string at `path` of the
/// document it denotes, nothing where the document has no string there,
/// and a failure that carries the text where it denotes no document.
pub open spec fn payload_outcome(path: Seq<Step>, text: Seq<char>) -> Outcome {
    match json_parse(text) {
        None => Outcome::Failure(Failure::InvalidPayload { payload: text }),
        Some(strings) => match text_at(strings, path) {
            Some(fragment) => Outcome::Fragment(fragment),
            None => Outcome::NoField,
        },
    }
}

/// What a line yields. Noise and the sentinel are told apart before the
/// payload is read as text, so neither can fail.
pub open spec fn line_outcome(path: Seq<Step>, line: Seq<u8>) -> Outcome {
    match token_of(line) {
        TokenView::Noise => Outcome::Noise,
        TokenView::Done => Outcome::Done,
        TokenView::Payload(bytes) => if valid_utf8(bytes) {
            payload_outcome(path, decode_utf8(bytes))
        } else {
            Outcome::Failure(
                Failure::InvalidUtf8 { offset: payload_start(line) + valid_len(bytes) },
            )
        },
    }
}

/// Decodes a payload that is already text: parses it as JSON and returns
/// the text at `path`, or `None` where the document has no string there.
/// This is also how the body of a response that arrives in one piece is
/// read.
pub fn decode_payload(text: &str, path: &FieldPath) -> (decoded: Result<Option<String>, DecodeError>)
    ensures
        match decoded {
            Ok(Some(fragment)) => payload_outcome(path@, text@) == Outcome::Fragment(fragment@),
            Ok(None) => payload_outcome(path@, text@) == Outcome::NoField,
            Err(error) => payload_outcome(path@, text@) == Outcome::Failure(error@),
        },
{
    match parse_value(text) {
        Ok(value) => Ok(lookup(&value, path)),
        Err(_) => Err(DecodeError::InvalidPayload { payload: text.to_owned() }),
    }
}

/// Decodes one complete line, given without its newline.
pub fn decode_line(line: &[u8], path: &FieldPath) -> (decoded: Result<Event, DecodeError>)
    ensures
        outcome_of(decoded) == line_outcome(path@, line@),
{
    match tokenize(line) {
        Token::Noise => Ok(Event::Noise),
        Token::Done => Ok(Event::Done),
        Token::Payload { start, end } => {
            let bytes = slice_subrange(line, start, end);
            match core::str::from_utf8(bytes) {
                Err(error) => {
                    proof {
                        lemma_valid_prefix_greatest(bytes@, bytes@.len() as int);
                    }
                    Err(DecodeError::InvalidUtf8 { offset: start + error.valid_up_to() })
                },
                Ok(text) => match decode_payload(text, path) {
                    Ok(Some(fragment)) => Ok(Event::Fragment(fragment)),
                    Ok(None) => Ok(Event::NoField),
                    Err(error) => Err(error),
                },
            }
        },
    }
}

} // verus!
