//! JSON payloads: parsing them and finding the text at a field path.
//!
//! Parsing and navigation are done by `serde_json`. The library sees a
//! parsed document as the strings it holds, each under the path that leads
//! to it.

use crate::path::{FieldPath, PathStep, Step};
use vstd::prelude::*;

verus! {

/// A parsed JSON value of `serde_json`. Contracts see of it only the
/// strings that `json_strings` names.
#[verifier::external_type_specification]
#[verifier::external_body]
pub struct ExValue(serde_json::Value);

/// The error with which `serde_json` rejects a text. Nothing is read from
/// it.
#[verifier::external_type_specification]
#[verifier::external_body]
pub struct ExError(serde_json::Error);

/// The strings of a JSON document, each under the path from the root to it.
pub type Strings = Map<Seq<Step>, Seq<char>>;

/// The strings that a parsed JSON value holds. A path leads to a string when
/// every `Key` step names a member of the object it is applied to, every
/// `Index` step lies within the array it is applied to, and the value
/// reached is a JSON string.
pub uninterp spec fn json_strings(value: serde_json::Value) -> Map<Seq<Step>, Seq<char>>;

/// The strings of the value that `serde_json::from_str` reads from `text`,
/// or `None` where it rejects the text.
pub uninterp spec fn json_parse(text: Seq<char>) -> Option<Map<Seq<Step>, Seq<char>>>;

/// The strings found by following `prefix` first: the part of a document
/// below the value that `prefix` leads to.
pub open spec fn beneath(strings: Strings, prefix: Seq<Step>) -> Strings {
    Map::new(
        |rest: Seq<Step>| strings.contains_key(prefix + rest),
        |rest: Seq<Step>| strings[prefix + rest],
    )
}

/// The string at `path`, if there is one.
pub open spec fn text_at(strings: Strings, path: Seq<Step>) -> Option<Seq<char>> {
    if strings.contains_key(path) {
        Some(strings[path])
    } else {
        None
    }
}

/// Calls `serde_json::from_str` for a `serde_json::Value`. Whether it
/// accepts the text, and which strings the value then holds, depends on the
/// text alone: `json_parse` names both.
#[verifier::external_body]
pub(crate) fn parse_value(text: &str) -> (parsed: Result<serde_json::Value, serde_json::Error>)
    ensures
        match parsed {
            Ok(value) => json_parse(text@) == Some(json_strings(value)),
            Err(_) => json_parse(text@) is None,
        },
{
    serde_json::from_str::<serde_json::Value>(text)
}

/// Calls `serde_json::Value::get` with a string. It returns the member
/// called `key` where the value is an object that has one, and `None`
/// otherwise. The strings of the member are those of the value whose path
/// begins with that key; without the member the value has no such string.
#[verifier::external_body]
fn member<'a>(value: &'a serde_json::Value, key: &str) -> (found: Option<&'a serde_json::Value>)
    ensures
        match found {
            Some(inner) => json_strings(*inner) == beneath(
                json_strings(*value),
                seq![Step::Key(key@)],
            ),
            None => beneath(json_strings(*value), seq![Step::Key(key@)]) == Strings::empty(),
        },
{
    value.get(key)
}

/// Calls `serde_json::Value::get` with a number. It returns the element at
/// `position` where the value is an array that long, and `None` otherwise.
/// The strings of the element are those of the value whose path begins with
/// that position; without the element the value has no such string.
#[verifier::external_body]
fn element<'a>(value: &'a serde_json::Value, position: usize) -> (found: Option<
    &'a serde_json::Value,
>)
    ensures
        match found {
            Some(inner) => json_strings(*inner) == beneath(
                json_strings(*value),
                seq![Step::Index(position as int)],
            ),
            None => beneath(json_strings(*value), seq![Step::Index(position as int)])
                == Strings::empty(),
        },
{
    value.get(position)
}

/// Calls `serde_json::Value::as_str`. It returns the text where the value
/// is a JSON string, which is then the string at the empty path, and `None`
/// otherwise.
#[verifier::external_body]
fn string_of<'a>(value: &'a serde_json::Value) -> (text: Option<&'a str>)
    ensures
        match text {
            Some(text) => text_at(json_strings(*value), Seq::empty()) == Some(text@),
            None => text_at(json_strings(*value), Seq::empty()) is None,
        },
{
    value.as_str()
}

/// Following one prefix and then another is following both at once.
pub proof fn lemma_beneath_twice(strings: Strings, first: Seq<Step>, second: Seq<Step>)
    ensures
        beneath(beneath(strings, first), second) == beneath(strings, first + second),
{
    assert forall|rest: Seq<Step>| first + (second + rest) == (first + second) + rest by {}
}

/// The text at `path` in a parsed document: the string that the path leads
/// to, or `None` where it leads to no value or to one that is not a string.
pub fn lookup(value: &serde_json::Value, path: &FieldPath) -> (found: Option<String>)
    ensures
        match found {
            Some(text) => text_at(json_strings(*value), path@) == Some(text@),
            None => text_at(json_strings(*value), path@) is None,
        },
{
    let ghost all = json_strings(*value);
    let mut current: &serde_json::Value = value;
    let mut i: usize = 0;
    assert forall|rest: Seq<Step>| Seq::<Step>::empty() + rest == rest by {}
    while i < path.len()
        invariant
            i <= path@.len(),
            all == json_strings(*value),
            json_strings(*current) == beneath(all, path@.take(i as int)),
        decreases path@.len() - i,
    {
        let step = path.step(i);
        let next = match step {
            PathStep::Key(name) => member(current, name.as_str()),
            PathStep::Index(position) => element(current, *position),
        };
        proof {
            lemma_beneath_twice(all, path@.take(i as int), seq![step@]);
            assert(path@.take(i as int) + seq![step@] =~= path@.take(i + 1));
        }
        match next {
            Some(inner) => {
                current = inner;
            },
            None => {
                proof {
                    let rest = path@.skip(i + 1);
                    assert(path@.take(i + 1) + rest =~= path@);
                    assert(!beneath(all, path@.take(i + 1)).contains_key(rest));
                }
                return None;
            },
        }
        i += 1;
    }
    assert(path@.take(i as int) =~= path@);
    match string_of(current) {
        Some(text) => Some(text.to_owned()),
        None => None,
    }
}

} // verus!
