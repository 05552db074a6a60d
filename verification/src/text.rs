//! Payload bytes as text.

use vstd::prelude::*;
use vstd::utf8::{decode_utf8, valid_utf8};

verus! {

/// The length of the longest prefix of `bytes`, no longer than `limit`,
/// that is well-formed UTF-8.
pub open spec fn valid_prefix(bytes: Seq<u8>, limit: int) -> int
    decreases limit,
{
    if limit <= 0 {
        0
    } else if valid_utf8(bytes.take(limit)) {
        limit
    } else {
        valid_prefix(bytes, limit - 1)
    }
}

/// The length of the longest prefix of `bytes` that is well-formed UTF-8:
/// the position of the first byte that cannot be read as text.
pub open spec fn valid_len(bytes: Seq<u8>) -> int {
    valid_prefix(bytes, bytes.len() as int)
}

/// `valid_prefix` is the greatest length of a well-formed prefix within the
/// limit.
pub proof fn lemma_valid_prefix_greatest(bytes: Seq<u8>, limit: int)
    requires
        0 <= limit <= bytes.len(),
    ensures
        0 <= valid_prefix(bytes, limit) <= limit,
        valid_utf8(bytes.take(valid_prefix(bytes, limit))),
        forall|n: int|
            valid_prefix(bytes, limit) < n <= limit ==> !valid_utf8(#[trigger] bytes.take(n)),
    decreases limit,
{
    if limit > 0 && !valid_utf8(bytes.take(limit)) {
        lemma_valid_prefix_greatest(bytes, limit - 1);
    }
}

/// Well-formed bytes are their own longest well-formed prefix, and no
/// others are.
pub proof fn lemma_valid_len_full(bytes: Seq<u8>)
    ensures
        valid_utf8(bytes) <==> valid_len(bytes) == bytes.len(),
{
    lemma_valid_prefix_greatest(bytes, bytes.len() as int);
    assert(bytes.take(bytes.len() as int) =~= bytes);
}

/// The error of `core::str::from_utf8`.
#[verifier::external_type_specification]
#[verifier::external_body]
pub struct ExUtf8Error(core::str::Utf8Error);

/// The length that a decoding error reports: how far the bytes it was
/// made for are well-formed.
pub uninterp spec fn error_valid_up_to(error: core::str::Utf8Error) -> int;

/// `from_utf8` succeeds exactly on well-formed UTF-8 and then returns the
/// text that the bytes encode. The error it returns otherwise reports the
/// greatest length of a prefix on which it would have succeeded.
pub assume_specification[ core::str::from_utf8 ](bytes: &[u8]) -> (decoded: Result<
    &str,
    core::str::Utf8Error,
>)
    ensures
        match decoded {
            Ok(text) => valid_utf8(bytes@) && text@ == decode_utf8(bytes@),
            Err(error) => !valid_utf8(bytes@) && error_valid_up_to(error) == valid_len(bytes@),
        },
;

/// `valid_up_to` returns the length that the error reports.
pub assume_specification[ core::str::Utf8Error::valid_up_to ](
    error: &core::str::Utf8Error,
) -> (length: usize)
    ensures
        length == error_valid_up_to(*error),
;

} // verus!
