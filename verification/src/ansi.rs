//! Removing terminal escape sequences from text before it is measured or
//! segmented: such sequences occupy bytes but no display columns.

use vstd::prelude::*;

verus! {

use vstd::string::StringSliceAdditionalSpecFns;
use vstd::utf8::decode_utf8;
use vstd::utf8::valid_utf8;

/// The bytes that remain after removing terminal escape and control
/// sequences from `bytes`.
pub uninterp spec fn ansi_stripped(bytes: Seq<u8>) -> Seq<u8>;

/// Relies on `strip_ansi_escapes::strip`: a deterministic scan of the input
/// bytes through a terminal state machine, keeping only the printed ones.
/// With the in-memory writer the function uses, no error path is reachable.
#[verifier::external_body]
fn strip_ansi_bytes(text: &str) -> (r: Vec<u8>)
    ensures
        r@ == ansi_stripped(text.spec_bytes()),
{
    strip_ansi_escapes::strip(text).unwrap_or_default()
}

/// Relies on `std::str::from_utf8`: succeeds exactly on valid UTF-8 input
/// and yields the characters those bytes encode.
#[verifier::external_body]
fn utf8_to_string(bytes: &Vec<u8>) -> (r: Option<String>)
    ensures
        r is Some <==> valid_utf8(bytes@),
        r matches Some(t) ==> t@ == decode_utf8(bytes@),
{
    match std::str::from_utf8(bytes) {
        Ok(text) => Some(text.to_string()),
        Err(_) => None,
    }
}

/// Remove terminal escape sequences from `text`, yielding the remaining
/// plain text; nothing when the stripped bytes are not valid UTF-8, in which
/// case callers fall back to treating the original text as already plain.
pub fn try_strip_ansi(text: &str) -> (r: Option<String>)
    ensures
        r is Some <==> valid_utf8(ansi_stripped(text.spec_bytes())),
        r matches Some(t) ==> t@ == decode_utf8(ansi_stripped(text.spec_bytes())),
{
    let stripped = strip_ansi_bytes(text);
    utf8_to_string(&stripped)
}

} // verus!
