//! Text as bytes and bytes as text.

use vstd::prelude::*;
use vstd::string::StrSliceExecFns;
use vstd::utf8::{decode_utf8, encode_utf8, valid_utf8};

verus! {

/// The text that `bytes` encode in UTF-8, if they encode any.
///
/// Calls `std::str::from_utf8`, which accepts exactly the byte strings that
/// are valid UTF-8 and hands them back unchanged as a `str`. The contract
/// states this over vstd's definition of UTF-8.
#[verifier::external_body]
pub(crate) fn decode(bytes: &Vec<u8>) -> (text: Option<String>)
    ensures
        text is Some <==> valid_utf8(bytes@),
        text matches Some(decoded) ==> decoded@ == decode_utf8(bytes@),
{
    match std::str::from_utf8(bytes) {
        Ok(text) => Some(text.to_owned()),
        Err(_) => None,
    }
}

/// The UTF-8 bytes of `text`.
pub(crate) fn encode(text: &String) -> (bytes: Vec<u8>)
    ensures
        bytes@ == encode_utf8(text@),
{
    text.as_str().as_bytes_vec()
}

/// Whether two byte strings are the same.
pub(crate) fn same_bytes(left: &Vec<u8>, right: &Vec<u8>) -> (same: bool)
    ensures
        same == (left@ == right@),
{
    if left.len() != right.len() {
        return false;
    }
    let mut i: usize = 0;
    while i < left.len()
        invariant
            i <= left.len(),
            left.len() == right.len(),
            forall|j: int| 0 <= j < i ==> left[j] == right[j],
        decreases left.len() - i,
    {
        if left[i] != right[i] {
            return false;
        }
        i += 1;
    }
    assert(left@ =~= right@);
    true
}

/// The text made of `chars`.
///
/// Calls `String::from_iter`, which makes the string that holds the given
/// characters in order.
#[verifier::external_body]
pub(crate) fn collect(chars: &Vec<char>) -> (text: String)
    ensures
        text@ == chars@,
{
    String::from_iter(chars.iter())
}

} // verus!
