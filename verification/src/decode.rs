//! Decoding refresh payloads from their wire form (raw UTF-8 bytes).

use vstd::prelude::*;
use vstd::utf8::{decode_utf8, valid_utf8};

verus! {

/// Relies on `String::from_utf8`: it returns `Ok` exactly on valid UTF-8
/// input, and the returned string holds the characters those bytes encode
/// (the conversion reuses the bytes unchanged).  `valid_utf8` and
/// `decode_utf8` are vstd's own model of that encoding, the one its string
/// axioms are stated over.
#[verifier::external_body]
pub(crate) fn decode_refresh_payload(payload: Vec<u8>) -> (r: Option<String>)
    ensures
        r is Some <==> valid_utf8(payload@),
        r matches Some(s) ==> s@ == decode_utf8(payload@),
{
    String::from_utf8(payload).ok()
}

} // verus!
