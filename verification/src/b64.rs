//! Trusted boundary to the base64 crate.
//!
//! Binary websocket payloads and response bodies cross the JSON protocol as
//! base64 text. The two functions here make the only base64 calls in the
//! crate; everything about their results is stated through the name
//! `base64_of`, the canonical base64 text of a byte sequence.

use vstd::prelude::*;

use crate::error::Error;
use base64::Engine;

verus! {

/// The canonical padded base64 text of a byte sequence, as the base64
/// crate's standard alphabet produces it.
pub uninterp spec fn base64_of(bytes: Seq<u8>) -> Seq<char>;

/// Relies on base64's `STANDARD` engine `encode`: it writes the canonical
/// padded encoding of its input, a pure function of the bytes alone, and
/// panics only when the output length overflows `usize`.
#[verifier::external_body]
pub fn encode_base64(bytes: &[u8]) -> (r: String)
    requires
        bytes@.len() < usize::MAX / 2,
    ensures
        r@ == base64_of(bytes@),
{
    base64::engine::general_purpose::STANDARD.encode(bytes)
}

/// Relies on base64's `STANDARD` engine `decode`: configured with canonical
/// padding required and trailing bits rejected, it accepts exactly the
/// canonical encodings and inverts `encode` on them.
#[verifier::external_body]
pub fn decode_base64(text: &str) -> (r: Result<Vec<u8>, Error>)
    ensures
        r matches Ok(v) ==> text@ == base64_of(v@),
        r matches Ok(v) ==> forall|b: Seq<u8>| text@ == base64_of(b) ==> v@ == b,
        r is Err ==> !exists|b: Seq<u8>| text@ == base64_of(b),
        r matches Err(e) ==> e is InvalidBase64,
{
    match base64::engine::general_purpose::STANDARD.decode(text) {
        Ok(v) => Ok(v),
        Err(_) => Err(Error::InvalidBase64),
    }
}

} // verus!
