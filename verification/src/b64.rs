//! The unpadded URL-safe base64 spelling that compact tokens use, provided
//! by the base64 crate behind two trusted wrappers.
use vstd::prelude::*;
use base64::Engine;

use crate::strings::is_ascii_bytes;

verus! {

/// What the URL-safe no-pad engine encodes a byte string to; a pure
/// function of its input.
pub uninterp spec fn b64_of(data: Seq<u8>) -> Seq<u8>;

/// What the same engine decodes a byte string to, if it accepts it; a pure
/// function of its input.
pub uninterp spec fn b64_decode_of(data: Seq<u8>) -> Option<Seq<u8>>;

/// Relies on base64's `URL_SAFE_NO_PAD.encode`: the output is drawn from the
/// URL-safe alphabet (ASCII, and never a dot), and decoding it with the same
/// engine gives the input back.
#[verifier::external_body]
pub(crate) fn b64url_encode(data: &[u8]) -> (r: Vec<u8>)
    ensures
        r@ == b64_of(data@),
        forall|i: int| 0 <= i < r@.len() ==> r@[i] < 128 && r@[i] != 46,
        b64_decode_of(r@) == Some(data@),
{
    base64::engine::general_purpose::URL_SAFE_NO_PAD.encode(data).into_bytes()
}

/// Relies on base64's `URL_SAFE_NO_PAD.decode`: its config rejects padding
/// and nonzero trailing bits, so it accepts exactly the canonical encodings,
/// and a successful decode pins the input to be the encoding of the result.
/// It also rejects any byte outside the URL-safe alphabet, so input it
/// accepts is ASCII.
#[verifier::external_body]
pub(crate) fn b64url_decode(data: &[u8]) -> (r: Option<Vec<u8>>)
    ensures
        r matches Some(v) ==> b64_decode_of(data@) == Some(v@) && data@ == b64_of(v@)
            && is_ascii_bytes(data@),
        r is None ==> b64_decode_of(data@) is None,
{
    match base64::engine::general_purpose::URL_SAFE_NO_PAD.decode(data) {
        Ok(v) => Some(v),
        Err(_) => None,
    }
}

} // verus!
