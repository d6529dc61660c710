//! Byte-level text helpers: every token and digest this crate produces is
//! ASCII, so the bridge between `Vec<u8>` and `String` is kept here, with
//! the one trusted call into `String::from_utf8`.
use vstd::prelude::*;
use vstd::utf8::*;
use vstd::pervasive::unreached;

verus! {

/// Do all bytes fall in the ASCII range?
pub open spec fn is_ascii_bytes(v: Seq<u8>) -> bool {
    forall|i: int| 0 <= i < v.len() ==> v[i] < 128
}

/// Decide `is_ascii_bytes`.
pub fn all_ascii(v: &Vec<u8>) -> (r: bool)
    ensures
        r == is_ascii_bytes(v@),
{
    let n = v.len();
    let mut i: usize = 0;
    while i < n
        invariant
            i <= n,
            n == v@.len(),
            forall|k: int| 0 <= k < i ==> v@[k] < 128,
        decreases n - i,
    {
        if v[i] >= 128 {
            return false;
        }
        i = i + 1;
    }
    true
}

/// The characters of an ASCII byte sequence, one per byte.
pub open spec fn ascii_chars_of(v: Seq<u8>) -> Seq<char> {
    Seq::new(v.len(), |i: int| v[i] as char)
}

/// ASCII bytes are valid UTF-8 and decode to themselves, character for byte.
pub proof fn lemma_ascii_bytes_utf8(v: Seq<u8>)
    requires
        forall|i: int| 0 <= i < v.len() ==> v[i] < 128,
    ensures
        valid_utf8(v),
        decode_utf8(v) == ascii_chars_of(v),
        encode_utf8(ascii_chars_of(v)) == v,
{
    let chars = ascii_chars_of(v);
    assert(is_ascii_chars(chars));
    is_ascii_chars_encode_utf8(chars);
    assert(encode_utf8(chars) =~= v);
    encode_utf8_valid_utf8(chars);
    encode_utf8_decode_utf8(chars);
}

/// Relies on `String::from_utf8`: it succeeds exactly on valid UTF-8 input
/// and the returned string's bytes are the input bytes.
#[verifier::external_body]
pub(crate) fn bytes_to_string(v: Vec<u8>) -> (r: Option<String>)
    ensures
        r matches Some(s) ==> valid_utf8(v@) && s@ == decode_utf8(v@),
        r is None ==> !valid_utf8(v@),
{
    match String::from_utf8(v) {
        Ok(s) => Some(s),
        Err(_) => None,
    }
}

/// Turn ASCII bytes into the `String` spelling the same characters.
pub fn ascii_to_string(v: Vec<u8>) -> (r: String)
    requires
        forall|i: int| 0 <= i < v@.len() ==> v@[i] < 128,
    ensures
        r@ == ascii_chars_of(v@),
        encode_utf8(r@) == v@,
{
    let ghost bytes = v@;
    proof {
        lemma_ascii_bytes_utf8(bytes);
    }
    match bytes_to_string(v) {
        Some(s) => s,
        None => unreached(),
    }
}

} // verus!
