//! Lower-case hexadecimal spelling of a byte string, as password digests
//! are stored.
use vstd::prelude::*;

verus! {

/// The ASCII code of one hexadecimal digit, lower case.
pub open spec fn hex_digit_of(n: u8) -> u8 {
    if n < 10 {
        (n + 48) as u8
    } else {
        (n + 87) as u8
    }
}

/// Two lower-case hex digits per byte, high nibble first.
pub open spec fn hex_of(data: Seq<u8>) -> Seq<u8> {
    Seq::new(
        data.len() * 2,
        |i: int|
            if i % 2 == 0 {
                hex_digit_of(data[i / 2] >> 4u8)
            } else {
                hex_digit_of((data[i / 2] & 15u8))
            },
    )
}

/// Hex digits are ASCII.
pub proof fn lemma_hex_of_ascii(data: Seq<u8>)
    ensures
        forall|i: int| 0 <= i < hex_of(data).len() ==> hex_of(data)[i] < 128,
{
    assert forall|i: int| 0 <= i < hex_of(data).len() implies hex_of(data)[i] < 128 by {
        let b = data[i / 2];
        assert(b >> 4u8 < 16 && (b & 15u8) < 16) by (bit_vector);
    }
}

pub fn hex_digit(n: u8) -> (r: u8)
    requires
        n < 16,
    ensures
        r == hex_digit_of(n),
{
    if n < 10 {
        n + 48
    } else {
        n + 87
    }
}

/// Spell `data` in lower-case hexadecimal.
pub fn hex_encode(data: &Vec<u8>) -> (r: Vec<u8>)
    ensures
        r@ == hex_of(data@),
{
    let mut out: Vec<u8> = Vec::new();
    let mut i: usize = 0;
    while i < data.len()
        invariant
            i <= data@.len(),
            out@.len() == 2 * i,
            forall|j: int| 0 <= j < out@.len() ==> out@[j] == hex_of(data@)[j],
        decreases data@.len() - i,
    {
        let b = data[i];
        assert(b >> 4u8 < 16 && (b & 15u8) < 16) by (bit_vector);
        out.push(hex_digit(b >> 4u8));
        out.push(hex_digit(b & 15u8));
        i = i + 1;
    }
    assert(out@ =~= hex_of(data@));
    out
}

} // verus!
