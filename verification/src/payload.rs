//! The byte-level wire format of a token's claims: a JSON object carrying
//! exactly a subject id and an expiry, `{"user_id":"...","exp":N}`. The
//! subject is written with the three JSON escapes this format uses (quote,
//! backslash and control bytes as `\u00xx`); the expiry is a canonical
//! decimal. The parser accepts exactly what the builder can produce, so a
//! payload determines its claims and every built payload parses back.
use vstd::prelude::*;

use crate::hex::hex_digit_of;

verus! {

pub open spec fn is_digit(b: u8) -> bool {
    48 <= b <= 57
}

/// Bytes that cannot stand raw inside a JSON string.
pub open spec fn must_escape(b: u8) -> bool {
    b == 34 || b == 92 || b < 32
}

pub open spec fn hex_nibble_ok(c: u8) -> bool {
    (48 <= c <= 57) || (97 <= c <= 102)
}

/// Value of one lower-case hex digit.
pub open spec fn hex_nibble(c: u8) -> u8
    recommends
        hex_nibble_ok(c),
{
    if c <= 57 {
        (c - 48) as u8
    } else {
        (c - 87) as u8
    }
}

/// How one byte is written inside the quoted subject.
pub open spec fn esc_byte(b: u8) -> Seq<u8> {
    if must_escape(b) {
        seq![92u8, 117u8, 48u8, 48u8, hex_digit_of(b >> 4u8), hex_digit_of(b & 15u8)]
    } else {
        seq![b]
    }
}

/// The escaped spelling of a whole subject.
pub open spec fn esc_of(s: Seq<u8>) -> Seq<u8>
    decreases s.len(),
{
    if s.len() == 0 {
        Seq::empty()
    } else {
        esc_byte(s[0]) + esc_of(s.drop_first())
    }
}

pub proof fn lemma_esc_of_snoc(s: Seq<u8>, b: u8)
    ensures
        esc_of(s.push(b)) == esc_of(s) + esc_byte(b),
    decreases s.len(),
{
    if s.len() == 0 {
        assert(s.push(b)[0] == b);
        assert(s.push(b).drop_first() =~= Seq::<u8>::empty());
        assert(esc_of(s.push(b)) == esc_byte(b) + esc_of(Seq::<u8>::empty()));
        assert(esc_of(s.push(b)) =~= esc_of(s) + esc_byte(b));
    } else {
        assert(s.push(b)[0] == s[0]);
        assert(s.push(b).drop_first() =~= s.drop_first().push(b));
        lemma_esc_of_snoc(s.drop_first(), b);
        assert(esc_of(s.push(b)) == esc_byte(s[0]) + (esc_of(s.drop_first()) + esc_byte(b)));
        assert(esc_byte(s[0]) + (esc_of(s.drop_first()) + esc_byte(b)) =~= (esc_byte(s[0])
            + esc_of(s.drop_first())) + esc_byte(b));
        assert(esc_of(s.push(b)) =~= esc_of(s) + esc_byte(b));
    }
}

/// Scan a quoted JSON string's content from `i` up to its closing quote:
/// the unescaped bytes and the index of the quote.
pub open spec fn scan_jstr(v: Seq<u8>, i: int) -> Option<(Seq<u8>, int)>
    decreases v.len() - i,
{
    if i < 0 || i >= v.len() {
        None
    } else if v[i] == 34 {
        Some((Seq::empty(), i))
    } else if v[i] == 92 {
        if i + 6 <= v.len() && v[i + 1] == 117 && v[i + 2] == 48 && v[i + 3] == 48
            && hex_nibble_ok(v[i + 4]) && hex_nibble_ok(v[i + 5]) && must_escape(
            (hex_nibble(v[i + 4]) * 16 + hex_nibble(v[i + 5])) as u8,
        ) {
            match scan_jstr(v, i + 6) {
                Some((rest, j)) => Some(
                    (seq![(hex_nibble(v[i + 4]) * 16 + hex_nibble(v[i + 5])) as u8] + rest, j),
                ),
                None => None,
            }
        } else {
            None
        }
    } else if v[i] < 32 {
        None
    } else {
        match scan_jstr(v, i + 1) {
            Some((rest, j)) => Some((seq![v[i]] + rest, j)),
            None => None,
        }
    }
}

/// A lower-case hex digit of a nibble reads back as that nibble.
pub proof fn lemma_hex_digit_roundtrip(n: u8)
    requires
        n < 16,
    ensures
        hex_nibble_ok(hex_digit_of(n)),
        hex_nibble(hex_digit_of(n)) == n,
{
}

/// The scanner reads an escaped subject followed by a quote back as that
/// subject, stopping at the quote; what follows the quote does not matter.
pub proof fn lemma_scan_jstr_of_esc(v: Seq<u8>, i: int, s: Seq<u8>)
    requires
        0 <= i,
        i + esc_of(s).len() + 1 <= v.len(),
        v.subrange(i, i + esc_of(s).len()) == esc_of(s),
        v[i + esc_of(s).len()] == 34,
    ensures
        scan_jstr(v, i) == Some((s, i + esc_of(s).len())),
    decreases s.len(),
{
    let e = esc_of(s);
    let vs = v.subrange(i, i + e.len());
    if s.len() == 0 {
        assert(v[i] == 34);
    } else {
        let b = s[0];
        let e1 = esc_byte(b);
        let rest = esc_of(s.drop_first());
        assert(e == e1 + rest);
        assert(forall|k: int| 0 <= k < e.len() ==> v[i + k] == e[k]) by {
            assert(forall|k: int| 0 <= k < e.len() ==> #[trigger] v[i + k] == vs[k]);
        }
        if must_escape(b) {
            assert(b >> 4u8 < 16 && (b & 15u8) < 16) by (bit_vector);
            lemma_hex_digit_roundtrip(b >> 4u8);
            lemma_hex_digit_roundtrip(b & 15u8);
            assert((b >> 4u8) * 16 + (b & 15u8) == b) by (bit_vector);
            assert(e1.len() == 6 && e.len() >= 6);
            assert(e[0] == 92 && e[1] == 117 && e[2] == 48 && e[3] == 48 && e[4] == hex_digit_of(
                b >> 4u8,
            ) && e[5] == hex_digit_of(b & 15u8));
            assert(v[i] == 92 && v[i + 1] == 117 && v[i + 2] == 48 && v[i + 3] == 48);
            assert(v[i + 4] == hex_digit_of(b >> 4u8) && v[i + 5] == hex_digit_of(b & 15u8));
            assert((hex_nibble(v[i + 4]) * 16 + hex_nibble(v[i + 5])) as u8 == b);
            assert(v.subrange(i + 6, i + 6 + rest.len()) =~= v.subrange(i, i + e.len()).subrange(
                6,
                e.len() as int,
            ));
            assert(v.subrange(i + 6, i + 6 + rest.len()) =~= rest);
            lemma_scan_jstr_of_esc(v, i + 6, s.drop_first());
            assert(seq![b] + s.drop_first() =~= s);
        } else {
            assert(e1.len() == 1 && e.len() >= 1);
            assert(e[0] == b);
            assert(v[i] == b);
            assert(b != 34 && b != 92 && b >= 32);
            assert(v.subrange(i + 1, i + 1 + rest.len()) =~= v.subrange(i, i + e.len()).subrange(
                1,
                e.len() as int,
            ));
            assert(v.subrange(i + 1, i + 1 + rest.len()) =~= rest);
            lemma_scan_jstr_of_esc(v, i + 1, s.drop_first());
            assert(seq![b] + s.drop_first() =~= s);
        }
    }
}

/// The maximal run of decimal digits from `i`, and where it ends.
pub open spec fn digits_run(v: Seq<u8>, i: int) -> (Seq<u8>, int)
    decreases v.len() - i,
{
    if i < 0 || i >= v.len() || !is_digit(v[i]) {
        (Seq::empty(), i)
    } else {
        let r = digits_run(v, i + 1);
        (seq![v[i]] + r.0, r.1)
    }
}

/// Numeric value of a digit string.
pub open spec fn dec_value(ds: Seq<u8>) -> nat
    decreases ds.len(),
{
    if ds.len() == 0 {
        0
    } else {
        (dec_value(ds.drop_last()) * 10 + (ds.last() - 48)) as nat
    }
}

/// Canonical decimal spelling of a number.
pub open spec fn dec_digits_of(n: nat) -> Seq<u8>
    decreases n,
{
    if n < 10 {
        seq![(n + 48) as u8]
    } else {
        dec_digits_of(n / 10) + seq![((n % 10) + 48) as u8]
    }
}

/// The canonical spelling consists of digits, has no leading zero, and
/// reads back as the number it spells.
pub proof fn lemma_dec_digits(n: nat)
    ensures
        dec_digits_of(n).len() >= 1,
        forall|k: int| 0 <= k < dec_digits_of(n).len() ==> is_digit(#[trigger] dec_digits_of(n)[k]),
        n >= 1 ==> dec_digits_of(n)[0] != 48,
        n < 10 ==> dec_digits_of(n).len() == 1,
        dec_value(dec_digits_of(n)) == n,
    decreases n,
{
    if n < 10 {
        let d = dec_digits_of(n);
        assert(d == seq![(n + 48) as u8]);
        assert(d.drop_last() =~= Seq::<u8>::empty());
        assert(dec_value(d.drop_last()) == 0);
        assert(d.last() == (n + 48) as u8);
        assert(dec_value(d) == n);
    } else {
        lemma_dec_digits(n / 10);
        let a = dec_digits_of(n / 10);
        let d = ((n % 10) + 48) as u8;
        assert((a + seq![d]).drop_last() =~= a);
        assert((a + seq![d]).last() == d);
        assert(dec_value(a + seq![d]) == dec_value(a) * 10 + (n % 10));
        assert(n / 10 * 10 + n % 10 == n) by {
            vstd::arithmetic::div_mod::lemma_fundamental_div_mod(n as int, 10);
        }
        assert(dec_digits_of(n)[0] == a[0]);
    }
}

/// A run of digits laid out at `i`, ended by a non-digit or the end, scans
/// back as exactly that run.
pub proof fn lemma_digits_run_at(v: Seq<u8>, i: int, ds: Seq<u8>)
    requires
        0 <= i,
        i + ds.len() <= v.len(),
        v.subrange(i, i + ds.len()) == ds,
        forall|k: int| 0 <= k < ds.len() ==> is_digit(#[trigger] ds[k]),
        i + ds.len() == v.len() || !is_digit(v[i + ds.len()]),
    ensures
        digits_run(v, i) == (ds, i + ds.len()),
    decreases ds.len(),
{
    if ds.len() == 0 {
    } else {
        let vs = v.subrange(i, i + ds.len());
        assert(forall|k: int| 0 <= k < ds.len() ==> v[i + k] == ds[k]) by {
            assert(forall|k: int| 0 <= k < ds.len() ==> #[trigger] v[i + k] == vs[k]);
        }
        assert(v[i] == vs[0]);
        assert(is_digit(v[i]));
        assert(v.subrange(i + 1, i + 1 + (ds.len() - 1)) =~= ds.drop_first());
        lemma_digits_run_at(v, i + 1, ds.drop_first());
        assert(seq![ds[0]] + ds.drop_first() =~= ds);
    }
}

/// Reading more digits never shrinks the value.
pub proof fn lemma_dec_value_mono(a: Seq<u8>, b: Seq<u8>)
    requires
        forall|k: int| 0 <= k < b.len() ==> is_digit(#[trigger] b[k]),
    ensures
        dec_value(a) <= dec_value(a + b),
    decreases b.len(),
{
    if b.len() == 0 {
        assert(a + b =~= a);
    } else {
        lemma_dec_value_mono(a, b.drop_last());
        assert((a + b).drop_last() =~= a + b.drop_last());
        assert((a + b).last() == b.last() && is_digit(b.last()));
        assert(dec_value(a + b) == dec_value(a + b.drop_last()) * 10 + ((a + b).last() - 48));
    }
}

/// `{"user_id":"`
pub open spec fn payload_prefix() -> Seq<u8> {
    seq![123u8, 34u8, 117u8, 115u8, 101u8, 114u8, 95u8, 105u8, 100u8, 34u8, 58u8, 34u8]
}

/// `","exp":`
pub open spec fn payload_middle() -> Seq<u8> {
    seq![34u8, 44u8, 34u8, 101u8, 120u8, 112u8, 34u8, 58u8]
}

/// The claims a payload byte string carries, if it is well-formed: the
/// subject's bytes and the expiry.
pub open spec fn parse_payload(v: Seq<u8>) -> Option<(Seq<u8>, u64)> {
    let pre = payload_prefix();
    if v.len() < pre.len() + 1 || v.subrange(0, pre.len() as int) != pre {
        None
    } else {
        match scan_jstr(v, pre.len() as int) {
            None => None,
            Some((uid, q)) => {
                let mid = payload_middle();
                if q + mid.len() > v.len() || v.subrange(q, q + mid.len()) != mid {
                    None
                } else {
                    let r = digits_run(v, q + mid.len());
                    let ds = r.0;
                    let j = r.1;
                    if ds.len() == 0 {
                        None
                    } else if ds.len() > 1 && ds[0] == 48 {
                        None
                    } else if dec_value(ds) > u64::MAX as nat {
                        None
                    } else if j != v.len() - 1 || v[j] != 125 {
                        None
                    } else {
                        Some((uid, dec_value(ds) as u64))
                    }
                }
            },
        }
    }
}

/// Write `{"user_id":"` as bytes.
pub fn payload_prefix_vec() -> (r: Vec<u8>)
    ensures
        r@ == payload_prefix(),
{
    let mut p: Vec<u8> = Vec::new();
    p.push(123);
    p.push(34);
    p.push(117);
    p.push(115);
    p.push(101);
    p.push(114);
    p.push(95);
    p.push(105);
    p.push(100);
    p.push(34);
    p.push(58);
    p.push(34);
    assert(p@ =~= payload_prefix());
    p
}

/// Write `","exp":` as bytes.
pub fn payload_middle_vec() -> (r: Vec<u8>)
    ensures
        r@ == payload_middle(),
{
    let mut p: Vec<u8> = Vec::new();
    p.push(34);
    p.push(44);
    p.push(34);
    p.push(101);
    p.push(120);
    p.push(112);
    p.push(34);
    p.push(58);
    assert(p@ =~= payload_middle());
    p
}

/// Does `pat` stand in `v` at position `at`?
pub fn match_at(v: &Vec<u8>, at: usize, pat: &Vec<u8>) -> (r: bool)
    requires
        at + pat@.len() <= v@.len(),
    ensures
        r == (v@.subrange(at as int, at + pat@.len()) == pat@),
{
    let n = v.len();
    let m = pat.len();
    let mut k: usize = 0;
    while k < m
        invariant
            k <= m,
            at + m <= n,
            n == v@.len(),
            m == pat@.len(),
            forall|t: int| 0 <= t < k ==> v@[at + t] == pat@[t],
        decreases m - k,
    {
        if v[at + k] != pat[k] {
            assert(v@.subrange(at as int, at + pat@.len())[k as int] != pat@[k as int]);
            return false;
        }
        k = k + 1;
    }
    assert(v@.subrange(at as int, at + pat@.len()) =~= pat@);
    true
}

/// Escape a subject's bytes for the quoted JSON string.
pub fn escape(data: &[u8]) -> (r: Vec<u8>)
    ensures
        r@ == esc_of(data@),
{
    let mut out: Vec<u8> = Vec::new();
    let mut i: usize = 0;
    while i < data.len()
        invariant
            i <= data@.len(),
            out@ == esc_of(data@.subrange(0, i as int)),
        decreases data@.len() - i,
    {
        let b = data[i];
        proof {
            lemma_esc_of_snoc(data@.subrange(0, i as int), b);
            assert(data@.subrange(0, i + 1) =~= data@.subrange(0, i as int).push(b));
        }
        if b == 34 || b == 92 || b < 32 {
            out.push(92);
            out.push(117);
            out.push(48);
            out.push(48);
            assert(b >> 4u8 < 16 && (b & 15u8) < 16) by (bit_vector);
            out.push(crate::hex::hex_digit(b >> 4u8));
            out.push(crate::hex::hex_digit(b & 15u8));
            assert(out@ =~= esc_of(data@.subrange(0, i as int)) + esc_byte(b));
        } else {
            assert(out@.push(b) =~= esc_of(data@.subrange(0, i as int)) + esc_byte(b));
            out.push(b);
        }
        i = i + 1;
    }
    assert(data@.subrange(0, data@.len() as int) =~= data@);
    out
}

/// Spell a number in canonical decimal.
pub fn fmt_u64(n: u64) -> (r: Vec<u8>)
    ensures
        r@ == dec_digits_of(n as nat),
    decreases n,
{
    if n < 10 {
        let mut v: Vec<u8> = Vec::new();
        v.push((n as u8) + 48);
        assert(v@ =~= dec_digits_of(n as nat));
        v
    } else {
        let mut v = fmt_u64(n / 10);
        v.push(((n % 10) as u8) + 48);
        assert(v@ =~= dec_digits_of((n / 10) as nat) + seq![(((n as nat) % 10) + 48) as u8]);
        assert((n / 10) as nat == (n as nat) / 10);
        assert(v@ =~= dec_digits_of(n as nat));
        v
    }
}

fn is_hex_nibble(c: u8) -> (r: bool)
    ensures
        r == hex_nibble_ok(c),
{
    (48 <= c && c <= 57) || (97 <= c && c <= 102)
}

fn hex_nibble_val(c: u8) -> (r: u8)
    requires
        hex_nibble_ok(c),
    ensures
        r == hex_nibble(c),
        r < 16,
{
    if c <= 57 {
        c - 48
    } else {
        c - 87
    }
}

/// Read a quoted JSON string's content, stopping at the closing quote.
pub fn scan_jstr_exec(v: &Vec<u8>, i: usize) -> (r: Option<(Vec<u8>, usize)>)
    requires
        i <= v@.len(),
    ensures
        match r {
            Some(p) => scan_jstr(v@, i as int) == Some((p.0@, p.1 as int)) && i <= p.1
                < v@.len() && v@[p.1 as int] == 34,
            None => scan_jstr(v@, i as int) is None,
        },
    decreases v@.len() - i,
{
    let n = v.len();
    if i >= n {
        return None;
    }
    let b = v[i];
    if b == 34 {
        let empty: Vec<u8> = Vec::new();
        assert(empty@ =~= Seq::<u8>::empty());
        return Some((empty, i));
    }
    if b == 92 {
        if n - i >= 6 && v[i + 1] == 117 && v[i + 2] == 48 && v[i + 3] == 48 && is_hex_nibble(
            v[i + 4],
        ) && is_hex_nibble(v[i + 5]) {
            let nb = hex_nibble_val(v[i + 4]) * 16 + hex_nibble_val(v[i + 5]);
            if nb == 34 || nb == 92 || nb < 32 {
                match scan_jstr_exec(v, i + 6) {
                    Some((mut rest, j)) => {
                        let ghost old_rest = rest@;
                        rest.insert(0, nb);
                        assert(rest@ =~= seq![nb] + old_rest);
                        return Some((rest, j));
                    },
                    None => {
                        return None;
                    },
                }
            } else {
                return None;
            }
        } else {
            return None;
        }
    }
    if b < 32 {
        return None;
    }
    match scan_jstr_exec(v, i + 1) {
        Some((mut rest, j)) => {
            let ghost old_rest = rest@;
            rest.insert(0, b);
            assert(rest@ =~= seq![b] + old_rest);
            Some((rest, j))
        },
        None => None,
    }
}

/// Read the maximal digit run from `i`.
pub fn digits_run_exec(v: &Vec<u8>, i: usize) -> (r: (Vec<u8>, usize))
    requires
        i <= v@.len(),
    ensures
        digits_run(v@, i as int) == (r.0@, r.1 as int),
        i <= r.1 <= v@.len(),
        forall|k: int| 0 <= k < r.0@.len() ==> is_digit(#[trigger] r.0@[k]),
    decreases v@.len() - i,
{
    let n = v.len();
    if i >= n || !(48 <= v[i] && v[i] <= 57) {
        let empty: Vec<u8> = Vec::new();
        assert(empty@ =~= Seq::<u8>::empty());
        return (empty, i);
    }
    let b = v[i];
    let (mut ds, j) = digits_run_exec(v, i + 1);
    let ghost old_ds = ds@;
    ds.insert(0, b);
    assert(ds@ =~= seq![b] + old_ds);
    (ds, j)
}

/// Numeric value of a digit run, if it fits.
pub fn dec_value_u64(ds: &Vec<u8>) -> (r: Option<u64>)
    requires
        forall|k: int| 0 <= k < ds@.len() ==> is_digit(#[trigger] ds@[k]),
    ensures
        match r {
            Some(x) => dec_value(ds@) == x,
            None => dec_value(ds@) > u64::MAX,
        },
{
    let n = ds.len();
    let mut acc: u64 = 0;
    let mut i: usize = 0;
    while i < n
        invariant
            i <= n,
            n == ds@.len(),
            forall|k: int| 0 <= k < ds@.len() ==> is_digit(#[trigger] ds@[k]),
            acc == dec_value(ds@.subrange(0, i as int)),
        decreases n - i,
    {
        let d = ds[i] - 48;
        let t: u128 = (acc as u128) * 10 + (d as u128);
        proof {
            assert(ds@.subrange(0, i + 1) =~= ds@.subrange(0, i as int).push(ds@[i as int]));
            assert(ds@.subrange(0, i + 1).drop_last() =~= ds@.subrange(0, i as int));
        }
        if t > u64::MAX as u128 {
            proof {
                assert(dec_value(ds@.subrange(0, i + 1)) > u64::MAX);
                lemma_dec_value_mono(ds@.subrange(0, i + 1), ds@.subrange(i + 1, n as int));
                assert(ds@.subrange(0, i + 1) + ds@.subrange(i + 1, n as int) =~= ds@);
            }
            return None;
        }
        acc = t as u64;
        i = i + 1;
    }
    assert(ds@.subrange(0, n as int) =~= ds@);
    Some(acc)
}

/// The claims a payload carries, if it is well-formed.
pub fn parse_payload_exec(v: &Vec<u8>) -> (r: Option<(Vec<u8>, u64)>)
    ensures
        match r {
            Some(p) => parse_payload(v@) == Some((p.0@, p.1)),
            None => parse_payload(v@) is None,
        },
{
    let n = v.len();
    let pre = payload_prefix_vec();
    if n < 13 {
        return None;
    }
    if !match_at(v, 0, &pre) {
        return None;
    }
    let (uid, q) = match scan_jstr_exec(v, 12) {
        Some(p) => p,
        None => {
            return None;
        },
    };
    let mid = payload_middle_vec();
    if n - q < 8 {
        return None;
    }
    if !match_at(v, q, &mid) {
        return None;
    }
    let (ds, j) = digits_run_exec(v, q + 8);
    if ds.len() == 0 {
        return None;
    }
    if ds.len() > 1 && ds[0] == 48 {
        return None;
    }
    let x = match dec_value_u64(&ds) {
        Some(x) => x,
        None => {
            return None;
        },
    };
    if j != n - 1 {
        return None;
    }
    if v[j] != 125 {
        return None;
    }
    Some((uid, x))
}

/// Lay the claims out on the wire; the result parses back to exactly them.
pub fn build_payload(uid: &[u8], exp: u64) -> (r: Vec<u8>)
    ensures
        parse_payload(r@) == Some((uid@, exp)),
{
    let mut out = payload_prefix_vec();
    let e = escape(uid);
    out.extend_from_slice(e.as_slice());
    let ghost after_esc = out@;
    let mid = payload_middle_vec();
    out.extend_from_slice(mid.as_slice());
    let ghost after_mid = out@;
    let ds = fmt_u64(exp);
    out.extend_from_slice(ds.as_slice());
    out.push(125);
    proof {
        let pre = payload_prefix();
        let ee = esc_of(uid@);
        let mm = payload_middle();
        let dd = dec_digits_of(exp as nat);
        let vv = out@;
        assert(after_esc =~= pre + ee);
        assert(after_mid =~= (pre + ee) + mm);
        assert(vv =~= ((pre + ee) + mm + dd).push(125));
        assert(vv =~= pre + ee + mm + dd + seq![125u8]);
        let q = 12 + ee.len() as int;
        assert(vv.len() == 21 + ee.len() + dd.len());
        assert(vv.subrange(0, 12) =~= pre);
        assert(vv.subrange(12, q) =~= ee);
        assert(vv[q] == mm[0]);
        assert(vv[q] == 34);
        lemma_scan_jstr_of_esc(vv, 12, uid@);
        assert(vv.subrange(q, q + 8) =~= mm);
        lemma_dec_digits(exp as nat);
        assert(vv.subrange(q + 8, q + 8 + dd.len()) =~= dd);
        assert(q + 8 + dd.len() == vv.len() - 1);
        assert(vv[vv.len() - 1] == 125);
        assert(!is_digit(125));
        lemma_digits_run_at(vv, q + 8, dd);
        assert(dec_value(dd) == exp as nat);
        if dd.len() > 1 {
            assert(exp >= 10);
            assert(dd[0] != 48);
        }
        assert(parse_payload(vv) == Some((uid@, exp)));
    }
    out
}


} // verus!
