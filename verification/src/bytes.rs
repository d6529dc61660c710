//! Byte-string scanning used by the token format: finding separators and
//! splitting a compact token into its three dot-delimited parts.
use vstd::prelude::*;

verus! {

/// Index of the first occurrence of `b` at or after `i`, if any.
pub open spec fn find_byte(v: Seq<u8>, b: u8, i: int) -> Option<int>
    decreases v.len() - i,
{
    if i < 0 || i >= v.len() {
        None
    } else if v[i] == b {
        Some(i)
    } else {
        find_byte(v, b, i + 1)
    }
}

/// `find_byte` skips exactly the bytes that differ from `b`.
pub proof fn lemma_find_byte_skip(v: Seq<u8>, b: u8, from: int, at: int)
    requires
        0 <= from <= at <= v.len(),
        forall|k: int| from <= k < at ==> v[k] != b,
        at == v.len() || v[at] == b,
    ensures
        if at == v.len() {
            find_byte(v, b, from) is None
        } else {
            find_byte(v, b, from) == Some(at)
        },
    decreases at - from,
{
    if from < at {
        lemma_find_byte_skip(v, b, from + 1, at);
    }
}

/// A found index really carries `b` and lies in range.
pub proof fn lemma_find_byte_found(v: Seq<u8>, b: u8, from: int, at: int)
    requires
        find_byte(v, b, from) == Some(at),
    ensures
        0 <= from <= at < v.len(),
        v[at] == b,
    decreases v.len() - from,
{
    if 0 <= from < v.len() {
        if v[from] != b {
            lemma_find_byte_found(v, b, from + 1, at);
        }
    }
}

/// A split token is exactly its three parts joined by the two separators.
pub proof fn lemma_split3_join(v: Seq<u8>, b: u8)
    requires
        split3(v, b) is Some,
    ensures
        split3(v, b) matches Some((h, p, s)) ==> v == h + seq![b] + p + seq![b] + s,
{
    match find_byte(v, b, 0) {
        Some(i) => {
            lemma_find_byte_found(v, b, 0, i);
            match find_byte(v, b, i + 1) {
                Some(j) => {
                    lemma_find_byte_found(v, b, i + 1, j);
                    assert(v =~= v.subrange(0, i) + seq![b] + v.subrange(i + 1, j) + seq![b]
                        + v.subrange(j + 1, v.len() as int));
                },
                None => {},
            }
        },
        None => {},
    }
}

/// The three parts of `v` if it contains exactly two occurrences of `b`:
/// what stands before the first, between the two, and after the second.
pub open spec fn split3(v: Seq<u8>, b: u8) -> Option<(Seq<u8>, Seq<u8>, Seq<u8>)> {
    match find_byte(v, b, 0) {
        Some(i) => match find_byte(v, b, i + 1) {
            Some(j) => match find_byte(v, b, j + 1) {
                Some(_) => None,
                None => Some(
                    (v.subrange(0, i), v.subrange(i + 1, j), v.subrange(j + 1, v.len() as int)),
                ),
            },
            None => None,
        },
        None => None,
    }
}

/// Joining three `b`-free parts with two `b` separators splits back into
/// exactly those parts.
pub proof fn lemma_split3_of_parts(h: Seq<u8>, p: Seq<u8>, s: Seq<u8>, b: u8)
    requires
        forall|k: int| 0 <= k < h.len() ==> h[k] != b,
        forall|k: int| 0 <= k < p.len() ==> p[k] != b,
        forall|k: int| 0 <= k < s.len() ==> s[k] != b,
    ensures
        split3(h + seq![b] + p + seq![b] + s, b) == Some((h, p, s)),
{
    let v = h + seq![b] + p + seq![b] + s;
    let i = h.len() as int;
    let j = i + 1 + p.len() as int;
    assert(v[i] == b && v[j] == b);
    lemma_find_byte_skip(v, b, 0, i);
    lemma_find_byte_skip(v, b, i + 1, j);
    lemma_find_byte_skip(v, b, j + 1, v.len() as int);
    assert(v.subrange(0, i) =~= h);
    assert(v.subrange(i + 1, j) =~= p);
    assert(v.subrange(j + 1, v.len() as int) =~= s);
}

/// Find the first occurrence of `b` at or after `from`.
pub fn find_byte_exec(v: &Vec<u8>, b: u8, from: usize) -> (r: Option<usize>)
    requires
        from <= v@.len(),
    ensures
        match r {
            Some(i) => find_byte(v@, b, from as int) == Some(i as int) && from <= i < v@.len()
                && v@[i as int] == b,
            None => find_byte(v@, b, from as int) is None,
        },
{
    let mut i = from;
    while i < v.len()
        invariant
            from <= i <= v@.len(),
            forall|k: int| from <= k < i ==> v@[k] != b,
        decreases v@.len() - i,
    {
        if v[i] == b {
            proof {
                lemma_find_byte_skip(v@, b, from as int, i as int);
            }
            return Some(i);
        }
        i = i + 1;
    }
    proof {
        lemma_find_byte_skip(v@, b, from as int, v@.len() as int);
    }
    None
}

/// Copy `v[from..to]` into a fresh vector.
pub fn sub_vec(v: &Vec<u8>, from: usize, to: usize) -> (r: Vec<u8>)
    requires
        from <= to <= v@.len(),
    ensures
        r@ == v@.subrange(from as int, to as int),
{
    let mut out: Vec<u8> = Vec::new();
    let mut i = from;
    while i < to
        invariant
            from <= i <= to <= v@.len(),
            out@.len() == i - from,
            forall|k: int| 0 <= k < out@.len() ==> out@[k] == v@[from + k],
        decreases to - i,
    {
        out.push(v[i]);
        i = i + 1;
    }
    assert(out@ =~= v@.subrange(from as int, to as int));
    out
}

/// Are two byte strings equal?
pub fn vec_eq(a: &Vec<u8>, b: &Vec<u8>) -> (r: bool)
    ensures
        r == (a@ == b@),
{
    let n = a.len();
    if n != b.len() {
        return false;
    }
    let mut i: usize = 0;
    while i < n
        invariant
            i <= n,
            n == a@.len() == b@.len(),
            forall|k: int| 0 <= k < i ==> a@[k] == b@[k],
        decreases n - i,
    {
        if a[i] != b[i] {
            return false;
        }
        i = i + 1;
    }
    assert(a@ =~= b@);
    true
}

/// Split a byte string on exactly two occurrences of `b`.
pub fn split3_exec(v: &Vec<u8>, b: u8) -> (r: Option<(Vec<u8>, Vec<u8>, Vec<u8>)>)
    ensures
        match r {
            Some(parts) => split3(v@, b) == Some((parts.0@, parts.1@, parts.2@)),
            None => split3(v@, b) is None,
        },
{
    let n = v.len();
    let i = match find_byte_exec(v, b, 0) {
        Some(i) => i,
        None => {
            return None;
        },
    };
    assert(i < n);
    let j = match find_byte_exec(v, b, i + 1) {
        Some(j) => j,
        None => {
            return None;
        },
    };
    assert(j < n);
    match find_byte_exec(v, b, j + 1) {
        Some(_) => None,
        None => Some((sub_vec(v, 0, i), sub_vec(v, i + 1, j), sub_vec(v, j + 1, v.len()))),
    }
}

} // verus!
