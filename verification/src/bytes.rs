//! Byte-sequence utilities shared by the protocol engine: whitespace
//! tokenisation, CRLF search, decimal parsing, trimming and splitting.
use vstd::multiset::Multiset;
use vstd::prelude::*;

verus! {

/// ASCII whitespace: space, tab, line feed, vertical tab, form feed, carriage return.
pub open spec fn is_ws_byte(b: u8) -> bool {
    b == 32 || (9 <= b && b <= 13)
}

pub open spec fn is_dec_digit(b: u8) -> bool {
    48 <= b && b <= 57
}

pub open spec fn seq_starts_with(s: Seq<u8>, p: Seq<u8>) -> bool {
    p.len() <= s.len() && s.subrange(0, p.len() as int) == p
}

pub open spec fn seq_ends_with(s: Seq<u8>, p: Seq<u8>) -> bool {
    p.len() <= s.len() && s.subrange(s.len() - p.len(), s.len() as int) == p
}

/// Index of the first CRLF pair at or after `from`, if any.
pub open spec fn find_crlf_at(s: Seq<u8>, from: int) -> Option<int>
    decreases s.len() - from when 0 <= from
{
    if from + 2 > s.len() {
        None
    } else if s[from] == 13 && s[from + 1] == 10 {
        Some(from)
    } else {
        find_crlf_at(s, from + 1)
    }
}

pub open spec fn find_crlf(s: Seq<u8>) -> Option<int> {
    find_crlf_at(s, 0)
}

pub proof fn lemma_find_crlf_at_bounds(s: Seq<u8>, from: int)
    requires
        0 <= from,
    ensures
        find_crlf_at(s, from) matches Some(i) ==> from <= i && i + 2 <= s.len() && s[i] == 13
            && s[i + 1] == 10,
    decreases s.len() - from,
{
    if from + 2 > s.len() {
    } else if s[from] == 13 && s[from + 1] == 10 {
    } else {
        lemma_find_crlf_at_bounds(s, from + 1);
    }
}

/// A CRLF found in `s` is still the first CRLF after appending more bytes.
pub proof fn lemma_find_crlf_at_append(s: Seq<u8>, e: Seq<u8>, from: int)
    requires
        0 <= from,
        find_crlf_at(s, from) is Some,
    ensures
        find_crlf_at(s + e, from) == find_crlf_at(s, from),
    decreases s.len() - from,
{
    if from + 2 > s.len() {
    } else if s[from] == 13 && s[from + 1] == 10 {
        assert((s + e)[from] == 13 && (s + e)[from + 1] == 10);
    } else {
        assert((s + e)[from] == s[from] && (s + e)[from + 1] == s[from + 1]);
        lemma_find_crlf_at_append(s, e, from + 1);
    }
}

/// First CRLF search, equal to `find_crlf` on the vector's contents.
pub fn find_crlf_vec(v: &Vec<u8>) -> (r: Option<usize>)
    ensures
        match r {
            Some(i) => find_crlf(v@) == Some(i as int),
            None => find_crlf(v@) is None,
        },
{
    let mut i: usize = 0;
    if v.len() < 2 {
        assert(find_crlf_at(v@, 0) is None);
        return None;
    }
    while i <= v.len() - 2
        invariant
            v@.len() >= 2,
            0 <= i <= v@.len() - 1,
            find_crlf_at(v@, 0) == find_crlf_at(v@, i as int),
        decreases v@.len() - i,
    {
        if v[i] == 13 && v[i + 1] == 10 {
            return Some(i);
        }
        assert(find_crlf_at(v@, i as int) == find_crlf_at(v@, i + 1 as int));
        i = i + 1;
    }
    assert(find_crlf_at(v@, i as int) is None);
    None
}

/// First occurrence of non-empty pattern `p` in `s` at or after `from`.
pub open spec fn find_sub_at(s: Seq<u8>, p: Seq<u8>, from: int) -> Option<int>
    decreases s.len() - from when 0 <= from && 1 <= p.len()
{
    if from + p.len() > s.len() {
        None
    } else if s.subrange(from, from + p.len()) == p {
        Some(from)
    } else {
        find_sub_at(s, p, from + 1)
    }
}

pub proof fn lemma_find_sub_at_bounds(s: Seq<u8>, p: Seq<u8>, from: int)
    requires
        0 <= from,
        1 <= p.len(),
    ensures
        find_sub_at(s, p, from) matches Some(i) ==> from <= i && i + p.len() <= s.len()
            && s.subrange(i, i + p.len()) == p,
    decreases s.len() - from,
{
    if from + p.len() > s.len() {
    } else if s.subrange(from, from + p.len()) == p {
    } else {
        lemma_find_sub_at_bounds(s, p, from + 1);
    }
}

/// Whether the window of `s` starting at `i` equals `p`.
pub fn window_eq(s: &Vec<u8>, i: usize, p: &Vec<u8>) -> (r: bool)
    requires
        i + p@.len() <= s@.len(),
    ensures
        r == (s@.subrange(i as int, i + p@.len()) == p@),
{
    let slen = s.len();
    let mut j: usize = 0;
    while j < p.len()
        invariant
            0 <= j <= p@.len(),
            i + p@.len() <= s@.len(),
            slen == s@.len(),
            s@.subrange(i as int, i + j) == p@.subrange(0, j as int),
        decreases p@.len() - j,
    {
        let sb = s[i + j];
        let pb = p[j];
        if sb != pb {
            proof {
                let w = s@.subrange(i as int, i + p@.len());
                assert(w[j as int] == s@[i + j]);
                assert(w != p@);
            }
            return false;
        }
        proof {
            assert(s@.subrange(i as int, i + j + 1) =~= s@.subrange(i as int, i + j).push(sb));
            assert(p@.subrange(0, j + 1) =~= p@.subrange(0, j as int).push(pb));
        }
        j = j + 1;
    }
    proof {
        assert(p@.subrange(0, p@.len() as int) =~= p@);
    }
    true
}

/// Whether two byte vectors hold the same bytes.
pub fn bytes_eq(a: &Vec<u8>, b: &Vec<u8>) -> (r: bool)
    ensures
        r == (a@ == b@),
{
    if a.len() != b.len() {
        return false;
    }
    let r = window_eq(a, 0, b);
    proof {
        assert(a@.subrange(0, b@.len() as int) =~= a@);
    }
    r
}

/// Substring search, equal to `find_sub_at(_, _, 0)`.
pub fn find_sub(s: &Vec<u8>, p: &Vec<u8>) -> (r: Option<usize>)
    requires
        p@.len() >= 1,
    ensures
        match r {
            Some(i) => find_sub_at(s@, p@, 0) == Some(i as int),
            None => find_sub_at(s@, p@, 0) is None,
        },
{
    if p.len() > s.len() {
        assert(find_sub_at(s@, p@, 0) is None);
        return None;
    }
    let mut i: usize = 0;
    while i <= s.len() - p.len()
        invariant
            p@.len() >= 1,
            p@.len() <= s@.len(),
            0 <= i <= s@.len() - p@.len() + 1,
            find_sub_at(s@, p@, 0) == find_sub_at(s@, p@, i as int),
        decreases s@.len() - i,
    {
        if window_eq(s, i, p) {
            return Some(i);
        }
        assert(find_sub_at(s@, p@, i as int) == find_sub_at(s@, p@, i + 1 as int));
        i = i + 1;
    }
    assert(find_sub_at(s@, p@, i as int) is None);
    None
}

} // verus!

verus! {

/// First index at or after `i` holding a non-whitespace byte, else `s.len()`.
pub open spec fn next_non_ws(s: Seq<u8>, i: int) -> int
    decreases s.len() - i when 0 <= i <= s.len()
{
    if i == s.len() {
        i
    } else if is_ws_byte(s[i]) {
        next_non_ws(s, i + 1)
    } else {
        i
    }
}

pub proof fn lemma_next_non_ws(s: Seq<u8>, i: int)
    requires
        0 <= i <= s.len(),
    ensures
        i <= next_non_ws(s, i) <= s.len(),
        next_non_ws(s, i) < s.len() ==> !is_ws_byte(s[next_non_ws(s, i)]),
        forall|j: int| i <= j < next_non_ws(s, i) ==> is_ws_byte(s[j]),
    decreases s.len() - i,
{
    if i == s.len() {
    } else if is_ws_byte(s[i]) {
        lemma_next_non_ws(s, i + 1);
    } else {
    }
}

/// First index at or after `i` holding a whitespace byte, else `s.len()`.
pub open spec fn next_ws(s: Seq<u8>, i: int) -> int
    decreases s.len() - i when 0 <= i <= s.len()
{
    if i == s.len() {
        i
    } else if !is_ws_byte(s[i]) {
        next_ws(s, i + 1)
    } else {
        i
    }
}

pub proof fn lemma_next_ws(s: Seq<u8>, i: int)
    requires
        0 <= i <= s.len(),
    ensures
        i <= next_ws(s, i) <= s.len(),
        next_ws(s, i) < s.len() ==> is_ws_byte(s[next_ws(s, i)]),
        forall|j: int| i <= j < next_ws(s, i) ==> !is_ws_byte(s[j]),
    decreases s.len() - i,
{
    if i == s.len() {
    } else if !is_ws_byte(s[i]) {
        lemma_next_ws(s, i + 1);
    } else {
    }
}

/// First index at or after `i` holding `sep`, else `s.len()`.
pub open spec fn next_byte(s: Seq<u8>, sep: u8, i: int) -> int
    decreases s.len() - i when 0 <= i <= s.len()
{
    if i == s.len() {
        i
    } else if s[i] == sep {
        i
    } else {
        next_byte(s, sep, i + 1)
    }
}

pub proof fn lemma_next_byte(s: Seq<u8>, sep: u8, i: int)
    requires
        0 <= i <= s.len(),
    ensures
        i <= next_byte(s, sep, i) <= s.len(),
        next_byte(s, sep, i) < s.len() ==> s[next_byte(s, sep, i)] == sep,
        forall|j: int| i <= j < next_byte(s, sep, i) ==> s[j] != sep,
    decreases s.len() - i,
{
    if i == s.len() {
    } else if s[i] == sep {
    } else {
        lemma_next_byte(s, sep, i + 1);
    }
}

/// Index after the last non-whitespace byte of `s.take(i)`, walking back from `i`.
pub open spec fn trim_end_idx(s: Seq<u8>, i: int) -> int
    decreases i when 0 <= i <= s.len()
{
    if i == 0 {
        0
    } else if is_ws_byte(s[i - 1]) {
        trim_end_idx(s, i - 1)
    } else {
        i
    }
}

pub proof fn lemma_trim_end_idx(s: Seq<u8>, i: int)
    requires
        0 <= i <= s.len(),
    ensures
        0 <= trim_end_idx(s, i) <= i,
        trim_end_idx(s, i) > 0 ==> !is_ws_byte(s[trim_end_idx(s, i) - 1]),
        forall|j: int| trim_end_idx(s, i) <= j < i ==> is_ws_byte(s[j]),
    decreases i,
{
    if i == 0 {
    } else if is_ws_byte(s[i - 1]) {
        lemma_trim_end_idx(s, i - 1);
    } else {
    }
}

/// `s` with ASCII whitespace removed from both ends.
pub open spec fn trim_spec(s: Seq<u8>) -> Seq<u8> {
    let a = next_non_ws(s, 0);
    if a == s.len() {
        Seq::empty()
    } else {
        s.subrange(a, trim_end_idx(s, s.len() as int))
    }
}

/// The bytes of `v` in `[a, b)`.
pub fn vec_sub(v: &Vec<u8>, a: usize, b: usize) -> (r: Vec<u8>)
    requires
        a <= b <= v@.len(),
    ensures
        r@ == v@.subrange(a as int, b as int),
{
    let mut r: Vec<u8> = Vec::new();
    let mut i: usize = a;
    while i < b
        invariant
            a <= i <= b <= v@.len(),
            r@ == v@.subrange(a as int, i as int),
        decreases b - i,
    {
        r.push(v[i]);
        proof {
            assert(v@.subrange(a as int, i + 1 as int) =~= v@.subrange(a as int, i as int).push(
                v@[i as int],
            ));
        }
        i = i + 1;
    }
    r
}

/// Appends all of `src` to `out`.
pub fn append_bytes(out: &mut Vec<u8>, src: &Vec<u8>)
    ensures
        final(out)@ == old(out)@ + src@,
{
    let mut i: usize = 0;
    while i < src.len()
        invariant
            i <= src@.len(),
            out@ == old(out)@ + src@.subrange(0, i as int),
        decreases src@.len() - i,
    {
        out.push(src[i]);
        proof {
            assert(old(out)@ + src@.subrange(0, i + 1 as int) =~= (old(out)@ + src@.subrange(
                0,
                i as int,
            )).push(src@[i as int]));
        }
        i = i + 1;
    }
    proof {
        assert(src@.subrange(0, src@.len() as int) =~= src@);
    }
}

pub fn starts_with_bytes(s: &Vec<u8>, p: &Vec<u8>) -> (r: bool)
    ensures
        r == seq_starts_with(s@, p@),
{
    if p.len() > s.len() {
        return false;
    }
    window_eq(s, 0, p)
}

pub fn ends_with_bytes(s: &Vec<u8>, p: &Vec<u8>) -> (r: bool)
    ensures
        r == seq_ends_with(s@, p@),
{
    if p.len() > s.len() {
        return false;
    }
    window_eq(s, s.len() - p.len(), p)
}

pub open spec fn lower_byte(b: u8) -> u8 {
    if 65 <= b && b <= 90 {
        (b + 32) as u8
    } else {
        b
    }
}

/// ASCII-lowercases every byte.
pub fn ascii_lower(v: &Vec<u8>) -> (r: Vec<u8>)
    ensures
        r@ == v@.map_values(|b: u8| lower_byte(b)),
{
    let mut r: Vec<u8> = Vec::new();
    let mut i: usize = 0;
    while i < v.len()
        invariant
            i <= v@.len(),
            r@ == v@.subrange(0, i as int).map_values(|b: u8| lower_byte(b)),
        decreases v@.len() - i,
    {
        let b = v[i];
        if 65 <= b && b <= 90 {
            r.push(b + 32);
        } else {
            r.push(b);
        }
        proof {
            assert(v@.subrange(0, i + 1 as int).map_values(|b: u8| lower_byte(b)) =~= v@.subrange(
                0,
                i as int,
            ).map_values(|b: u8| lower_byte(b)).push(lower_byte(v@[i as int])));
        }
        i = i + 1;
    }
    proof {
        assert(v@.subrange(0, v@.len() as int) =~= v@);
    }
    r
}

/// Whether `b` is ASCII whitespace.
pub fn byte_is_ws(b: u8) -> (r: bool)
    ensures
        r == is_ws_byte(b),
{
    b == 32 || (9 <= b && b <= 13)
}

/// Removes ASCII whitespace from both ends.
pub fn trim_ws(v: &Vec<u8>) -> (r: Vec<u8>)
    ensures
        r@ == trim_spec(v@),
{
    proof {
        lemma_next_non_ws(v@, 0);
    }
    let mut a: usize = 0;
    while a < v.len() && byte_is_ws(v[a])
        invariant
            0 <= a <= v@.len(),
            next_non_ws(v@, 0) == next_non_ws(v@, a as int),
        decreases v@.len() - a,
    {
        a = a + 1;
    }
    assert(next_non_ws(v@, a as int) == a);
    if a == v.len() {
        let r: Vec<u8> = Vec::new();
        return r;
    }
    proof {
        lemma_trim_end_idx(v@, v@.len() as int);
    }
    let mut b: usize = v.len();
    while byte_is_ws(v[b - 1])
        invariant
            a < b <= v@.len(),
            a == next_non_ws(v@, 0),
            a < v@.len(),
            !is_ws_byte(v@[a as int]),
            trim_end_idx(v@, v@.len() as int) == trim_end_idx(v@, b as int),
        decreases b,
    {
        b = b - 1;
        proof {
            if b <= a {
                assert(false);
            }
        }
    }
    assert(trim_end_idx(v@, b as int) == b);
    vec_sub(v, a, b)
}

} // verus!

verus! {

/// The contents of a vector of byte vectors, as a sequence of byte sequences.
pub open spec fn views2(v: Vec<Vec<u8>>) -> Seq<Seq<u8>> {
    Seq::new(v@.len(), |i: int| v@[i]@)
}

/// The whitespace-separated tokens of `s` starting at `i`.
pub open spec fn tokenize_from(s: Seq<u8>, i: int) -> Seq<Seq<u8>>
    decreases s.len() - i when 0 <= i <= s.len()
{
    let a = next_non_ws(s, i);
    proof {
        lemma_next_non_ws(s, i);
    }
    if a >= s.len() {
        Seq::empty()
    } else {
        let b = next_ws(s, a + 1);
        proof {
            lemma_next_ws(s, a + 1);
        }
        seq![s.subrange(a, b)] + tokenize_from(s, b)
    }
}

pub open spec fn tokenize(s: Seq<u8>) -> Seq<Seq<u8>> {
    tokenize_from(s, 0)
}

/// Splits `line` on runs of ASCII whitespace, dropping empty tokens.
pub fn split_ws(line: &Vec<u8>) -> (r: Vec<Vec<u8>>)
    ensures
        views2(r) == tokenize(line@),
{
    let s = Ghost(line@);
    let mut out: Vec<Vec<u8>> = Vec::new();
    let mut i: usize = 0;
    while i < line.len()
        invariant
            0 <= i <= s@.len(),
            s@ == line@,
            tokenize(s@) == views2(out) + tokenize_from(s@, i as int),
        decreases s@.len() - i,
    {
        if byte_is_ws(line[i]) {
            proof {
                assert(next_non_ws(s@, i as int) == next_non_ws(s@, i + 1));
            }
            i = i + 1;
        } else {
            let start = i;
            proof {
                assert(next_non_ws(s@, i as int) == i);
            }
            i = i + 1;
            while i < line.len() && !byte_is_ws(line[i])
                invariant
                    start < i <= s@.len(),
                    s@ == line@,
                    next_ws(s@, start + 1) == next_ws(s@, i as int),
                decreases s@.len() - i,
            {
                proof {
                    assert(next_ws(s@, i as int) == next_ws(s@, i + 1));
                }
                i = i + 1;
            }
            proof {
                assert(next_ws(s@, i as int) == i);
            }
            let tok = vec_sub(line, start, i);
            proof {
                assert(tokenize_from(s@, start as int) == seq![s@.subrange(start as int, i as int)]
                    + tokenize_from(s@, i as int));
            }
            out.push(tok);
            proof {
                let prev = out@.drop_last();
                assert(views2(out) =~= Seq::new(prev.len(), |k: int| prev[k]@).push(
                    s@.subrange(start as int, i as int),
                ));
                assert(views2(out) + tokenize_from(s@, i as int) =~= Seq::new(
                    prev.len(),
                    |k: int| prev[k]@,
                ) + tokenize_from(s@, start as int));
            }
        }
    }
    proof {
        assert(tokenize_from(s@, i as int) =~= Seq::<Seq<u8>>::empty());
        assert(views2(out) + Seq::<Seq<u8>>::empty() =~= views2(out));
    }
    out
}

/// The fields of `s` split on the byte `sep`, starting at `i`; empty fields kept.
pub open spec fn split_byte_from(s: Seq<u8>, sep: u8, i: int) -> Seq<Seq<u8>>
    decreases s.len() - i when 0 <= i <= s.len()
{
    let j = next_byte(s, sep, i);
    proof {
        lemma_next_byte(s, sep, i);
    }
    if j >= s.len() {
        seq![s.subrange(i, s.len() as int)]
    } else {
        seq![s.subrange(i, j)] + split_byte_from(s, sep, j + 1)
    }
}

pub open spec fn split_byte(s: Seq<u8>, sep: u8) -> Seq<Seq<u8>> {
    split_byte_from(s, sep, 0)
}

/// Splits on `sep`, keeping empty fields, as the spec `split_byte` does.
pub fn split_byte_vec(v: &Vec<u8>, sep: u8) -> (r: Vec<Vec<u8>>)
    ensures
        views2(r) == split_byte(v@, sep),
{
    let s = Ghost(v@);
    let mut out: Vec<Vec<u8>> = Vec::new();
    let mut start: usize = 0;
    let mut i: usize = 0;
    loop
        invariant
            0 <= start <= i <= s@.len(),
            s@ == v@,
            next_byte(s@, sep, start as int) == next_byte(s@, sep, i as int),
            split_byte(s@, sep) == views2(out) + split_byte_from(s@, sep, start as int),
        ensures
            0 <= start <= s@.len(),
            split_byte(s@, sep) == views2(out) + split_byte_from(s@, sep, start as int),
            next_byte(s@, sep, start as int) == s@.len(),
        decreases s@.len() - i,
    {
        if i == v.len() {
            break;
        }
        if v[i] == sep {
            proof {
                assert(next_byte(s@, sep, i as int) == i);
            }
            let field = vec_sub(v, start, i);
            out.push(field);
            proof {
                let prev = out@.drop_last();
                assert(split_byte_from(s@, sep, start as int) == seq![
                    s@.subrange(start as int, i as int),
                ] + split_byte_from(s@, sep, i + 1));
                assert(views2(out) =~= Seq::new(prev.len(), |k: int| prev[k]@).push(
                    s@.subrange(start as int, i as int),
                ));
                assert(views2(out) + split_byte_from(s@, sep, i + 1) =~= Seq::new(
                    prev.len(),
                    |k: int| prev[k]@,
                ) + split_byte_from(s@, sep, start as int));
            }
            start = i + 1;
            i = i + 1;
        } else {
            proof {
                assert(next_byte(s@, sep, i as int) == next_byte(s@, sep, i + 1));
            }
            i = i + 1;
        }
    }
    let field = vec_sub(v, start, v.len());
    out.push(field);
    proof {
        assert(split_byte_from(s@, sep, start as int) == seq![
            s@.subrange(start as int, s@.len() as int),
        ]);
        let prev = out@.drop_last();
        assert(views2(out) =~= Seq::new(prev.len(), |k: int| prev[k]@).push(
            s@.subrange(start as int, s@.len() as int),
        ));
        assert(views2(out) =~= Seq::new(prev.len(), |k: int| prev[k]@) + split_byte_from(
            s@,
            sep,
            start as int,
        ));
    }
    out
}

} // verus!

verus! {

pub open spec fn all_digits(s: Seq<u8>) -> bool {
    forall|i: int| 0 <= i < s.len() ==> is_dec_digit(#[trigger] s[i])
}

/// The value of `s` read as a decimal numeral.
pub open spec fn dec_val(s: Seq<u8>) -> int
    decreases s.len(),
{
    if s.len() == 0 {
        0
    } else {
        dec_val(s.drop_last()) * 10 + (s.last() - 48)
    }
}

pub proof fn lemma_dec_val_nonneg(s: Seq<u8>)
    requires
        all_digits(s),
    ensures
        dec_val(s) >= 0,
    decreases s.len(),
{
    if s.len() > 0 {
        assert(all_digits(s.drop_last())) by {
            assert(forall|i: int| 0 <= i < s.len() - 1 ==> s.drop_last()[i] == s[i]);
        }
        lemma_dec_val_nonneg(s.drop_last());
    }
}

/// Extending an all-digit numeral never shrinks its value.
pub proof fn lemma_dec_val_monotone(s: Seq<u8>, i: int, j: int)
    requires
        all_digits(s),
        0 <= i <= j <= s.len(),
    ensures
        dec_val(s.take(i)) <= dec_val(s.take(j)),
    decreases j - i,
{
    if i < j {
        lemma_dec_val_monotone(s, i, j - 1);
        let t = s.take(j);
        assert(t.drop_last() =~= s.take(j - 1));
        assert(all_digits(s.take(j - 1))) by {
            assert(forall|k: int| 0 <= k < j - 1 ==> s.take(j - 1)[k] == s[k]);
        }
        lemma_dec_val_nonneg(s.take(j - 1));
        assert(dec_val(s.take(j - 1)) * 10 >= dec_val(s.take(j - 1))) by (nonlinear_arith)
            requires
                dec_val(s.take(j - 1)) >= 0,
        ;
    }
}

/// Parses a run of decimal digits; `None` on empty input, a non-digit
/// byte, or a value above `u64::MAX`.
fn parse_dec_digits(tok: &Vec<u8>) -> (r: Option<u64>)
    ensures
        match r {
            Some(n) => tok@.len() >= 1 && all_digits(tok@) && n as int == dec_val(tok@),
            None => tok@.len() == 0 || !all_digits(tok@) || dec_val(tok@) > u64::MAX as int,
        },
{
    if tok.len() == 0 {
        return None;
    }
    let mut acc: u64 = 0;
    let mut i: usize = 0;
    while i < tok.len()
        invariant
            0 <= i <= tok@.len(),
            all_digits(tok@.take(i as int)),
            acc as int == dec_val(tok@.take(i as int)),
        decreases tok@.len() - i,
    {
        let b = tok[i];
        if b < 48 || b > 57 {
            assert(!all_digits(tok@));
            return None;
        }
        let d = (b - 48) as u64;
        if acc > (u64::MAX - d) / 10 {
            proof {
                let m = (u64::MAX - d) as int;
                assert(m == (m / 10) * 10 + (m % 10)) by (nonlinear_arith);
                assert(m % 10 < 10 && m % 10 >= 0) by (nonlinear_arith);
                assert(acc as int >= m / 10 + 1);
                assert(acc as int * 10 >= (m / 10 + 1) * 10) by (nonlinear_arith)
                    requires
                        acc as int >= m / 10 + 1,
                ;
                assert((m / 10 + 1) * 10 == (m / 10) * 10 + 10) by (nonlinear_arith);
                assert(acc as int * 10 + d >= m + 1 + d);
                let t = tok@.take(i + 1);
                assert(t.drop_last() =~= tok@.take(i as int));
                assert(t.last() == tok@[i as int]);
                assert(dec_val(t) > u64::MAX as int);
                assert(all_digits(t)) by {
                    assert(forall|k: int| 0 <= k < i ==> t[k] == tok@.take(i as int)[k]);
                }
                if all_digits(tok@) {
                    lemma_dec_val_monotone(tok@, i + 1, tok@.len() as int);
                    assert(tok@.take(tok@.len() as int) =~= tok@);
                }
            }
            return None;
        }
        proof {
            let t = tok@.take(i + 1);
            assert(t.drop_last() =~= tok@.take(i as int));
            assert(t.last() == tok@[i as int]);
        }
        acc = acc * 10 + d;
        i = i + 1;
    }
    proof {
        assert(tok@.take(tok@.len() as int) =~= tok@);
    }
    Some(acc)
}

/// The digits of a numeral: an optional single leading plus sign is
/// allowed and ignored, as the standard integer parsers allow it.
pub open spec fn numeral_body(s: Seq<u8>) -> Seq<u8> {
    if s.len() >= 1 && s[0] == 43 {
        s.skip(1)
    } else {
        s
    }
}

pub open spec fn valid_numeral(s: Seq<u8>) -> bool {
    numeral_body(s).len() >= 1 && all_digits(numeral_body(s))
}

pub open spec fn numeral_val(s: Seq<u8>) -> int {
    dec_val(numeral_body(s))
}

/// Parses an unsigned decimal numeral, allowing one leading plus sign;
/// `None` when no digit follows, a byte is no digit, or the value is above
/// `u64::MAX`.
pub fn parse_u64(tok: &Vec<u8>) -> (r: Option<u64>)
    ensures
        match r {
            Some(n) => valid_numeral(tok@) && n as int == numeral_val(tok@),
            None => !valid_numeral(tok@) || numeral_val(tok@) > u64::MAX as int,
        },
{
    let body = if tok.len() >= 1 && tok[0] == 43 {
        let t = vec_sub(tok, 1, tok.len());
        proof {
            assert(tok@.subrange(1, tok@.len() as int) =~= tok@.skip(1));
        }
        t
    } else {
        clone_bytes(tok)
    };
    parse_dec_digits(&body)
}

/// Parses an unsigned decimal numeral that must fit in `usize`.
pub fn parse_usize(tok: &Vec<u8>) -> (r: Option<usize>)
    ensures
        match r {
            Some(n) => valid_numeral(tok@) && n as int == numeral_val(tok@),
            None => !valid_numeral(tok@) || numeral_val(tok@) > usize::MAX as int,
        },
{
    match parse_u64(tok) {
        None => {
            proof {
                if valid_numeral(tok@) {
                    assert(numeral_val(tok@) > u64::MAX as int);
                }
            }
            None
        },
        Some(n) => {
            if n <= usize::MAX as u64 {
                Some(n as usize)
            } else {
                None
            }
        },
    }
}

/// A byte that continues a UTF-8 encoded character.
pub open spec fn is_cont_byte(b: u8) -> bool {
    128 <= b && b < 192
}

/// The end of the prefix of `s` holding at most `budget` more encoded
/// characters, scanning from `i`: trailing continuation bytes stay with the
/// character they continue.
pub open spec fn preview_end(s: Seq<u8>, i: int, budget: nat) -> int
    decreases s.len() - i when 0 <= i <= s.len()
{
    if i == s.len() {
        i
    } else if is_cont_byte(s[i]) {
        preview_end(s, i + 1, budget)
    } else if budget == 0 {
        i
    } else {
        preview_end(s, i + 1, (budget - 1) as nat)
    }
}

pub proof fn lemma_preview_end(s: Seq<u8>, i: int, budget: nat)
    requires
        0 <= i <= s.len(),
    ensures
        i <= preview_end(s, i, budget) <= s.len(),
    decreases s.len() - i,
{
    if i == s.len() {
    } else if is_cont_byte(s[i]) {
        lemma_preview_end(s, i + 1, budget);
    } else if budget == 0 {
    } else {
        lemma_preview_end(s, i + 1, (budget - 1) as nat);
    }
}

/// The prefix of `v` holding at most `n` encoded characters.
pub fn preview_bytes(v: &Vec<u8>, n: usize) -> (r: Vec<u8>)
    ensures
        r@ == v@.take(preview_end(v@, 0, n as nat)),
{
    let mut i: usize = 0;
    let mut budget: usize = n;
    while i < v.len()
        invariant
            0 <= i <= v@.len(),
            preview_end(v@, 0, n as nat) == preview_end(v@, i as int, budget as nat),
        decreases v@.len() - i,
    {
        let b = v[i];
        if 128 <= b && b < 192 {
            i = i + 1;
        } else if budget == 0 {
            proof {
                assert(preview_end(v@, i as int, budget as nat) == i);
            }
            return vec_sub(v, 0, i);
        } else {
            budget = budget - 1;
            i = i + 1;
        }
    }
    proof {
        assert(preview_end(v@, i as int, budget as nat) == i);
    }
    vec_sub(v, 0, v.len())
}

} // verus!

verus! {

/// A copy of the byte vector.
pub fn clone_bytes(v: &Vec<u8>) -> (r: Vec<u8>)
    ensures
        r@ == v@,
{
    let r = vec_sub(v, 0, v.len());
    proof {
        assert(v@.subrange(0, v@.len() as int) =~= v@);
    }
    r
}

/// A copy of an optional byte vector.
pub fn clone_opt_bytes(v: &Option<Vec<u8>>) -> (r: Option<Vec<u8>>)
    ensures
        match r {
            Some(x) => v matches Some(y) && x@ == y@,
            None => v is None,
        },
{
    match v {
        Some(x) => Some(clone_bytes(x)),
        None => None,
    }
}

} // verus!

verus! {

/// The comma-separated values of `s` starting at `i`: each field trimmed of
/// ASCII whitespace, empty fields dropped.
pub open spec fn csv_fields_from(s: Seq<u8>, i: int) -> Seq<Seq<u8>>
    decreases s.len() - i when 0 <= i <= s.len()
{
    let j = next_byte(s, 44, i);
    proof {
        lemma_next_byte(s, 44, i);
    }
    let f = trim_spec(s.subrange(i, j));
    let head = if f.len() > 0 {
        seq![f]
    } else {
        Seq::<Seq<u8>>::empty()
    };
    if j >= s.len() {
        head
    } else {
        head + csv_fields_from(s, j + 1)
    }
}

pub open spec fn csv_fields(s: Seq<u8>) -> Seq<Seq<u8>> {
    csv_fields_from(s, 0)
}

/// Splits on commas, trims each field, drops empty fields.
pub fn split_csv(v: &Vec<u8>) -> (r: Vec<Vec<u8>>)
    ensures
        views2(r) == csv_fields(v@),
{
    let s = Ghost(v@);
    let mut out: Vec<Vec<u8>> = Vec::new();
    let mut start: usize = 0;
    let mut i: usize = 0;
    loop
        invariant
            0 <= start <= i <= s@.len(),
            s@ == v@,
            next_byte(s@, 44, start as int) == next_byte(s@, 44, i as int),
            csv_fields(s@) == views2(out) + csv_fields_from(s@, start as int),
        ensures
            0 <= start <= s@.len(),
            csv_fields(s@) == views2(out) + csv_fields_from(s@, start as int),
            next_byte(s@, 44, start as int) == s@.len(),
        decreases s@.len() - i,
    {
        if i == v.len() {
            break ;
        }
        if v[i] == 44 {
            proof {
                assert(next_byte(s@, 44, i as int) == i);
            }
            let field = vec_sub(v, start, i);
            let trimmed = trim_ws(&field);
            let ghost prev = views2(out);
            let ghost f = trim_spec(s@.subrange(start as int, i as int));
            if trimmed.len() > 0 {
                out.push(trimmed);
                proof {
                    assert(views2(out) =~= prev.push(f));
                    assert(prev.push(f) =~= prev + seq![f]);
                }
            }
            proof {
                assert(csv_fields_from(s@, start as int) == (if f.len() > 0 {
                    seq![f]
                } else {
                    Seq::<Seq<u8>>::empty()
                }) + csv_fields_from(s@, i + 1));
                assert(views2(out) + csv_fields_from(s@, i + 1) =~= prev + csv_fields_from(
                    s@,
                    start as int,
                ));
            }
            start = i + 1;
            i = i + 1;
        } else {
            proof {
                assert(next_byte(s@, 44, i as int) == next_byte(s@, 44, i + 1));
            }
            i = i + 1;
        }
    }
    let field = vec_sub(v, start, v.len());
    let trimmed = trim_ws(&field);
    let ghost prev = views2(out);
    let ghost f = trim_spec(s@.subrange(start as int, s@.len() as int));
    if trimmed.len() > 0 {
        out.push(trimmed);
        proof {
            assert(views2(out) =~= prev.push(f));
            assert(prev.push(f) =~= prev + seq![f]);
        }
    }
    proof {
        assert(csv_fields_from(s@, start as int) == (if f.len() > 0 {
            seq![f]
        } else {
            Seq::<Seq<u8>>::empty()
        }));
        if f.len() == 0 {
            assert(views2(out) =~= prev + Seq::<Seq<u8>>::empty());
        }
    }
    out
}

} // verus!

verus! {

/// If nothing in `[i, k)` is `sep` and `k` is the end or holds `sep`, the
/// separator scan from `i` stops exactly at `k`.
pub proof fn lemma_next_byte_clean_window(s: Seq<u8>, sep: u8, i: int, k: int)
    requires
        0 <= i <= k <= s.len(),
        forall|j: int| i <= j < k ==> s[j] != sep,
        k == s.len() || s[k] == sep,
    ensures
        next_byte(s, sep, i) == k,
    decreases k - i,
{
    if i < k {
        lemma_next_byte_clean_window(s, sep, i + 1, k);
    }
}

/// If no byte before `k` matches the pattern's first byte and the pattern
/// sits at `k`, the pattern search from 0 finds exactly `k`.
pub proof fn lemma_find_sub_clean_prefix(s: Seq<u8>, p: Seq<u8>, from: int, k: int)
    requires
        1 <= p.len(),
        0 <= from <= k,
        k + p.len() <= s.len(),
        forall|j: int| from <= j < k ==> s[j] != p[0],
        s.subrange(k, k + p.len()) == p,
    ensures
        find_sub_at(s, p, from) == Some(k),
    decreases k - from,
{
    if from == k {
    } else {
        assert(s.subrange(from, from + p.len())[0] == s[from]);
        assert(s.subrange(from, from + p.len()) != p);
        lemma_find_sub_clean_prefix(s, p, from + 1, k);
    }
}

} // verus!

verus! {

// ---------------------------------------------------------------------------
// Byte-lexicographic order, and sorting key lists by it
// ---------------------------------------------------------------------------
/// Byte-lexicographic order: a proper prefix comes first, otherwise the
/// first differing byte decides.
pub open spec fn lex_le(a: Seq<u8>, b: Seq<u8>) -> bool
    decreases a.len(),
{
    if a.len() == 0 {
        true
    } else if b.len() == 0 {
        false
    } else if a[0] < b[0] {
        true
    } else if a[0] > b[0] {
        false
    } else {
        lex_le(a.skip(1), b.skip(1))
    }
}

/// The order as a relation value, for the sorting vocabulary.
pub open spec fn lex_leq() -> spec_fn(Seq<u8>, Seq<u8>) -> bool {
    |a: Seq<u8>, b: Seq<u8>| lex_le(a, b)
}

pub proof fn lemma_lex_le_refl(a: Seq<u8>)
    ensures
        lex_le(a, a),
    decreases a.len(),
{
    if a.len() > 0 {
        lemma_lex_le_refl(a.skip(1));
    }
}

pub proof fn lemma_lex_le_antisym(a: Seq<u8>, b: Seq<u8>)
    requires
        lex_le(a, b),
        lex_le(b, a),
    ensures
        a == b,
    decreases a.len(),
{
    if a.len() == 0 {
        if b.len() > 0 {
            assert(!lex_le(b, a));
        }
        assert(a =~= b);
    } else {
        assert(b.len() > 0);
        assert(a[0] == b[0]);
        lemma_lex_le_antisym(a.skip(1), b.skip(1));
        assert forall|k: int| 0 <= k < a.len() implies a[k] == b[k] by {
            if k > 0 {
                assert(a[k] == a.skip(1)[k - 1]);
                assert(b[k] == b.skip(1)[k - 1]);
            }
        }
        assert(a =~= b);
    }
}

pub proof fn lemma_lex_le_trans(a: Seq<u8>, b: Seq<u8>, c: Seq<u8>)
    requires
        lex_le(a, b),
        lex_le(b, c),
    ensures
        lex_le(a, c),
    decreases a.len(),
{
    if a.len() == 0 {
    } else {
        assert(b.len() > 0);
        assert(c.len() > 0);
        if a[0] == b[0] && b[0] == c[0] {
            lemma_lex_le_trans(a.skip(1), b.skip(1), c.skip(1));
        }
    }
}

pub proof fn lemma_lex_le_connected(a: Seq<u8>, b: Seq<u8>)
    ensures
        lex_le(a, b) || lex_le(b, a),
    decreases a.len(),
{
    if a.len() > 0 && b.len() > 0 && a[0] == b[0] {
        lemma_lex_le_connected(a.skip(1), b.skip(1));
    }
}

/// The byte-lexicographic order is a total ordering.
pub proof fn lemma_lex_total_ordering()
    ensures
        vstd::relations::total_ordering(lex_leq()),
{
    let r = lex_leq();
    assert forall|x: Seq<u8>| #[trigger] r(x, x) by {
        lemma_lex_le_refl(x);
    }
    assert forall|x: Seq<u8>, y: Seq<u8>| #[trigger] r(x, y) && #[trigger] r(y, x) implies x
        == y by {
        lemma_lex_le_antisym(x, y);
    }
    assert forall|x: Seq<u8>, y: Seq<u8>, z: Seq<u8>| #[trigger] r(x, y) && #[trigger] r(
        y,
        z,
    ) implies r(x, z) by {
        lemma_lex_le_trans(x, y, z);
    }
    assert forall|x: Seq<u8>, y: Seq<u8>| #[trigger] r(x, y) || #[trigger] r(y, x) by {
        lemma_lex_le_connected(x, y);
    }
}

/// Decides the byte-lexicographic order.
pub fn lex_le_bytes(a: &Vec<u8>, b: &Vec<u8>) -> (r: bool)
    ensures
        r == lex_le(a@, b@),
{
    let mut i: usize = 0;
    proof {
        assert(a@.skip(0) =~= a@);
        assert(b@.skip(0) =~= b@);
    }
    while i < a.len() && i < b.len()
        invariant
            0 <= i <= a@.len(),
            i <= b@.len(),
            lex_le(a@, b@) == lex_le(a@.skip(i as int), b@.skip(i as int)),
        decreases a@.len() - i,
    {
        let x = a[i];
        let y = b[i];
        proof {
            assert(a@.skip(i as int)[0] == x);
            assert(b@.skip(i as int)[0] == y);
        }
        if x < y {
            return true;
        }
        if x > y {
            return false;
        }
        proof {
            assert(a@.skip(i as int).skip(1) =~= a@.skip(i + 1));
            assert(b@.skip(i as int).skip(1) =~= b@.skip(i + 1));
        }
        i = i + 1;
    }
    a.len() <= b.len()
}

/// Sorts a list of byte strings into byte-lexicographic order: the result
/// is exactly the specification-level sort of the input's contents.
pub fn sort_byte_vecs(keys: &Vec<Vec<u8>>) -> (r: Vec<Vec<u8>>)
    ensures
        views2(r) == views2(*keys).sort_by(lex_leq()),
{
    broadcast use vstd::seq_lib::group_to_multiset_ensures;

    let mut out: Vec<Vec<u8>> = Vec::new();
    let mut i: usize = 0;
    proof {
        assert(views2(out) =~= Seq::<Seq<u8>>::empty());
        assert(views2(*keys).take(0) =~= Seq::<Seq<u8>>::empty());
    }
    while i < keys.len()
        invariant
            0 <= i <= keys@.len(),
            vstd::relations::sorted_by(views2(out), lex_leq()),
            views2(out).to_multiset() == views2(*keys).take(i as int).to_multiset(),
        decreases keys@.len() - i,
    {
        broadcast use vstd::seq_lib::group_to_multiset_ensures;

        let x = clone_bytes(&keys[i]);
        let ghost xv = x@;
        let mut p: usize = 0;
        while p < out.len() && lex_le_bytes(&out[p], &x)
            invariant
                0 <= p <= out@.len(),
                xv == x@,
                forall|j: int| 0 <= j < p ==> lex_le(#[trigger] views2(out)[j], xv),
            decreases out@.len() - p,
        {
            proof {
                assert(views2(out)[p as int] == out@[p as int]@);
            }
            p = p + 1;
        }
        proof {
            if p < out@.len() {
                assert(views2(out)[p as int] == out@[p as int]@);
                assert(!lex_le(views2(out)[p as int], xv));
                lemma_lex_le_connected(views2(out)[p as int], xv);
            }
        }
        let ghost before = views2(out);
        out.insert(p, x);
        proof {
            // contents: inserting is a push in multiset terms
            assert(views2(out) =~= before.take(p as int) + seq![xv] + before.skip(p as int));
            assert(before.take(p as int) + before.skip(p as int) =~= before);
            vstd::seq_lib::lemma_multiset_commutative(
                before.take(p as int) + seq![xv],
                before.skip(p as int),
            );
            vstd::seq_lib::lemma_multiset_commutative(before.take(p as int), seq![xv]);
            vstd::seq_lib::lemma_multiset_commutative(before.take(p as int), before.skip(p as int));
            assert(seq![xv].to_multiset() =~= Multiset::<Seq<u8>>::empty().insert(xv)) by {
                assert(seq![xv].drop_first() =~= Seq::<Seq<u8>>::empty());
            }
            assert(views2(out).to_multiset() =~= before.to_multiset().insert(xv));
            assert(views2(*keys).take(i + 1) =~= views2(*keys).take(i as int).push(
                views2(*keys)[i as int],
            ));
            assert(views2(*keys)[i as int] == keys@[i as int]@);
            // order: everything before the slot is at most x, everything
            // after is at least x, and the old order stands elsewhere
            let leq = lex_leq();
            assert forall|u: int, v: int|
                0 <= u < v < views2(out).len() implies #[trigger] leq(
                views2(out)[u],
                views2(out)[v],
            ) by {
                let ou = views2(out)[u];
                let ov = views2(out)[v];
                assert(ou == if u < p {
                    before[u]
                } else if u == p {
                    xv
                } else {
                    before[u - 1]
                });
                assert(ov == if v < p {
                    before[v]
                } else if v == p {
                    xv
                } else {
                    before[v - 1]
                });
                if v < p {
                    assert(leq(before[u], before[v]));
                } else if v == p {
                    assert(lex_le(before[u], xv));
                } else if u == p {
                    assert(v >= p + 1 && p < before.len());
                    assert(lex_le(xv, before[p as int]));
                    if v - 1 > p {
                        assert(leq(before[p as int], before[v - 1]));
                        lemma_lex_le_trans(xv, before[p as int], before[v - 1]);
                    }
                } else if u < p {
                    if v - 1 == u {
                        lemma_lex_le_refl(before[u]);
                    } else {
                        assert(leq(before[u], before[v - 1]));
                    }
                } else {
                    if v - 1 == u - 1 {
                        lemma_lex_le_refl(before[u - 1]);
                    } else {
                        assert(leq(before[u - 1], before[v - 1]));
                    }
                }
                assert(lex_le(ou, ov));
            }
            assert(vstd::relations::sorted_by(views2(out), lex_leq()));
        }
        i = i + 1;
    }
    proof {
        assert(views2(*keys).take(keys@.len() as int) =~= views2(*keys));
        lemma_lex_total_ordering();
        views2(*keys).lemma_sort_by_ensures(lex_leq());
        vstd::seq_lib::lemma_sorted_unique(
            views2(out),
            views2(*keys).sort_by(lex_leq()),
            lex_leq(),
        );
    }
    out
}

} // verus!
