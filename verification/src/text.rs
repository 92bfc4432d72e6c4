//! Character-level string helpers shared by every module: conversion between
//! `&str` / `String` and `Vec<char>`, equality and prefix tests.

use vstd::prelude::*;
use vstd::string::*;

verus! {

/// `s` starts with `p`.
pub open spec fn has_prefix(s: Seq<char>, p: Seq<char>) -> bool {
    p.len() <= s.len() && s.subrange(0, p.len() as int) == p
}

/// The characters of `s`, in order.
pub fn chars_of(s: &str) -> (v: Vec<char>)
    ensures
        v@ == s@,
{
    let n = s.unicode_len();
    let mut v: Vec<char> = Vec::new();
    let mut i: usize = 0;
    while i < n
        invariant
            i <= n,
            n == s@.len(),
            v@ == s@.subrange(0, i as int),
        decreases n - i,
    {
        let c = s.get_char(i);
        v.push(c);
        i = i + 1;
    }
    v
}

/// Appends one character (std `String::push`).
#[verifier::external_body]
pub(crate) fn push_char(s: &mut String, c: char)
    ensures
        final(s)@ == old(s)@.push(c),
{
    s.push(c);
}

/// The string made of the characters of `v[from..to]`.
pub fn string_of_range(v: &Vec<char>, from: usize, to: usize) -> (s: String)
    requires
        from <= to <= v.len(),
    ensures
        s@ == v@.subrange(from as int, to as int),
{
    let mut s = String::new();
    let mut i = from;
    while i < to
        invariant
            from <= i <= to,
            to <= v.len(),
            s@ == v@.subrange(from as int, i as int),
        decreases to - i,
    {
        push_char(&mut s, v[i]);
        i = i + 1;
    }
    s
}

/// The string made of the characters of `v`.
pub fn string_of(v: &Vec<char>) -> (s: String)
    ensures
        s@ == v@,
{
    let s = string_of_range(v, 0, v.len());
    assert(v@.subrange(0, v@.len() as int) == v@);
    s
}

/// Appends `t` to `s`.
pub fn push_str(s: &mut String, t: &str)
    ensures
        final(s)@ == old(s)@ + t@,
{
    s.append(t);
}

/// An owned copy of `s`.
pub fn owned(s: &str) -> (r: String)
    ensures
        r@ == s@,
{
    s.to_owned()
}

/// Character-wise equality of two sequences held in vectors.
pub fn chars_eq(a: &Vec<char>, b: &Vec<char>) -> (r: bool)
    ensures
        r == (a@ == b@),
{
    if a.len() != b.len() {
        return false;
    }
    let mut i: usize = 0;
    while i < a.len()
        invariant
            i <= a.len(),
            a.len() == b.len(),
            a@.subrange(0, i as int) == b@.subrange(0, i as int),
        decreases a.len() - i,
    {
        if a[i] != b[i] {
            assert(a@[i as int] != b@[i as int]);
            return false;
        }
        assert(a@.subrange(0, i + 1) == a@.subrange(0, i as int).push(a@[i as int]));
        assert(b@.subrange(0, i + 1) == b@.subrange(0, i as int).push(b@[i as int]));
        i = i + 1;
    }
    assert(a@.subrange(0, a@.len() as int) == a@);
    assert(b@.subrange(0, b@.len() as int) == b@);
    true
}

/// String equality.
pub fn str_eq(a: &str, b: &str) -> (r: bool)
    ensures
        r == (a@ == b@),
{
    let va = chars_of(a);
    let vb = chars_of(b);
    chars_eq(&va, &vb)
}

/// `v[from..]` starts with the characters of `p`.
pub fn chars_have_prefix_at(v: &Vec<char>, from: usize, p: &Vec<char>) -> (r: bool)
    requires
        from <= v.len(),
    ensures
        r == has_prefix(v@.subrange(from as int, v@.len() as int), p@),
{
    if p.len() > v.len() - from {
        return false;
    }
    let mut i: usize = 0;
    while i < p.len()
        invariant
            i <= p.len(),
            from + p.len() <= v.len(),
            v@.subrange(from as int, from + i) == p@.subrange(0, i as int),
        decreases p.len() - i,
    {
        if v[from + i] != p[i] {
            assert(v@.subrange(from as int, v@.len() as int).subrange(0, p@.len() as int)[i as int]
                != p@[i as int]);
            return false;
        }
        assert(v@.subrange(from as int, from + i + 1) == v@.subrange(from as int, from + i).push(
            v@[from + i],
        ));
        assert(p@.subrange(0, i + 1) == p@.subrange(0, i as int).push(p@[i as int]));
        i = i + 1;
    }
    assert(v@.subrange(from as int, v@.len() as int).subrange(0, p@.len() as int) == v@.subrange(
        from as int,
        from + p@.len(),
    ));
    assert(p@.subrange(0, p@.len() as int) == p@);
    true
}

/// `s` starts with `p`.
pub fn str_starts_with(s: &str, p: &str) -> (r: bool)
    ensures
        r == has_prefix(s@, p@),
{
    let vs = chars_of(s);
    let vp = chars_of(p);
    let r = chars_have_prefix_at(&vs, 0, &vp);
    assert(vs@.subrange(0, vs@.len() as int) == vs@);
    r
}


/// `p` occurs in `s` at index `i`.
pub open spec fn occurs_at(s: Seq<char>, p: Seq<char>, i: int) -> bool {
    0 <= i && i + p.len() <= s.len() && s.subrange(i, i + p.len()) == p
}

/// Index of the first occurrence of `p` in `s` at or after `i`, or `-1`.
pub open spec fn find_from(s: Seq<char>, p: Seq<char>, i: int) -> int
    decreases s.len() + 1 - i,
{
    if i < 0 || i + p.len() > s.len() {
        -1
    } else if occurs_at(s, p, i) {
        i
    } else {
        find_from(s, p, i + 1)
    }
}

/// `s` contains `p`.
pub open spec fn contains_seq(s: Seq<char>, p: Seq<char>) -> bool {
    find_from(s, p, 0) >= 0
}

pub proof fn lemma_find_from(s: Seq<char>, p: Seq<char>, i: int)
    requires
        0 <= i,
    ensures
        find_from(s, p, i) == -1 || (i <= find_from(s, p, i) && occurs_at(s, p, find_from(s, p, i))),
        find_from(s, p, i) == -1 ==> forall|k: int| i <= k ==> !#[trigger] occurs_at(s, p, k),
        find_from(s, p, i) >= 0 ==> forall|k: int|
            i <= k < find_from(s, p, i) ==> !#[trigger] occurs_at(s, p, k),
    decreases s.len() + 1 - i,
{
    if i + p.len() > s.len() {
    } else if occurs_at(s, p, i) {
    } else {
        lemma_find_from(s, p, i + 1);
    }
}

/// `s` with every non-overlapping occurrence of `p` (scanning from `i`)
/// replaced by `r`; the part before `i` is dropped.
pub open spec fn replace_from(s: Seq<char>, p: Seq<char>, r: Seq<char>, i: int) -> Seq<char>
    decreases s.len() - i,
{
    if p.len() == 0 || i < 0 || i > s.len() {
        s.subrange(i, s.len() as int)
    } else {
        let j = find_from(s, p, i);
        if j < 0 {
            s.subrange(i, s.len() as int)
        } else {
            proof {
                lemma_find_from(s, p, i);
            }
            s.subrange(i, j) + r + replace_from(s, p, r, j + p.len())
        }
    }
}

/// Laid with `r` starting at position `a` of `q`, the two share some
/// position and agree wherever both have a character.
pub open spec fn aligned(q: Seq<char>, r: Seq<char>, a: int) -> bool {
    &&& -r.len() < a < q.len()
    &&& forall|t: int| 0 <= t < q.len() && 0 <= t - a < r.len() ==> #[trigger] q[t] == r[t - a]
}

/// `q` and `r` share a stretch when laid side by side at some offset.
pub open spec fn overlaps(q: Seq<char>, r: Seq<char>) -> bool {
    exists|a: int| #[trigger] aligned(q, r, a)
}

/// Replacing `p` by `r` leaves no occurrence of `q`, when `q` cannot share a
/// stretch with `r` and either is `p` itself or does not occur from `i` on.
pub proof fn lemma_replace_leaves_none(s: Seq<char>, p: Seq<char>, r: Seq<char>, q: Seq<char>, i: int)
    requires
        p.len() > 0,
        q.len() > 0,
        0 <= i <= s.len(),
        !overlaps(q, r),
        q == p || forall|m: int| i <= m ==> !#[trigger] occurs_at(s, q, m),
    ensures
        forall|m: int| !#[trigger] occurs_at(replace_from(s, p, r, i), q, m),
    decreases s.len() - i,
{
    let out = replace_from(s, p, r, i);
    lemma_find_from(s, p, i);
    let j = find_from(s, p, i);
    if j < 0 {
        assert forall|m: int| !#[trigger] occurs_at(out, q, m) by {
            if occurs_at(out, q, m) {
                assert(s.subrange(i + m, i + m + q.len()) =~= out.subrange(m, m + q.len()));
                assert(occurs_at(s, q, i + m));
            }
        }
    } else {
        let x = s.subrange(i, j);
        let y = replace_from(s, p, r, j + p.len());
        lemma_replace_leaves_none(s, p, r, q, j + p.len());
        assert(out == x + r + y);
        assert forall|m: int| !#[trigger] occurs_at(out, q, m) by {
            if occurs_at(out, q, m) {
                let xl = x.len() as int;
                let rl = r.len() as int;
                if m + q.len() <= xl {
                    assert(s.subrange(i + m, i + m + q.len()) =~= out.subrange(m, m + q.len()));
                    assert(occurs_at(s, q, i + m));
                } else if m >= xl + rl {
                    assert(y.subrange(m - xl - rl, m - xl - rl + q.len()) =~= out.subrange(m, m + q.len()));
                    assert(occurs_at(y, q, m - xl - rl));
                } else {
                    let a = xl - m;
                    assert forall|t: int| 0 <= t < q.len() && 0 <= t - a < r.len() implies #[trigger] q[t] == r[t - a] by {
                        assert(q[t] == out.subrange(m, m + q.len())[t]);
                        assert(out[m + t] == r[t - a]);
                    }
                    assert(aligned(q, r, a));
                }
            }
        }
    }
}

/// `str::replace` for a non-empty pattern.
pub open spec fn replace_all(s: Seq<char>, p: Seq<char>, r: Seq<char>) -> Seq<char> {
    replace_from(s, p, r, 0)
}

/// The Unicode `White_Space` characters, as `char::is_whitespace` defines them.
pub open spec fn is_space(c: char) -> bool {
    ('\u{9}' <= c && c <= '\u{d}') || c == ' ' || c == '\u{85}' || c == '\u{a0}' || c
        == '\u{1680}' || ('\u{2000}' <= c && c <= '\u{200a}') || c == '\u{2028}' || c
        == '\u{2029}' || c == '\u{202f}' || c == '\u{205f}' || c == '\u{3000}'
}

/// Index of the first non-space character at or after `i` (`s.len()` if none).
pub open spec fn lead_end(s: Seq<char>, i: int) -> int
    decreases s.len() - i,
{
    if i >= s.len() {
        s.len() as int
    } else if is_space(s[i]) {
        lead_end(s, i + 1)
    } else {
        i
    }
}

/// One past the last non-space character before `n` (`0` if none).
pub open spec fn tail_start(s: Seq<char>, n: int) -> int
    decreases n,
{
    if n <= 0 {
        0
    } else if is_space(s[n - 1]) {
        tail_start(s, n - 1)
    } else {
        n
    }
}

/// `str::trim`: leading and trailing white space removed.
pub open spec fn trim_spec(s: Seq<char>) -> Seq<char> {
    let lo = lead_end(s, 0);
    let hi = tail_start(s, s.len() as int);
    if hi <= lo {
        Seq::empty()
    } else {
        s.subrange(lo, hi)
    }
}

/// `str::trim_end`: trailing white space removed.
pub open spec fn trim_end_spec(s: Seq<char>) -> Seq<char> {
    s.subrange(0, tail_start(s, s.len() as int))
}

/// ASCII upper-case letters mapped to lower case, everything else kept.
pub open spec fn lower_char(c: char) -> char {
    if 'A' <= c && c <= 'Z' {
        ((c as u32) + 32) as char
    } else {
        c
    }
}

/// `str::to_ascii_lowercase`.
pub open spec fn ascii_lower(s: Seq<char>) -> Seq<char> {
    s.map_values(|c: char| lower_char(c))
}

pub fn is_space_char(c: char) -> (r: bool)
    ensures
        r == is_space(c),
{
    ('\u{9}' <= c && c <= '\u{d}') || c == ' ' || c == '\u{85}' || c == '\u{a0}' || c
        == '\u{1680}' || ('\u{2000}' <= c && c <= '\u{200a}') || c == '\u{2028}' || c
        == '\u{2029}' || c == '\u{202f}' || c == '\u{205f}' || c == '\u{3000}'
}

pub fn lower_char_exec(c: char) -> (r: char)
    ensures
        r == lower_char(c),
{
    if 'A' <= c && c <= 'Z' {
        let b: u8 = c as u8;
        assert(b == c as u32);
        let l: u8 = b + 32;
        l as char
    } else {
        c
    }
}

/// The characters `v[from..to]` as a vector.
pub fn slice_chars(v: &Vec<char>, from: usize, to: usize) -> (r: Vec<char>)
    requires
        from <= to <= v.len(),
    ensures
        r@ == v@.subrange(from as int, to as int),
{
    let mut r: Vec<char> = Vec::new();
    let mut i = from;
    while i < to
        invariant
            from <= i <= to,
            to <= v.len(),
            r@ == v@.subrange(from as int, i as int),
        decreases to - i,
    {
        r.push(v[i]);
        assert(v@.subrange(from as int, i + 1) == v@.subrange(from as int, i as int).push(v@[i as int]));
        i = i + 1;
    }
    r
}

/// Appends the characters of `t` to `v`.
pub fn extend_chars(v: &mut Vec<char>, t: &Vec<char>)
    ensures
        final(v)@ == old(v)@ + t@,
{
    let mut i: usize = 0;
    while i < t.len()
        invariant
            i <= t.len(),
            v@ == old(v)@ + t@.subrange(0, i as int),
        decreases t.len() - i,
    {
        v.push(t[i]);
        assert(t@.subrange(0, i + 1) == t@.subrange(0, i as int).push(t@[i as int]));
        i = i + 1;
    }
    assert(t@.subrange(0, t@.len() as int) == t@);
}

/// Appends the characters of `t` to `v`.
pub fn extend_str(v: &mut Vec<char>, t: &str)
    ensures
        final(v)@ == old(v)@ + t@,
{
    let c = chars_of(t);
    extend_chars(v, &c);
}

/// `v[from..]` holds `p` at its start, i.e. `p` occurs in `v` at `from`.
pub fn occurs_at_exec(v: &Vec<char>, p: &Vec<char>, from: usize) -> (r: bool)
    requires
        from <= v.len(),
    ensures
        r == occurs_at(v@, p@, from as int),
{
    let r = chars_have_prefix_at(v, from, p);
    proof {
        let s = v@.subrange(from as int, v@.len() as int);
        if p@.len() <= s.len() {
            assert(s.subrange(0, p@.len() as int) == v@.subrange(from as int, from + p@.len()));
        }
    }
    r
}

/// First occurrence of `p` in `v` at or after `from`.
pub fn find_chars(v: &Vec<char>, p: &Vec<char>, from: usize) -> (r: Option<usize>)
    requires
        from <= v.len(),
    ensures
        match r {
            Some(j) => j as int == find_from(v@, p@, from as int),
            None => find_from(v@, p@, from as int) == -1,
        },
{
    if p.len() > v.len() {
        assert(find_from(v@, p@, from as int) == -1);
        return None;
    }
    let last = v.len() - p.len();
    if from > last {
        return None;
    }
    let mut i = from;
    loop
        invariant
            from <= i <= last,
            last + p.len() == v.len(),
            find_from(v@, p@, from as int) == find_from(v@, p@, i as int),
        decreases last - i,
    {
        if occurs_at_exec(v, p, i) {
            return Some(i);
        }
        if i == last {
            assert(find_from(v@, p@, i + 1) == -1);
            return None;
        }
        i = i + 1;
    }
}

/// `s.contains(p)` on characters.
pub fn contains_chars(v: &Vec<char>, p: &Vec<char>) -> (r: bool)
    ensures
        r == contains_seq(v@, p@),
{
    find_chars(v, p, 0).is_some()
}

/// `s.contains(p)`.
pub fn str_contains(s: &str, p: &str) -> (r: bool)
    ensures
        r == contains_seq(s@, p@),
{
    let v = chars_of(s);
    let q = chars_of(p);
    contains_chars(&v, &q)
}

/// `str::replace` with a non-empty pattern, on characters.
pub fn replace_chars(v: &Vec<char>, p: &Vec<char>, r: &Vec<char>) -> (out: Vec<char>)
    requires
        p.len() > 0,
    ensures
        out@ == replace_all(v@, p@, r@),
{
    let mut out: Vec<char> = Vec::new();
    let mut i: usize = 0;
    loop
        invariant
            i <= v.len(),
            p@.len() > 0,
            out@ + replace_from(v@, p@, r@, i as int) == replace_all(v@, p@, r@),
        decreases v.len() + 1 - i,
    {
        match find_chars(v, p, i) {
            Some(j) => {
                proof {
                    lemma_find_from(v@, p@, i as int);
                }
                let piece = slice_chars(v, i, j);
                let ghost before = out@;
                extend_chars(&mut out, &piece);
                extend_chars(&mut out, r);
                assert(out@ == before + (v@.subrange(i as int, j as int) + r@));
                i = j + p.len();
            },
            None => {
                let piece = slice_chars(v, i, v.len());
                extend_chars(&mut out, &piece);
                return out;
            },
        }
    }
}

/// `str::replace` with a non-empty pattern.
pub fn str_replace(s: &str, p: &str, r: &str) -> (out: String)
    requires
        p@.len() > 0,
    ensures
        out@ == replace_all(s@, p@, r@),
{
    let v = chars_of(s);
    let pv = chars_of(p);
    let rv = chars_of(r);
    let o = replace_chars(&v, &pv, &rv);
    string_of(&o)
}

/// `str::trim` on characters.
pub fn trim_chars(v: &Vec<char>) -> (r: Vec<char>)
    ensures
        r@ == trim_spec(v@),
{
    let mut lo: usize = 0;
    while lo < v.len() && is_space_char(v[lo])
        invariant
            lo <= v.len(),
            lead_end(v@, 0) == lead_end(v@, lo as int),
        decreases v.len() - lo,
    {
        lo = lo + 1;
    }
    let mut hi: usize = v.len();
    while hi > 0 && is_space_char(v[hi - 1])
        invariant
            hi <= v.len(),
            tail_start(v@, v@.len() as int) == tail_start(v@, hi as int),
        decreases hi,
    {
        hi = hi - 1;
    }
    if hi <= lo {
        Vec::new()
    } else {
        slice_chars(v, lo, hi)
    }
}

/// `str::trim_end` on characters.
pub fn trim_end_chars(v: &Vec<char>) -> (r: Vec<char>)
    ensures
        r@ == trim_end_spec(v@),
{
    let mut hi: usize = v.len();
    while hi > 0 && is_space_char(v[hi - 1])
        invariant
            hi <= v.len(),
            tail_start(v@, v@.len() as int) == tail_start(v@, hi as int),
        decreases hi,
    {
        hi = hi - 1;
    }
    slice_chars(v, 0, hi)
}

/// `str::trim`.
pub fn str_trim(s: &str) -> (r: String)
    ensures
        r@ == trim_spec(s@),
{
    let v = chars_of(s);
    let t = trim_chars(&v);
    string_of(&t)
}

/// `to_ascii_lowercase` on characters.
pub fn lower_chars(v: &Vec<char>) -> (r: Vec<char>)
    ensures
        r@ == ascii_lower(v@),
{
    let mut r: Vec<char> = Vec::new();
    let mut i: usize = 0;
    while i < v.len()
        invariant
            i <= v.len(),
            r@ == ascii_lower(v@.subrange(0, i as int)),
        decreases v.len() - i,
    {
        let c = lower_char_exec(v[i]);
        r.push(c);
        assert(ascii_lower(v@.subrange(0, i + 1)) =~= ascii_lower(v@.subrange(0, i as int)).push(c));
        i = i + 1;
    }
    assert(v@.subrange(0, v@.len() as int) == v@);
    r
}

/// Literal text `s` as characters (a helper for building messages).
pub fn lit(s: &str) -> (v: Vec<char>)
    ensures
        v@ == s@,
{
    chars_of(s)
}

/// Index of the first `c` in `s`, or `-1`.
pub open spec fn index_of_char(s: Seq<char>, c: char) -> int
    decreases s.len(),
{
    if s.len() == 0 {
        -1
    } else if s[0] == c {
        0
    } else {
        let k = index_of_char(s.drop_first(), c);
        if k < 0 {
            -1
        } else {
            k + 1
        }
    }
}

/// `s` with one leading `c` removed, if it starts with it.
pub open spec fn strip_char(s: Seq<char>, c: char) -> Seq<char> {
    if s.len() > 0 && s[0] == c {
        s.drop_first()
    } else {
        s
    }
}

/// Index of the first `c` in `v`.
pub fn first_eq_index(v: &Vec<char>, c: char) -> (r: Option<usize>)
    ensures
        match r {
            Some(j) => j as int == index_of_char(v@, c) && j < v.len(),
            None => index_of_char(v@, c) == -1,
        },
{
    let mut i: usize = 0;
    assert(v@.subrange(0, v@.len() as int) =~= v@);
    while i < v.len()
        invariant
            i <= v.len(),
            index_of_char(v@, c) == if index_of_char(v@.subrange(i as int, v@.len() as int), c)
                < 0 {
                -1
            } else {
                index_of_char(v@.subrange(i as int, v@.len() as int), c) + i
            },
        decreases v.len() - i,
    {
        let ghost rest = v@.subrange(i as int, v@.len() as int);
        assert(rest[0] == v@[i as int]);
        if v[i] == c {
            return Some(i);
        }
        assert(rest.drop_first() =~= v@.subrange(i + 1, v@.len() as int));
        i = i + 1;
    }
    assert(v@.subrange(i as int, v@.len() as int).len() == 0);
    None
}


/// Index of the last `c` in `s`, or `-1`.
pub open spec fn last_index_of_char(s: Seq<char>, c: char) -> int
    decreases s.len(),
{
    if s.len() == 0 {
        -1
    } else if s.last() == c {
        s.len() - 1
    } else {
        last_index_of_char(s.drop_last(), c)
    }
}

/// Index of the last `c` in `v`.
pub fn last_eq_index(v: &Vec<char>, c: char) -> (r: Option<usize>)
    ensures
        match r {
            Some(j) => j as int == last_index_of_char(v@, c) && j < v.len(),
            None => last_index_of_char(v@, c) == -1,
        },
{
    let mut n = v.len();
    assert(v@.subrange(0, n as int) =~= v@);
    while n > 0
        invariant
            n <= v.len(),
            last_index_of_char(v@, c) == last_index_of_char(v@.subrange(0, n as int), c),
        decreases n,
    {
        assert(v@.subrange(0, n as int).drop_last() =~= v@.subrange(0, n - 1));
        if v[n - 1] == c {
            return Some(n - 1);
        }
        n = n - 1;
    }
    None
}


/// `s` split at every `c` (`str::split` with a char): always one piece more
/// than there are separators.
pub open spec fn split_on(s: Seq<char>, c: char) -> Seq<Seq<char>>
    decreases s.len(),
{
    if s.len() == 0 {
        seq![Seq::<char>::empty()]
    } else {
        let r = split_on(s.drop_last(), c);
        if s.last() == c {
            r.push(Seq::<char>::empty())
        } else {
            r.update(r.len() - 1, r.last().push(s.last()))
        }
    }
}

pub proof fn lemma_split_on_nonempty(s: Seq<char>, c: char)
    ensures
        split_on(s, c).len() >= 1,
    decreases s.len(),
{
    if s.len() > 0 {
        lemma_split_on_nonempty(s.drop_last(), c);
    }
}

/// The pieces of `v` split at `c`.
pub fn split_on_exec(v: &Vec<char>, c: char) -> (r: Vec<Vec<char>>)
    ensures
        r@.map_values(|x: Vec<char>| x@) == split_on(v@, c),
{
    let mut segs: Vec<Vec<char>> = Vec::new();
    segs.push(Vec::new());
    assert(segs@.map_values(|x: Vec<char>| x@) =~= split_on(v@.subrange(0, 0), c));
    let mut i: usize = 0;
    while i < v.len()
        invariant
            i <= v.len(),
            segs@.map_values(|x: Vec<char>| x@) == split_on(v@.subrange(0, i as int), c),
        decreases v.len() - i,
    {
        proof {
            lemma_split_on_nonempty(v@.subrange(0, i as int), c);
        }
        let ghost before = segs@.map_values(|x: Vec<char>| x@);
        let ch = v[i];
        assert(v@.subrange(0, i + 1).drop_last() == v@.subrange(0, i as int));
        assert(v@.subrange(0, i + 1).last() == ch);
        if ch == c {
            segs.push(Vec::new());
            assert(segs@.map_values(|x: Vec<char>| x@) =~= before.push(Seq::<char>::empty()));
        } else {
            let mut seg = segs.pop().unwrap();
            seg.push(ch);
            segs.push(seg);
            assert(segs@.map_values(|x: Vec<char>| x@) =~= before.update(before.len() - 1, before.last().push(ch)));
        }
        i = i + 1;
    }
    assert(v@.subrange(0, v@.len() as int) == v@);
    segs
}

/// `s` without its leading `c` characters (`str::trim_start_matches`).
pub open spec fn strip_leading(s: Seq<char>, c: char) -> Seq<char>
    decreases s.len(),
{
    if s.len() > 0 && s[0] == c {
        strip_leading(s.drop_first(), c)
    } else {
        s
    }
}

/// `s` without its leading `c` characters.
pub fn strip_leading_exec(v: &Vec<char>, c: char) -> (r: Vec<char>)
    ensures
        r@ == strip_leading(v@, c),
{
    let mut i: usize = 0;
    assert(v@.subrange(0, v@.len() as int) =~= v@);
    while i < v.len() && v[i] == c
        invariant
            i <= v.len(),
            strip_leading(v@, c) == strip_leading(v@.subrange(i as int, v@.len() as int), c),
        decreases v.len() - i,
    {
        assert(v@.subrange(i as int, v@.len() as int).drop_first() =~= v@.subrange(i + 1, v@.len() as int));
        i = i + 1;
    }
    slice_chars(v, i, v.len())
}

/// `items` joined with `sep`.
pub open spec fn join_seq(items: Seq<Seq<char>>, sep: Seq<char>) -> Seq<char>
    decreases items.len(),
{
    if items.len() == 0 {
        Seq::empty()
    } else if items.len() == 1 {
        items[0]
    } else {
        join_seq(items.drop_last(), sep) + sep + items.last()
    }
}

/// The pieces joined with `sep`.
pub fn join_vecs(items: &Vec<Vec<char>>, sep: &str) -> (r: Vec<char>)
    ensures
        r@ == join_seq(items@.map_values(|x: Vec<char>| x@), sep@),
{
    let ghost iv = items@.map_values(|x: Vec<char>| x@);
    let mut out: Vec<char> = Vec::new();
    let mut i: usize = 0;
    while i < items.len()
        invariant
            i <= items@.len(),
            iv == items@.map_values(|x: Vec<char>| x@),
            out@ == join_seq(iv.subrange(0, i as int), sep@),
        decreases items.len() - i,
    {
        assert(iv.subrange(0, i + 1).drop_last() =~= iv.subrange(0, i as int));
        assert(iv[i as int] == items@[i as int]@);
        if i > 0 {
            extend_str(&mut out, sep);
        }
        extend_chars(&mut out, &items[i]);
        proof {
            if i == 0 {
                assert(out@ =~= iv.subrange(0, 1)[0]);
            }
        }
        i = i + 1;
    }
    assert(iv.subrange(0, items@.len() as int) =~= iv);
    out
}

} // verus!
