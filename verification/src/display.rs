//! Display paths: how a path is shown on the console. Inside `cwd` a path is
//! shown relative to it (`cwd` itself as `.`), outside it is shown whole, and
//! `\` separators are always shown as `/`.
//!
//! Paths are strings. The prefix test follows the component semantics of
//! POSIX paths: a path is split at `/` into segments; empty and `.` segments
//! are no components, except that a leading `/` is the root component and a
//! leading `.` segment of a relative path is the current-directory component.
//! The part left after the prefix is the rest of the path text, without the
//! empty and `.` segments at either end.

use vstd::prelude::*;
use crate::text::{chars_eq, chars_of, push_char};

verus! {

/// The `/`-separated segments of `p` (always at least one).
pub open spec fn split_slash(p: Seq<char>) -> Seq<Seq<char>>
    decreases p.len(),
{
    if p.len() == 0 {
        seq![Seq::<char>::empty()]
    } else {
        let s = split_slash(p.drop_last());
        if p.last() == '/' {
            s.push(Seq::<char>::empty())
        } else {
            s.update(s.len() - 1, s.last().push(p.last()))
        }
    }
}

pub proof fn lemma_split_nonempty(p: Seq<char>)
    ensures
        split_slash(p).len() >= 1,
    decreases p.len(),
{
    if p.len() > 0 {
        lemma_split_nonempty(p.drop_last());
    }
}

/// A segment that is no component (empty or `.`).
pub open spec fn is_junk(seg: Seq<char>) -> bool {
    seg.len() == 0 || seg == seq!['.']
}

pub open spec fn is_rooted(p: Seq<char>) -> bool {
    p.len() > 0 && p[0] == '/'
}

pub open spec fn has_cur_dir(p: Seq<char>) -> bool {
    !is_rooted(p) && split_slash(p)[0] == seq!['.']
}

/// The components among `segs[0..n]`: (text, segment index).
pub open spec fn body_components(segs: Seq<Seq<char>>, n: int) -> Seq<(Seq<char>, int)>
    decreases n,
{
    if n <= 0 {
        Seq::empty()
    } else {
        let r = body_components(segs, n - 1);
        if is_junk(segs[n - 1]) {
            r
        } else {
            r.push((segs[n - 1], n - 1))
        }
    }
}

/// The components of `p`, each with the index of its segment; the root is
/// written `/` and the current directory `.`, texts no other component has.
pub open spec fn components(p: Seq<char>) -> Seq<(Seq<char>, int)> {
    let start = if is_rooted(p) {
        seq![(seq!['/'], 0int)]
    } else if has_cur_dir(p) {
        seq![(seq!['.'], 0int)]
    } else {
        Seq::empty()
    };
    start + body_components(split_slash(p), split_slash(p).len() as int)
}

/// The texts of `b` begin the texts of `p`.
pub open spec fn components_prefix(b: Seq<(Seq<char>, int)>, p: Seq<(Seq<char>, int)>) -> bool {
    b.len() <= p.len() && forall|i: int| 0 <= i < b.len() ==> #[trigger] b[i].0 == p[i].0
}

/// `ss` joined with `/`.
pub open spec fn join_slash(ss: Seq<Seq<char>>) -> Seq<char>
    decreases ss.len(),
{
    if ss.len() == 0 {
        Seq::empty()
    } else if ss.len() == 1 {
        ss[0]
    } else {
        join_slash(ss.drop_last()) + seq!['/'] + ss.last()
    }
}

/// Index of the first segment at or after `i` that is no junk (`ss.len()` if none).
pub open spec fn first_kept(ss: Seq<Seq<char>>, i: int) -> int
    decreases ss.len() - i,
{
    if i >= ss.len() {
        ss.len() as int
    } else if is_junk(ss[i]) {
        first_kept(ss, i + 1)
    } else {
        i
    }
}

/// One past the last segment before `n` that is no junk, but not below `lo`.
pub open spec fn last_kept(ss: Seq<Seq<char>>, n: int, lo: int) -> int
    decreases n - lo,
{
    if n <= lo {
        lo
    } else if is_junk(ss[n - 1]) {
        last_kept(ss, n - 1, lo)
    } else {
        n
    }
}

/// The texts of a vector of character vectors.
pub open spec fn views(v: Seq<Vec<char>>) -> Seq<Seq<char>> {
    v.map_values(|s: Vec<char>| s@)
}

/// `path` with the prefix `cwd` taken away, when `cwd`'s components begin `path`'s.
pub open spec fn strip_prefix(cwd: Seq<char>, path: Seq<char>) -> Option<Seq<char>> {
    let bc = components(cwd);
    let pc = components(path);
    let segs = split_slash(path);
    if !components_prefix(bc, pc) {
        None
    } else if bc.len() == 0 {
        // nothing taken: only the trailing empty and `.` segments go, the start stays
        let keep = if is_rooted(path) || has_cur_dir(path) { 1int } else { 0int };
        let hi = last_kept(segs, segs.len() as int, keep);
        if is_rooted(path) && hi == 1 {
            Some(seq!['/'])
        } else {
            Some(join_slash(segs.subrange(0, hi)))
        }
    } else {
        let j = pc[bc.len() - 1].1;
        let rest = segs.subrange(j + 1, segs.len() as int);
        let lo = first_kept(rest, 0);
        let hi = last_kept(rest, rest.len() as int, lo);
        Some(join_slash(rest.subrange(lo, hi)))
    }
}

/// `p` with every `\` shown as `/`.
pub open spec fn posix_spec(p: Seq<char>) -> Seq<char> {
    p.map_values(|c: char| if c == '\\' { '/' } else { c })
}

/// The display form of `path` seen from `cwd`.
pub open spec fn display_path(cwd: Seq<char>, path: Seq<char>) -> Seq<char> {
    match strip_prefix(cwd, path) {
        Some(rel) => if rel.len() == 0 { seq!['.'] } else { posix_spec(rel) },
        None => posix_spec(path),
    }
}

/// The display path of `path` anchored at `cwd`: relative inside `cwd` (`.`
/// for `cwd` itself), whole outside it, separators always `/`.
pub fn path(cwd: &str, target: &str) -> (r: String)
    ensures
        r@ == display_path(cwd@, target@),
{
    let cv = chars_of(cwd);
    let pv = chars_of(target);
    match strip_prefix_chars(&cv, &pv) {
        Some(rel) => {
            if rel.len() == 0 {
                let mut r = String::new();
                push_char(&mut r, '.');
                assert(r@ == seq!['.']);
                r
            } else {
                posix_chars(&rel)
            }
        },
        None => posix_chars(&pv),
    }
}

/// The display path without an anchor: every `\` shown as `/`.
pub fn posix(p: &str) -> (r: String)
    ensures
        r@ == posix_spec(p@),
{
    let v = chars_of(p);
    posix_chars(&v)
}

fn posix_chars(v: &Vec<char>) -> (r: String)
    ensures
        r@ == posix_spec(v@),
{
    let mut r = String::new();
    let mut i: usize = 0;
    while i < v.len()
        invariant
            i <= v.len(),
            r@ == posix_spec(v@.subrange(0, i as int)),
        decreases v.len() - i,
    {
        let c = if v[i] == '\\' { '/' } else { v[i] };
        push_char(&mut r, c);
        assert(v@.subrange(0, i + 1) == v@.subrange(0, i as int).push(v@[i as int]));
        assert(posix_spec(v@.subrange(0, i + 1)) =~= posix_spec(v@.subrange(0, i as int)).push(c));
        i = i + 1;
    }
    assert(v@.subrange(0, v@.len() as int) == v@);
    r
}

/// The segments of `v`.
fn split_chars(v: &Vec<char>) -> (segs: Vec<Vec<char>>)
    ensures
        views(segs@) == split_slash(v@),
{
    let mut segs: Vec<Vec<char>> = Vec::new();
    segs.push(Vec::new());
    assert(views(segs@) =~= split_slash(v@.subrange(0, 0)));
    let mut i: usize = 0;
    while i < v.len()
        invariant
            i <= v.len(),
            views(segs@) == split_slash(v@.subrange(0, i as int)),
        decreases v.len() - i,
    {
        proof {
            lemma_split_nonempty(v@.subrange(0, i as int));
        }
        let ghost before = views(segs@);
        let c = v[i];
        assert(v@.subrange(0, i + 1).drop_last() == v@.subrange(0, i as int));
        assert(v@.subrange(0, i + 1).last() == c);
        if c == '/' {
            segs.push(Vec::new());
            assert(views(segs@) =~= before.push(Seq::<char>::empty()));
        } else {
            let last = segs.len() - 1;
            let mut seg = segs.pop().unwrap();
            seg.push(c);
            segs.push(seg);
            assert(views(segs@) =~= before.update(before.len() - 1, before.last().push(c)));
        }
        i = i + 1;
    }
    assert(v@.subrange(0, v@.len() as int) == v@);
    segs
}

fn is_junk_chars(seg: &Vec<char>) -> (r: bool)
    ensures
        r == is_junk(seg@),
{
    if seg.len() == 0 {
        true
    } else if seg.len() == 1 && seg[0] == '.' {
        assert(seg@ =~= seq!['.']);
        true
    } else {
        assert(seg@.len() == 1 ==> seg@[0] != '.');
        assert(seg@ != seq!['.'] || seg@.len() == 1);
        false
    }
}

/// The components of `p` as parallel vectors of texts and segment indices.
fn components_of(v: &Vec<char>, segs: &Vec<Vec<char>>) -> (r: (Vec<Vec<char>>, Vec<usize>))
    requires
        views(segs@) == split_slash(v@),
    ensures
        r.0.len() == r.1.len(),
        r.0.len() == components(v@).len(),
        forall|i: int| 0 <= i < r.0.len() ==> #[trigger] views(r.0@)[i] == components(v@)[i].0,
        forall|i: int| 0 <= i < r.1.len() ==> #[trigger] r.1@[i] as int == components(v@)[i].1,
{
    proof {
        lemma_split_nonempty(v@);
    }
    let mut texts: Vec<Vec<char>> = Vec::new();
    let mut idx: Vec<usize> = Vec::new();
    let ghost start: Seq<(Seq<char>, int)>;
    if v.len() > 0 && v[0] == '/' {
        let mut t = Vec::new();
        t.push('/');
        texts.push(t);
        idx.push(0);
        proof {
            start = seq![(seq!['/'], 0int)];
        }
    } else if segs[0].len() == 1 && segs[0][0] == '.' {
        assert(views(segs@)[0] =~= seq!['.']);
        let mut t = Vec::new();
        t.push('.');
        texts.push(t);
        idx.push(0);
        proof {
            start = seq![(seq!['.'], 0int)];
        }
    } else {
        proof {
            assert(views(segs@)[0].len() == 1 ==> views(segs@)[0][0] != '.');
            start = Seq::empty();
        }
    }
    assert(start == components(v@).subrange(0, start.len() as int)) by {
        assert(body_components(split_slash(v@), 0) =~= Seq::<(Seq<char>, int)>::empty());
    }
    let mut n: usize = 0;
    while n < segs.len()
        invariant
            n <= segs.len(),
            views(segs@) == split_slash(v@),
            texts.len() == idx.len(),
            texts.len() == start.len() + body_components(views(segs@), n as int).len(),
            components(v@) == start + body_components(views(segs@), segs.len() as int),
            forall|i: int|
                0 <= i < texts.len() ==> #[trigger] views(texts@)[i] == (start + body_components(
                    views(segs@),
                    n as int,
                ))[i].0,
            forall|i: int|
                0 <= i < idx.len() ==> #[trigger] idx@[i] as int == (start + body_components(
                    views(segs@),
                    n as int,
                ))[i].1,
        decreases segs.len() - n,
    {
        let ghost old_texts = views(texts@);
        let ghost old_idx = idx@;
        let junk = is_junk_chars(&segs[n]);
        if !junk {
            texts.push(segs[n].clone());
            idx.push(n);
            assert(views(texts@) =~= old_texts.push(views(segs@)[n as int]));
        }
        proof {
            let a = start + body_components(views(segs@), n as int);
            let b = start + body_components(views(segs@), n + 1);
            if junk {
                assert(b == a);
            } else {
                assert(b =~= a.push((views(segs@)[n as int], n as int)));
            }
        }
        n = n + 1;
    }
    (texts, idx)
}

/// The characters of `segs[from..to]` joined with `/`, appended to `out`.
fn join_segments(segs: &Vec<Vec<char>>, from: usize, to: usize) -> (r: Vec<char>)
    requires
        from <= to <= segs.len(),
    ensures
        r@ == join_slash(views(segs@).subrange(from as int, to as int)),
{
    let mut r: Vec<char> = Vec::new();
    let mut k = from;
    while k < to
        invariant
            from <= k <= to,
            to <= segs.len(),
            r@ == join_slash(views(segs@).subrange(from as int, k as int)),
        decreases to - k,
    {
        let ghost before = r@;
        let ghost ss = views(segs@).subrange(from as int, k + 1);
        assert(ss.drop_last() =~= views(segs@).subrange(from as int, k as int));
        if k > from {
            r.push('/');
        }
        let seg = &segs[k];
        let mut m: usize = 0;
        let ghost mid = r@;
        while m < seg.len()
            invariant
                m <= seg.len(),
                r@ == mid + seg@.subrange(0, m as int),
            decreases seg.len() - m,
        {
            r.push(seg[m]);
            assert(seg@.subrange(0, m + 1) == seg@.subrange(0, m as int).push(seg@[m as int]));
            m = m + 1;
        }
        assert(seg@.subrange(0, seg@.len() as int) == seg@);
        assert(ss.last() == seg@);
        if k == from {
            assert(before.len() == 0);
            assert(r@ =~= seg@);
        } else {
            assert(r@ =~= before + seq!['/'] + seg@);
        }
        k = k + 1;
    }
    r
}

/// `path` with the prefix `cwd` taken away (`strip_prefix`), on characters.
fn strip_prefix_chars(cv: &Vec<char>, pv: &Vec<char>) -> (r: Option<Vec<char>>)
    ensures
        match strip_prefix(cv@, pv@) {
            Some(s) => r is Some && r->0@ == s,
            None => r is None,
        },
{
    let csegs = split_chars(cv);
    let psegs = split_chars(pv);
    proof {
        lemma_split_nonempty(pv@);
    }
    let (ct, _ci) = components_of(cv, &csegs);
    let (pt, pi) = components_of(pv, &psegs);
    let ghost bc = components(cv@);
    let ghost pc = components(pv@);
    if ct.len() > pt.len() {
        return None;
    }
    let mut i: usize = 0;
    while i < ct.len()
        invariant
            i <= ct.len() <= pt.len(),
            bc == components(cv@),
            pc == components(pv@),
            ct.len() == bc.len(),
            pt.len() == pc.len(),
            forall|k: int| 0 <= k < ct.len() ==> views(ct@)[k] == #[trigger] bc[k].0,
            forall|k: int| 0 <= k < pt.len() ==> views(pt@)[k] == #[trigger] pc[k].0,
            forall|k: int| 0 <= k < i ==> #[trigger] bc[k].0 == pc[k].0,
        decreases ct.len() - i,
    {
        assert(views(ct@)[i as int] == ct[i as int]@);
        assert(views(pt@)[i as int] == pt[i as int]@);
        if !chars_eq(&ct[i], &pt[i]) {
            assert(bc[i as int].0 != pc[i as int].0);
            assert(!components_prefix(bc, pc));
            return None;
        }
        i = i + 1;
    }
    assert(components_prefix(bc, pc));
    let n = psegs.len();
    let ghost segs = split_slash(pv@);
    if ct.len() == 0 {
        let rooted = pv.len() > 0 && pv[0] == '/';
        let cur = !rooted && psegs[0].len() == 1 && psegs[0][0] == '.';
        proof {
            assert(views(psegs@)[0] == psegs[0]@);
            if psegs[0]@.len() == 1 && psegs[0]@[0] == '.' {
                assert(psegs[0]@ =~= seq!['.']);
            }
            assert(cur == has_cur_dir(pv@));
        }
        let keep: usize = if rooted || cur { 1 } else { 0 };
        let hi = last_kept_exec(&psegs, n, keep);
        if rooted && hi == 1 {
            let mut r = Vec::new();
            r.push('/');
            assert(r@ =~= seq!['/']);
            return Some(r);
        }
        return Some(join_segments(&psegs, 0, hi));
    }
    let j = pi[ct.len() - 1];
    proof {
        lemma_body_index_bound(segs, segs.len() as int, bc.len() - 1 - (pc.len() - body_components(segs, segs.len() as int).len()));
        lemma_component_index_bound(pv@, bc.len() - 1);
    }
    let lo = first_kept_exec(&psegs, j + 1);
    let hi = last_kept_exec(&psegs, n, lo);
    proof {
        let rest = segs.subrange(j + 1, segs.len() as int);
        lemma_first_kept_shift(segs, j + 1, 0);
        lemma_last_kept_shift(segs, j + 1, segs.len() as int, lo as int);
        assert(rest.subrange(lo - (j + 1), hi - (j + 1)) =~= segs.subrange(lo as int, hi as int));
    }
    Some(join_segments(&psegs, lo, hi))
}

proof fn lemma_body_index_bound(segs: Seq<Seq<char>>, n: int, k: int)
    ensures
        0 <= k < body_components(segs, n).len() ==> 0 <= body_components(segs, n)[k].1 < n,
    decreases n,
{
    if n > 0 {
        lemma_body_index_bound(segs, n - 1, k);
    }
}

proof fn lemma_component_index_bound(p: Seq<char>, k: int)
    requires
        0 <= k < components(p).len(),
    ensures
        0 <= components(p)[k].1 < split_slash(p).len(),
{
    lemma_split_nonempty(p);
    let segs = split_slash(p);
    let body = body_components(segs, segs.len() as int);
    let s = components(p).len() - body.len();
    if k >= s {
        lemma_body_index_bound(segs, segs.len() as int, k - s);
    }
}

proof fn lemma_first_kept_shift(segs: Seq<Seq<char>>, off: int, i: int)
    requires
        0 <= off <= segs.len(),
        0 <= i,
    ensures
        first_kept(segs.subrange(off, segs.len() as int), i) + off == first_kept(segs, i + off),
    decreases segs.len() - off - i,
{
    if i < segs.len() - off {
        lemma_first_kept_shift(segs, off, i + 1);
    }
}

proof fn lemma_last_kept_shift(segs: Seq<Seq<char>>, off: int, n: int, lo: int)
    requires
        0 <= off <= n <= segs.len(),
        off <= lo,
    ensures
        last_kept(segs.subrange(off, segs.len() as int), n - off, lo - off) + off == last_kept(segs, n, lo),
    decreases n,
{
    if n > lo {
        lemma_last_kept_shift(segs, off, n - 1, lo);
    }
}

fn first_kept_exec(segs: &Vec<Vec<char>>, i: usize) -> (r: usize)
    requires
        i <= segs.len(),
    ensures
        r as int == first_kept(views(segs@), i as int),
        i <= r <= segs.len(),
    decreases segs.len() - i,
{
    if i >= segs.len() {
        segs.len()
    } else if is_junk_chars(&segs[i]) {
        first_kept_exec(segs, i + 1)
    } else {
        i
    }
}

fn last_kept_exec(segs: &Vec<Vec<char>>, n: usize, lo: usize) -> (r: usize)
    requires
        n <= segs.len(),
    ensures
        r as int == last_kept(views(segs@), n as int, lo as int),
        lo <= n ==> lo <= r <= n,
        lo > n ==> r == lo,
    decreases n,
{
    if n <= lo {
        lo
    } else if is_junk_chars(&segs[n - 1]) {
        last_kept_exec(segs, n - 1, lo)
    } else {
        n
    }
}

} // verus!
