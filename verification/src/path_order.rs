//! The order of file paths as `Path`'s `Ord` has it on Unix: component by
//! component (the root, `.`, `..`, then names by their bytes), a proper
//! prefix first; repeated and trailing separators and inner `.` components
//! do not count.

use vstd::prelude::*;
use crate::cli::parse::texts;
use crate::order::{lemma_lex_irreflexive, lemma_lex_total, lemma_lex_transitive, lex_lt};
use crate::pattern::vviews;
use crate::text::{chars_eq, chars_of, lemma_split_on_nonempty, owned, split_on, split_on_exec};

verus! {

/// A path component after the first, as a sortable text: a rank character
/// (`..` before names) and the name; empty and `.` segments are no
/// component.
pub open spec fn part_of(seg: Seq<char>) -> Option<Seq<char>> {
    if seg.len() == 0 || seg == "."@ {
        None
    } else if seg == ".."@ {
        Some(seq!['\u{2}'])
    } else {
        Some(seq!['\u{3}'] + seg)
    }
}

/// The components of the segments, in order.
pub open spec fn body_parts(segs: Seq<Seq<char>>) -> Seq<Seq<char>>
    decreases segs.len(),
{
    if segs.len() == 0 {
        Seq::empty()
    } else {
        match part_of(segs.last()) {
            Some(x) => body_parts(segs.drop_last()).push(x),
            None => body_parts(segs.drop_last()),
        }
    }
}

/// The components of the path `p` as sortable texts: the root (`/` first),
/// or a leading `.`, then the other segments between `/`s.
#[verifier::opaque]
pub open spec fn path_parts_spec(p: Seq<char>) -> Seq<Seq<char>> {
    let segs = split_on(p, '/');
    if p.len() > 0 && p[0] == '/' {
        seq![seq!['\u{0}']] + body_parts(segs.drop_first())
    } else if segs[0] == "."@ {
        seq![seq!['\u{1}']] + body_parts(segs.drop_first())
    } else {
        body_parts(segs)
    }
}

/// Component lists in order: component by component, a proper prefix first.
pub open spec fn parts_lt(a: Seq<Seq<char>>, b: Seq<Seq<char>>) -> bool
    decreases a.len(),
{
    if a.len() == 0 {
        b.len() > 0
    } else if b.len() == 0 {
        false
    } else if a[0] == b[0] {
        parts_lt(a.drop_first(), b.drop_first())
    } else {
        lex_lt(a[0], b[0])
    }
}

/// The path `a` comes before the path `b`.
pub open spec fn path_lt(a: Seq<char>, b: Seq<char>) -> bool {
    parts_lt(path_parts_spec(a), path_parts_spec(b))
}

/// Two paths name the same place (the same components).
pub open spec fn same_path(a: Seq<char>, b: Seq<char>) -> bool {
    path_parts_spec(a) == path_parts_spec(b)
}

pub proof fn lemma_parts_total(a: Seq<Seq<char>>, b: Seq<Seq<char>>)
    ensures
        a == b || parts_lt(a, b) || parts_lt(b, a),
        !(parts_lt(a, b) && parts_lt(b, a)),
        !parts_lt(a, a),
    decreases a.len(),
{
    if a.len() > 0 && b.len() > 0 {
        lemma_parts_total(a.drop_first(), a.drop_first());
        if a[0] == b[0] {
            lemma_parts_total(a.drop_first(), b.drop_first());
            if a.drop_first() == b.drop_first() {
                assert(a =~= seq![a[0]] + a.drop_first());
                assert(b =~= seq![b[0]] + b.drop_first());
            }
        } else {
            lemma_lex_total(a[0], b[0]);
        }
    } else if a.len() == 0 && b.len() == 0 {
        assert(a =~= b);
    } else if a.len() > 0 {
        lemma_parts_total(a.drop_first(), a.drop_first());
    }
}

pub proof fn lemma_parts_transitive(a: Seq<Seq<char>>, b: Seq<Seq<char>>, c: Seq<Seq<char>>)
    requires
        parts_lt(a, b),
        parts_lt(b, c),
    ensures
        parts_lt(a, c),
    decreases a.len(),
{
    if a.len() > 0 && b.len() > 0 && c.len() > 0 {
        if a[0] == b[0] && b[0] == c[0] {
            lemma_parts_transitive(a.drop_first(), b.drop_first(), c.drop_first());
        } else if a[0] == b[0] {
        } else if b[0] == c[0] {
        } else {
            lemma_lex_transitive(a[0], b[0], c[0]);
            lemma_lex_irreflexive(a[0]);
        }
    }
}

fn part_exec(seg: &Vec<char>) -> (r: Option<Vec<char>>)
    ensures
        match part_of(seg@) {
            Some(x) => r matches Some(v) && v@ == x,
            None => r is None,
        },
{
    let dot = chars_of(".");
    let dots = chars_of("..");
    proof {
        reveal_strlit(".");
        reveal_strlit("..");
    }
    if seg.len() == 0 || chars_eq(seg, &dot) {
        None
    } else if chars_eq(seg, &dots) {
        let mut v: Vec<char> = Vec::new();
        v.push('\u{2}');
        assert(v@ =~= seq!['\u{2}']);
        Some(v)
    } else {
        let mut v: Vec<char> = Vec::new();
        v.push('\u{3}');
        let mut i: usize = 0;
        while i < seg.len()
            invariant
                i <= seg@.len(),
                v@ == seq!['\u{3}'] + seg@.subrange(0, i as int),
            decreases seg.len() - i,
        {
            v.push(seg[i]);
            assert(seg@.subrange(0, i + 1) =~= seg@.subrange(0, i as int).push(seg@[i as int]));
            assert(v@ =~= seq!['\u{3}'] + seg@.subrange(0, i + 1));
            i = i + 1;
        }
        assert(seg@.subrange(0, seg@.len() as int) =~= seg@);
        Some(v)
    }
}

/// The components of the path `p` (see `path_parts_spec`).
pub fn path_parts(p: &str) -> (r: Vec<Vec<char>>)
    ensures
        vviews(r@) == path_parts_spec(p@),
{
    proof {
        reveal(path_parts_spec);
    }
    let cs = chars_of(p);
    let segs = split_on_exec(&cs, '/');
    let ghost sv = split_on(p@, '/');
    proof {
        lemma_split_on_nonempty(p@, '/');
        assert(segs@.map_values(|x: Vec<char>| x@) == sv);
        assert(segs@.len() == sv.len());
    }
    let mut out: Vec<Vec<char>> = Vec::new();
    let mut start: usize = 0;
    let dot = chars_of(".");
    proof {
        reveal_strlit(".");
        assert(sv[0] == segs@[0]@);
    }
    if cs.len() > 0 && cs[0] == '/' {
        let mut root: Vec<char> = Vec::new();
        root.push('\u{0}');
        out.push(root);
        start = 1;
    } else if chars_eq(&segs[0], &dot) {
        let mut cur: Vec<char> = Vec::new();
        cur.push('\u{1}');
        out.push(cur);
        start = 1;
    }
    let ghost head = vviews(out@);
    proof {
        assert(head.len() == start);
        assert(sv.subrange(start as int, start as int) =~= Seq::<Seq<char>>::empty());
        assert(vviews(out@) =~= head + body_parts(sv.subrange(start as int, start as int)));
    }
    let mut i: usize = start;
    while i < segs.len()
        invariant
            start <= i <= segs@.len(),
            segs@.len() == sv.len(),
            segs@.map_values(|x: Vec<char>| x@) == sv,
            vviews(out@) == head + body_parts(sv.subrange(start as int, i as int)),
        decreases segs.len() - i,
    {
        let ghost before = vviews(out@);
        proof {
            assert(sv[i as int] == segs@[i as int]@);
            let sub = sv.subrange(start as int, i + 1);
            assert(sub.drop_last() =~= sv.subrange(start as int, i as int));
            assert(sub.last() == sv[i as int]);
        }
        match part_exec(&segs[i]) {
            Some(x) => {
                out.push(x);
                assert(vviews(out@) =~= before.push(x@));
            },
            None => {},
        }
        i = i + 1;
    }
    proof {
        if start == 1 {
            assert(sv.subrange(1, sv.len() as int) =~= sv.drop_first());
        } else {
            assert(sv.subrange(0, sv.len() as int) =~= sv);
            assert(head =~= Seq::<Seq<char>>::empty());
        }
    }
    out
}

fn chars_less(x: &Vec<char>, y: &Vec<char>) -> (r: bool)
    ensures
        r == lex_lt(x@, y@),
{
    let mut i: usize = 0;
    proof {
        assert(x@.subrange(0, x@.len() as int) =~= x@);
        assert(y@.subrange(0, y@.len() as int) =~= y@);
    }
    while i < x.len() && i < y.len() && x[i] == y[i]
        invariant
            i <= x@.len(),
            i <= y@.len(),
            lex_lt(x@, y@) == lex_lt(x@.subrange(i as int, x@.len() as int), y@.subrange(i as int, y@.len() as int)),
        decreases x.len() - i,
    {
        proof {
            let xs = x@.subrange(i as int, x@.len() as int);
            let ys = y@.subrange(i as int, y@.len() as int);
            assert(xs.drop_first() =~= x@.subrange(i + 1, x@.len() as int));
            assert(ys.drop_first() =~= y@.subrange(i + 1, y@.len() as int));
        }
        i = i + 1;
    }
    if i == x.len() {
        i < y.len()
    } else if i == y.len() {
        false
    } else {
        x[i] < y[i]
    }
}

fn parts_less(a: &Vec<Vec<char>>, b: &Vec<Vec<char>>) -> (r: bool)
    ensures
        r == parts_lt(vviews(a@), vviews(b@)),
{
    let ghost av = vviews(a@);
    let ghost bv = vviews(b@);
    let mut i: usize = 0;
    proof {
        assert(av.subrange(0, av.len() as int) =~= av);
        assert(bv.subrange(0, bv.len() as int) =~= bv);
    }
    while i < a.len() && i < b.len() && chars_eq(&a[i], &b[i])
        invariant
            i <= a@.len(),
            i <= b@.len(),
            av == vviews(a@),
            bv == vviews(b@),
            parts_lt(av, bv) == parts_lt(av.subrange(i as int, av.len() as int), bv.subrange(i as int, bv.len() as int)),
        decreases a.len() - i,
    {
        proof {
            let xs = av.subrange(i as int, av.len() as int);
            let ys = bv.subrange(i as int, bv.len() as int);
            assert(xs.drop_first() =~= av.subrange(i + 1, av.len() as int));
            assert(ys.drop_first() =~= bv.subrange(i + 1, bv.len() as int));
            assert(xs[0] == a@[i as int]@ && ys[0] == b@[i as int]@);
        }
        i = i + 1;
    }
    if i == a.len() {
        i < b.len()
    } else if i == b.len() {
        false
    } else {
        proof {
            let xs = av.subrange(i as int, av.len() as int);
            let ys = bv.subrange(i as int, bv.len() as int);
            assert(xs[0] == a@[i as int]@ && ys[0] == b@[i as int]@);
        }
        chars_less(&a[i], &b[i])
    }
}

/// `x` is the first of the paths `o[..n]` that names its place.
#[verifier::opaque]
pub open spec fn first_of_its_place(o: Seq<Seq<char>>, n: int, x: Seq<char>) -> bool {
    exists|i: int|
        0 <= i < n && #[trigger] o[i] == x && forall|j: int| 0 <= j < i ==> !(#[trigger] same_path(o[j], o[i]))
}

/// Some path of `s` names the place of `x`.
#[verifier::opaque]
pub open spec fn named_in(s: Seq<Seq<char>>, x: Seq<char>) -> bool {
    exists|k: int| 0 <= k < s.len() && #[trigger] same_path(s[k], x)
}

/// Strictly in path order.
pub open spec fn paths_sorted(s: Seq<Seq<char>>) -> bool {
    forall|a: int, b: int| 0 <= a < b < s.len() ==> path_lt(#[trigger] s[a], #[trigger] s[b])
}

/// Each of `s` is the first of `o[..n]` that names its place.
pub open spec fn all_first(o: Seq<Seq<char>>, n: int, s: Seq<Seq<char>>) -> bool {
    forall|k: int| 0 <= k < s.len() ==> #[trigger] first_of_its_place(o, n, s[k])
}

/// Each place that `o[..n]` names is named in `s`.
pub open spec fn covers(o: Seq<Seq<char>>, n: int, s: Seq<Seq<char>>) -> bool {
    forall|i: int| 0 <= i < n ==> #[trigger] named_in(s, o[i])
}

proof fn lemma_first_grows(o: Seq<Seq<char>>, n: int, x: Seq<char>)
    requires
        first_of_its_place(o, n, x),
    ensures
        first_of_its_place(o, n + 1, x),
{
    reveal(first_of_its_place);
    let i = choose|i: int|
        0 <= i < n && #[trigger] o[i] == x && forall|j: int| 0 <= j < i ==> !(#[trigger] same_path(o[j], o[i]));
    assert(0 <= i < n + 1 && o[i] == x);
}

proof fn lemma_skip(o: Seq<Seq<char>>, n: int, s: Seq<Seq<char>>, j: int)
    requires
        0 <= n < o.len(),
        0 <= j < s.len(),
        same_path(s[j], o[n]),
        all_first(o, n, s),
        covers(o, n, s),
    ensures
        all_first(o, n + 1, s),
        covers(o, n + 1, s),
{
    assert forall|k: int| 0 <= k < s.len() implies #[trigger] first_of_its_place(o, n + 1, s[k]) by {
        lemma_first_grows(o, n, s[k]);
    }
    assert(named_in(s, o[n])) by {
        reveal(named_in);
        assert(same_path(s[j], o[n]));
    }
}

proof fn lemma_insert(o: Seq<Seq<char>>, n: int, s: Seq<Seq<char>>, j: int)
    requires
        0 <= n < o.len(),
        0 <= j <= s.len(),
        paths_sorted(s),
        all_first(o, n, s),
        covers(o, n, s),
        forall|k: int| 0 <= k < j ==> path_lt(#[trigger] s[k], o[n]),
        j < s.len() ==> path_lt(o[n], s[j]),
    ensures
        paths_sorted(s.insert(j, o[n])),
        all_first(o, n + 1, s.insert(j, o[n])),
        covers(o, n + 1, s.insert(j, o[n])),
{
    let x = o[n];
    let after = s.insert(j, x);
    lemma_parts_total(path_parts_spec(x), path_parts_spec(x));
    assert forall|i: int| 0 <= i < n implies !(#[trigger] same_path(o[i], o[n])) by {
        assert(named_in(s, o[i]));
        reveal(named_in);
        let k = choose|k: int| 0 <= k < s.len() && #[trigger] same_path(s[k], o[i]);
        if same_path(o[i], x) {
            assert(same_path(s[k], x));
            if k > j {
                assert(path_lt(s[j], s[k]));
                lemma_parts_transitive(path_parts_spec(x), path_parts_spec(s[j]), path_parts_spec(s[k]));
            } else if k < j {
                assert(path_lt(s[k], x));
            }
        }
    }
    assert forall|a: int, b: int| 0 <= a < b < after.len() implies path_lt(#[trigger] after[a], #[trigger] after[b]) by {
        if a < j && b < j {
            assert(after[a] == s[a] && after[b] == s[b]);
        } else if a < j && b == j {
            assert(after[a] == s[a]);
        } else if a < j && b > j {
            assert(after[a] == s[a] && after[b] == s[b - 1]);
            if b - 1 > a {
                assert(path_lt(s[a], s[b - 1]));
            }
        } else if a == j {
            assert(after[b] == s[b - 1]);
            if b - 1 > j {
                assert(path_lt(s[j], s[b - 1]));
                lemma_parts_transitive(path_parts_spec(x), path_parts_spec(s[j]), path_parts_spec(s[b - 1]));
            }
        } else {
            assert(after[a] == s[a - 1] && after[b] == s[b - 1]);
        }
    }
    assert forall|k: int| 0 <= k < after.len() implies #[trigger] first_of_its_place(o, n + 1, after[k]) by {
        if k == j {
            reveal(first_of_its_place);
            assert(o[n] == after[k]);
        } else if k < j {
            assert(after[k] == s[k]);
            lemma_first_grows(o, n, s[k]);
        } else {
            assert(after[k] == s[k - 1]);
            lemma_first_grows(o, n, s[k - 1]);
        }
    }
    assert forall|i: int| 0 <= i < n + 1 implies #[trigger] named_in(after, o[i]) by {
        reveal(named_in);
        if i == n {
            assert(same_path(after[j], o[i]));
        } else {
            assert(named_in(s, o[i]));
            let k = choose|k: int| 0 <= k < s.len() && #[trigger] same_path(s[k], o[i]);
            if k < j {
                assert(after[k] == s[k]);
                assert(same_path(after[k], o[i]));
            } else {
                assert(after[k + 1] == s[k]);
                assert(same_path(after[k + 1], o[i]));
            }
        }
    }
}

/// The paths `v` in `Path` order, each place once: sorted strictly by their
/// components; each path kept is the first of `v` that names its place;
/// every place that `v` names is kept.
pub fn sort_dedup_paths(v: &Vec<String>) -> (r: Vec<String>)
    ensures
        paths_sorted(texts(r@)),
        all_first(texts(v@), v@.len() as int, texts(r@)),
        covers(texts(v@), v@.len() as int, texts(r@)),
{
    let ghost o = texts(v@);
    let mut out: Vec<String> = Vec::new();
    let mut keys: Vec<Vec<Vec<char>>> = Vec::new();
    let mut n: usize = 0;
    proof {
        assert(texts(out@) =~= Seq::<Seq<char>>::empty());
    }
    while n < v.len()
        invariant
            n <= v@.len(),
            o == texts(v@),
            keys@.len() == out@.len(),
            forall|k: int| 0 <= k < out@.len() ==> vviews(#[trigger] keys@[k]@) == path_parts_spec(out@[k]@),
            paths_sorted(texts(out@)),
            all_first(o, n as int, texts(out@)),
            covers(o, n as int, texts(out@)),
        decreases v.len() - n,
    {
        let x = owned(v[n].as_str());
        let xk = path_parts(x.as_str());
        let ghost ob = texts(out@);
        assert(o[n as int] == x@);
        let mut j: usize = 0;
        while j < out.len() && parts_less(&keys[j], &xk)
            invariant
                j <= out@.len(),
                keys@.len() == out@.len(),
                ob == texts(out@),
                vviews(xk@) == path_parts_spec(x@),
                forall|k: int| 0 <= k < out@.len() ==> vviews(#[trigger] keys@[k]@) == path_parts_spec(out@[k]@),
                forall|k: int| 0 <= k < j ==> path_lt(#[trigger] ob[k], x@),
            decreases out.len() - j,
        {
            assert(ob[j as int] == out@[j as int]@);
            j = j + 1;
        }
        let same = j < out.len() && !parts_less(&xk, &keys[j]);
        proof {
            if j < out.len() {
                assert(ob[j as int] == out@[j as int]@);
                lemma_parts_total(path_parts_spec(x@), path_parts_spec(ob[j as int]));
            }
        }
        if same {
            proof {
                lemma_skip(o, n as int, ob, j as int);
            }
        } else {
            let ghost kb = keys@;
            let ghost outb = out@;
            proof {
                lemma_insert(o, n as int, ob, j as int);
            }
            out.insert(j, x);
            keys.insert(j, xk);
            proof {
                assert(texts(out@) =~= ob.insert(j as int, x@));
                assert forall|k: int| 0 <= k < out@.len() implies vviews(#[trigger] keys@[k]@) == path_parts_spec(out@[k]@) by {
                    if k < j {
                        assert(keys@[k] == kb[k] && out@[k] == outb[k]);
                    } else if k > j {
                        assert(keys@[k] == kb[k - 1] && out@[k] == outb[k - 1]);
                    }
                }
            }
        }
        n = n + 1;
    }
    out
}

} // verus!
