//! The order of strings (`str`'s `Ord`: character by character, by code
//! point, a proper prefix first) and sorting by it.

use vstd::prelude::*;
use crate::cli::parse::texts;
use crate::text::chars_of;

verus! {

/// `a` comes strictly before `b`.
pub open spec fn lex_lt(a: Seq<char>, b: Seq<char>) -> bool
    decreases a.len(),
{
    if a.len() == 0 {
        b.len() > 0
    } else if b.len() == 0 {
        false
    } else if a[0] == b[0] {
        lex_lt(a.drop_first(), b.drop_first())
    } else {
        a[0] < b[0]
    }
}

/// `a` comes before `b` or is `b`.
pub open spec fn lex_le(a: Seq<char>, b: Seq<char>) -> bool {
    a == b || lex_lt(a, b)
}

pub proof fn lemma_lex_irreflexive(a: Seq<char>)
    ensures
        !lex_lt(a, a),
    decreases a.len(),
{
    if a.len() > 0 {
        lemma_lex_irreflexive(a.drop_first());
    }
}

pub proof fn lemma_lex_total(a: Seq<char>, b: Seq<char>)
    ensures
        a == b || lex_lt(a, b) || lex_lt(b, a),
        !(lex_lt(a, b) && lex_lt(b, a)),
    decreases a.len(),
{
    if a.len() > 0 && b.len() > 0 {
        if a[0] == b[0] {
            lemma_lex_total(a.drop_first(), b.drop_first());
            if a.drop_first() == b.drop_first() {
                assert(a =~= seq![a[0]] + a.drop_first());
                assert(b =~= seq![b[0]] + b.drop_first());
            }
        }
    } else if a.len() == 0 && b.len() == 0 {
        assert(a =~= b);
    }
}

pub proof fn lemma_lex_transitive(a: Seq<char>, b: Seq<char>, c: Seq<char>)
    requires
        lex_lt(a, b),
        lex_lt(b, c),
    ensures
        lex_lt(a, c),
    decreases a.len(),
{
    if a.len() > 0 && b.len() > 0 && c.len() > 0 {
        if a[0] == b[0] && b[0] == c[0] {
            lemma_lex_transitive(a.drop_first(), b.drop_first(), c.drop_first());
        }
    }
}

/// `a < b` on strings.
pub fn lex_less(a: &str, b: &str) -> (r: bool)
    ensures
        r == lex_lt(a@, b@),
{
    let x = chars_of(a);
    let y = chars_of(b);
    let mut i: usize = 0;
    proof {
        assert(x@.subrange(0, x@.len() as int) =~= x@);
        assert(y@.subrange(0, y@.len() as int) =~= y@);
    }
    while i < x.len() && i < y.len() && x[i] == y[i]
        invariant
            i <= x@.len(),
            i <= y@.len(),
            x@.subrange(0, i as int) == y@.subrange(0, i as int),
            lex_lt(x@, y@) == lex_lt(x@.subrange(i as int, x@.len() as int), y@.subrange(i as int, y@.len() as int)),
        decreases x.len() - i,
    {
        proof {
            let xs = x@.subrange(i as int, x@.len() as int);
            let ys = y@.subrange(i as int, y@.len() as int);
            assert(xs.drop_first() =~= x@.subrange(i + 1, x@.len() as int));
            assert(ys.drop_first() =~= y@.subrange(i + 1, y@.len() as int));
            assert(x@.subrange(0, i + 1) =~= x@.subrange(0, i as int).push(x@[i as int]));
            assert(y@.subrange(0, i + 1) =~= y@.subrange(0, i as int).push(y@[i as int]));
        }
        i = i + 1;
    }
    proof {
        assert(x@.subrange(0, x@.len() as int) =~= x@);
        assert(y@.subrange(0, y@.len() as int) =~= y@);
    }
    if i == x.len() {
        i < y.len()
    } else if i == y.len() {
        false
    } else {
        x[i] < y[i]
    }
}

/// Ascending order.
pub open spec fn sorted(s: Seq<Seq<char>>) -> bool {
    forall|i: int, j: int| 0 <= i < j < s.len() ==> lex_le(#[trigger] s[i], #[trigger] s[j])
}

/// Strictly ascending order (sorted, no repeats).
pub open spec fn strictly_sorted(s: Seq<Seq<char>>) -> bool {
    forall|i: int, j: int| 0 <= i < j < s.len() ==> lex_lt(#[trigger] s[i], #[trigger] s[j])
}

fn insert_sorted(out: &mut Vec<String>, x: String)
    requires
        sorted(texts(old(out)@)),
    ensures
        sorted(texts(final(out)@)),
        texts(final(out)@).to_multiset() == texts(old(out)@).to_multiset().insert(x@),
{
    let mut j: usize = 0;
    while j < out.len() && !lex_less(x.as_str(), out[j].as_str())
        invariant
            j <= out@.len(),
            forall|k: int| 0 <= k < j ==> lex_le(#[trigger] texts(out@)[k], x@),
        decreases out.len() - j,
    {
        proof {
            lemma_lex_total(x@, texts(out@)[j as int]);
        }
        j = j + 1;
    }
    let ghost before = texts(out@);
    out.insert(j, x);
    proof {
        let after = texts(out@);
        assert(after =~= before.insert(j as int, x@));
        before.insert_ensures(j as int, x@);
        assert forall|a: int, b: int| 0 <= a < b < after.len() implies lex_le(
            #[trigger] after[a],
            #[trigger] after[b],
        ) by {
            if a < j && b < j {
                assert(after[a] == before[a] && after[b] == before[b]);
            } else if a < j && b == j {
            } else if a < j && b > j {
                assert(after[a] == before[a] && after[b] == before[b - 1]);
                if before[a] != before[b - 1] {
                    assert(lex_le(before[a], before[b - 1]));
                }
            } else if a == j {
                assert(after[b] == before[b - 1]);
                // x is before everything from j on
                if b - 1 == j as int {
                    lemma_lex_total(x@, before[b - 1]);
                } else {
                    assert(lex_le(before[j as int], before[b - 1]));
                    lemma_lex_total(x@, before[j as int]);
                    if lex_lt(x@, before[j as int]) && lex_lt(before[j as int], before[b - 1]) {
                        lemma_lex_transitive(x@, before[j as int], before[b - 1]);
                    }
                }
            } else {
                assert(after[a] == before[a - 1] && after[b] == before[b - 1]);
            }
        }
        vstd::seq_lib::to_multiset_insert(before, j as int, x@);
    }
}

/// `v` sorted ascending (a stable insertion sort).
pub fn sort_strings(v: Vec<String>) -> (r: Vec<String>)
    ensures
        sorted(texts(r@)),
        texts(r@).to_multiset() == texts(v@).to_multiset(),
{
    let ghost o = texts(v@);
    let mut v = v;
    let mut out: Vec<String> = Vec::new();
    let mut n: usize = 0;
    let total = v.len();
    assert(texts(v@) =~= o.subrange(0, o.len() as int));
    proof {
        assert(texts(out@) =~= Seq::<Seq<char>>::empty());
        assert(o.subrange(0, 0) =~= Seq::<Seq<char>>::empty());
    }
    while v.len() > 0
        invariant
            total == o.len(),
            n + v@.len() == o.len(),
            texts(v@) == o.subrange(n as int, o.len() as int),
            sorted(texts(out@)),
            texts(out@).to_multiset() == o.subrange(0, n as int).to_multiset(),
        decreases v.len(),
    {
        let ghost vb = v@;
        let ghost n0 = n;
        assert(texts(vb) == o.subrange(n as int, o.len() as int));
        let x = v.remove(0);
        proof {
            assert(texts(vb)[0] == vb[0]@);
            assert(o[n as int] == texts(vb)[0]);
            assert(o[n as int] == x@);
            assert(o.subrange(0, n + 1) =~= o.subrange(0, n as int).push(x@));
            vstd::seq_lib::to_multiset_build(o.subrange(0, n as int), x@);
        }
        insert_sorted(&mut out, x);
        n = n + 1;
        proof {
            assert(v@ =~= vb.subrange(1, vb.len() as int));
            assert(texts(v@) =~= texts(vb).subrange(1, vb.len() as int));
            assert(texts(vb).subrange(1, vb.len() as int) =~= o.subrange(n0 + 1, o.len() as int));
            assert(texts(v@) =~= o.subrange(n as int, o.len() as int));
        }
    }
    assert(o.subrange(0, o.len() as int) =~= o);
    out
}

/// `v` sorted ascending with repeats dropped.
pub fn sort_dedup_strings(v: Vec<String>) -> (r: Vec<String>)
    ensures
        strictly_sorted(texts(r@)),
        texts(r@).to_set() == texts(v@).to_set(),
{
    let s = sort_strings(v);
    let ghost ss = texts(s@);
    let mut out: Vec<String> = Vec::new();
    let mut i: usize = 0;
    while i < s.len()
        invariant
            i <= s@.len(),
            ss == texts(s@),
            sorted(ss),
            strictly_sorted(texts(out@)),
            texts(out@).to_set() == ss.subrange(0, i as int).to_set(),
            i > 0 ==> texts(out@).len() > 0 && texts(out@).last() == ss[i - 1],
            i == 0 ==> texts(out@).len() == 0,
        decreases s.len() - i,
    {
        let ghost before = texts(out@);
        let dup = out.len() > 0 && crate::text::str_eq(out[out.len() - 1].as_str(), s[i].as_str());
        if !dup {
            out.push(s[i].clone());
            proof {
                let after = texts(out@);
                assert(after =~= before.push(ss[i as int]));
                assert forall|a: int, b: int| 0 <= a < b < after.len() implies lex_lt(
                    #[trigger] after[a],
                    #[trigger] after[b],
                ) by {
                    if b == after.len() - 1 && i > 0 {
                        assert(after[b] == ss[i as int]);
                        assert(lex_le(ss[i - 1], ss[i as int]));
                        if a == b - 1 {
                        } else {
                            assert(lex_lt(before[a], before.last())) by {
                                assert(before.last() == before[before.len() - 1]);
                            }
                            if ss[i - 1] != ss[i as int] {
                                lemma_lex_transitive(before[a], ss[i - 1], ss[i as int]);
                            }
                        }
                    } else if b < after.len() - 1 {
                        assert(after[a] == before[a] && after[b] == before[b]);
                    }
                }
            }
        }
        proof {
            let after = texts(out@);
            assert(ss.subrange(0, i + 1) =~= ss.subrange(0, i as int).push(ss[i as int]));
            assert(after.to_set() =~= ss.subrange(0, i + 1).to_set()) by {
                assert forall|x: Seq<char>| after.contains(x) <==> ss.subrange(0, i + 1).contains(x) by {
                    if after.contains(x) {
                        let k = choose|k: int| 0 <= k < after.len() && after[k] == x;
                        if dup || k < before.len() {
                            assert(before[k] == x);
                            assert(before.to_set().contains(x));
                            assert(ss.subrange(0, i as int).contains(x));
                            let m = choose|m: int| 0 <= m < i && #[trigger] ss.subrange(0, i as int)[m] == x;
                            assert(ss.subrange(0, i + 1)[m] == x);
                        } else {
                            assert(ss.subrange(0, i + 1)[i as int] == x);
                        }
                    }
                    if ss.subrange(0, i + 1).contains(x) {
                        let m = choose|m: int| 0 <= m < i + 1 && #[trigger] ss.subrange(0, i + 1)[m] == x;
                        if m < i {
                            assert(ss.subrange(0, i as int)[m] == x);
                            assert(ss.subrange(0, i as int).to_set().contains(x));
                            assert(before.contains(x));
                            let k = choose|k: int| 0 <= k < before.len() && before[k] == x;
                            assert(after[k] == x);
                        } else if dup {
                            assert(before.last() == x);
                            assert(after[before.len() - 1] == x);
                        } else {
                            assert(after[after.len() - 1] == x);
                        }
                    }
                }
            }
        }
        i = i + 1;
    }
    proof {
        assert(ss.subrange(0, ss.len() as int) =~= ss);
        assert forall|x: Seq<char>| ss.contains(x) <==> texts(v@).contains(x) by {
            vstd::seq_lib::to_multiset_contains(ss, x);
            vstd::seq_lib::to_multiset_contains(texts(v@), x);
        }
        assert(ss.to_set() =~= texts(v@).to_set());
    }
    out
}

} // verus!
