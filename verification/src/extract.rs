//! The section of one version in a changelog file: from its `## ` heading to
//! the next `## ` heading (sub-headings do not end it), trimmed.

use vstd::prelude::*;
use crate::pattern::vviews;
use crate::text::{
    chars_eq, chars_have_prefix_at, chars_of, extend_str, has_prefix, join_seq, join_vecs, lemma_split_on_nonempty,
    lit, slice_chars, split_on, split_on_exec, string_of, trim_chars, trim_end_chars, trim_end_spec, trim_spec,
};

verus! {

/// A line without the carriage return that ended it.
pub open spec fn strip_cr(l: Seq<char>) -> Seq<char> {
    if l.len() > 0 && l.last() == '\r' {
        l.drop_last()
    } else {
        l
    }
}

/// `str::lines`: the text split at `\n`, a `\r` before the `\n` dropped, no
/// empty line after a final `\n`.
pub open spec fn lines_of(s: Seq<char>) -> Seq<Seq<char>> {
    let p = split_on(s, '\n');
    let body = p.drop_last().map_values(|l: Seq<char>| strip_cr(l));
    if p.last().len() == 0 {
        body
    } else {
        body.push(p.last())
    }
}

/// The line is the version's heading: `## v{version}` or `## {version}`,
/// trailing white space ignored.
pub open spec fn is_heading(line: Seq<char>, version: Seq<char>) -> bool {
    let t = trim_end_spec(line);
    t == "## v"@ + version || t == "## "@ + version
}

/// Index of the first heading of the version at or after `i`, or `-1`.
pub open spec fn heading_from(ls: Seq<Seq<char>>, version: Seq<char>, i: int) -> int
    decreases ls.len() - i,
{
    if i < 0 || i >= ls.len() {
        -1
    } else if is_heading(ls[i], version) {
        i
    } else {
        heading_from(ls, version, i + 1)
    }
}

/// Index of the first `## ` line at or after `i`, or the number of lines.
pub open spec fn section_end(ls: Seq<Seq<char>>, i: int) -> int
    decreases ls.len() - i,
{
    if i < 0 || i >= ls.len() {
        ls.len() as int
    } else if has_prefix(ls[i], "## "@) {
        i
    } else {
        section_end(ls, i + 1)
    }
}

/// The version's section, or `None` when no line is its heading.
pub open spec fn extract_spec(content: Seq<char>, version: Seq<char>) -> Option<Seq<char>> {
    let ls = lines_of(content);
    let st = heading_from(ls, version, 0);
    if st < 0 {
        None
    } else {
        Some(trim_spec(join_seq(ls.subrange(st, section_end(ls, st + 1)), "\n"@)))
    }
}

fn lines_exec(content: &str) -> (r: Vec<Vec<char>>)
    ensures
        vviews(r@) == lines_of(content@),
{
    let parts = split_on_exec(&chars_of(content), '\n');
    let ghost pv = vviews(parts@);
    proof {
        lemma_split_on_nonempty(content@, '\n');
    }
    let n = parts.len();
    let mut out: Vec<Vec<char>> = Vec::new();
    let mut i: usize = 0;
    while i + 1 < n
        invariant
            n == parts@.len(),
            n >= 1,
            i + 1 <= n,
            pv == vviews(parts@),
            vviews(out@) == pv.drop_last().subrange(0, i as int).map_values(|l: Seq<char>| strip_cr(l)),
        decreases n - i,
    {
        let l = &parts[i];
        let x = if l.len() > 0 && l[l.len() - 1] == '\r' {
            slice_chars(l, 0, l.len() - 1)
        } else {
            slice_chars(l, 0, l.len())
        };
        assert(x@ == strip_cr(pv[i as int]));
        let ghost before = vviews(out@);
        out.push(x);
        assert(vviews(out@) =~= before.push(x@));
        assert(pv.drop_last().subrange(0, i + 1).map_values(|l: Seq<char>| strip_cr(l)) =~= pv.drop_last().subrange(
            0,
            i as int,
        ).map_values(|l: Seq<char>| strip_cr(l)).push(strip_cr(pv[i as int])));
        i = i + 1;
    }
    assert(pv.drop_last().subrange(0, n - 1) =~= pv.drop_last());
    let last = &parts[n - 1];
    if last.len() > 0 {
        let ghost before = vviews(out@);
        let x = slice_chars(last, 0, last.len());
        assert(x@ =~= pv.last());
        out.push(x);
        assert(vviews(out@) =~= before.push(pv.last()));
    }
    out
}

fn heading_index(ls: &Vec<Vec<char>>, version: &str) -> (r: Option<usize>)
    ensures
        match r {
            Some(i) => i as int == heading_from(vviews(ls@), version@, 0) && i < ls@.len(),
            None => heading_from(vviews(ls@), version@, 0) == -1,
        },
{
    let ghost lv = vviews(ls@);
    let mut hv = lit("## v");
    extend_str(&mut hv, version);
    let mut hp = lit("## ");
    extend_str(&mut hp, version);
    let mut i: usize = 0;
    while i < ls.len()
        invariant
            i <= ls@.len(),
            lv == vviews(ls@),
            hv@ == "## v"@ + version@,
            hp@ == "## "@ + version@,
            heading_from(lv, version@, 0) == heading_from(lv, version@, i as int),
        decreases ls.len() - i,
    {
        let t = trim_end_chars(&ls[i]);
        assert(lv[i as int] == ls@[i as int]@);
        if chars_eq(&t, &hv) || chars_eq(&t, &hp) {
            return Some(i);
        }
        i = i + 1;
    }
    None
}

fn end_index(ls: &Vec<Vec<char>>, from: usize) -> (r: usize)
    requires
        from <= ls@.len(),
    ensures
        r as int == section_end(vviews(ls@), from as int),
        from <= r <= ls@.len(),
{
    let ghost lv = vviews(ls@);
    let h2 = lit("## ");
    let mut e: usize = from;
    while e < ls.len()
        invariant
            from <= e <= ls@.len(),
            lv == vviews(ls@),
            h2@ == "## "@,
            section_end(lv, from as int) == section_end(lv, e as int),
        decreases ls.len() - e,
    {
        assert(lv[e as int] == ls@[e as int]@);
        let is_h2 = chars_have_prefix_at(&ls[e], 0, &h2);
        assert(ls@[e as int]@.subrange(0, ls@[e as int]@.len() as int) =~= ls@[e as int]@);
        if is_h2 {
            return e;
        }
        e = e + 1;
    }
    e
}

/// The section of `version` (without a `v`) in `content`: from the first line
/// that reads `## v{version}` or `## {version}` (trailing white space
/// ignored) to the next line that starts with `## ` or the end, joined by
/// newlines and trimmed; `None` when there is no such heading.
pub fn extract_version_section(content: &str, version: &str) -> (r: Option<String>)
    ensures
        match extract_spec(content@, version@) {
            Some(x) => r is Some && r->0@ == x,
            None => r is None,
        },
{
    let ls = lines_exec(content);
    let ghost lv = vviews(ls@);
    let st = match heading_index(&ls, version) {
        None => return None,
        Some(st) => st,
    };
    let n = ls.len();
    assert(st < n);
    let e = end_index(&ls, st + 1);
    let mut part: Vec<Vec<char>> = Vec::new();
    let mut k: usize = st;
    while k < e
        invariant
            st <= k <= e <= ls@.len(),
            lv == vviews(ls@),
            vviews(part@) == lv.subrange(st as int, k as int),
        decreases e - k,
    {
        let ghost before = vviews(part@);
        part.push(slice_chars(&ls[k], 0, ls[k].len()));
        assert(ls@[k as int]@.subrange(0, ls@[k as int]@.len() as int) =~= ls@[k as int]@);
        assert(vviews(part@) =~= before.push(lv[k as int]));
        assert(lv.subrange(st as int, k + 1) =~= lv.subrange(st as int, k as int).push(lv[k as int]));
        k = k + 1;
    }
    let joined = join_vecs(&part, "\n");
    Some(string_of(&trim_chars(&joined)))
}

} // verus!
