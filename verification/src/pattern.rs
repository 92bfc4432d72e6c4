//! Regular expressions (the `regex` crate): the pieces of a text between the
//! matches of a pattern, the matches themselves, and the text woven back
//! from the two.

use vstd::prelude::*;
use crate::cli::parse::texts;
use crate::text::extend_chars;

verus! {

/// `Regex::new(pattern)` then `split(text)`, each piece as text; `None` when
/// the pattern does not compile.
pub uninterp spec fn regex_split_of(pattern: Seq<char>, text: Seq<char>) -> Option<Seq<Seq<char>>>;

/// `Regex::new(pattern)` then `find_iter(text)`, each match as text; `None`
/// when the pattern does not compile.
pub uninterp spec fn regex_matches_of(pattern: Seq<char>, text: Seq<char>) -> Option<Seq<Seq<char>>>;

pub open spec fn opt_texts(r: Option<Vec<String>>) -> Option<Seq<Seq<char>>> {
    match r {
        Some(v) => Some(texts(v@)),
        None => None,
    }
}

/// `regex::Regex::split`: the parts of `text` that no match covers, in order.
#[verifier::external_body]
pub(crate) fn regex_split(pattern: &str, text: &str) -> (r: Option<Vec<String>>)
    ensures
        opt_texts(r) == regex_split_of(pattern@, text@),
{
    regex::Regex::new(pattern).ok().map(|re| re.split(text).map(|p| p.to_string()).collect())
}

/// `regex::Regex::find_iter`: the successive non-overlapping matches, in order.
#[verifier::external_body]
pub(crate) fn regex_matches(pattern: &str, text: &str) -> (r: Option<Vec<String>>)
    ensures
        opt_texts(r) == regex_matches_of(pattern@, text@),
{
    regex::Regex::new(pattern).ok().map(|re| re.find_iter(text).map(|m| m.as_str().to_string()).collect())
}

/// The first `k` rounds of `gaps[0] + hits[0] + gaps[1] + hits[1] + …`.
pub open spec fn woven(gaps: Seq<Seq<char>>, hits: Seq<Seq<char>>, k: int) -> Seq<char>
    decreases k,
{
    if k <= 0 {
        Seq::empty()
    } else {
        woven(gaps, hits, k - 1) + (if k - 1 < gaps.len() {
            gaps[k - 1]
        } else {
            Seq::empty()
        }) + (if k - 1 < hits.len() {
            hits[k - 1]
        } else {
            Seq::empty()
        })
    }
}

/// Gaps and hits taken in turn, a gap first, until both run out.
pub open spec fn weave(gaps: Seq<Seq<char>>, hits: Seq<Seq<char>>) -> Seq<char> {
    woven(gaps, hits, if gaps.len() >= hits.len() { gaps.len() as int } else { hits.len() as int })
}

pub open spec fn vviews(v: Seq<Vec<char>>) -> Seq<Seq<char>> {
    v.map_values(|x: Vec<char>| x@)
}

/// Gaps and hits taken in turn, a gap first.
pub fn weave_exec(gaps: &Vec<Vec<char>>, hits: &Vec<Vec<char>>) -> (r: Vec<char>)
    ensures
        r@ == weave(vviews(gaps@), vviews(hits@)),
{
    let n = if gaps.len() >= hits.len() { gaps.len() } else { hits.len() };
    let mut out: Vec<char> = Vec::new();
    let mut k: usize = 0;
    while k < n
        invariant
            k <= n,
            n == (if gaps@.len() >= hits@.len() { gaps@.len() } else { hits@.len() }),
            out@ == woven(vviews(gaps@), vviews(hits@), k as int),
        decreases n - k,
    {
        if k < gaps.len() {
            extend_chars(&mut out, &gaps[k]);
        }
        if k < hits.len() {
            extend_chars(&mut out, &hits[k]);
        }
        k = k + 1;
    }
    out
}

} // verus!
