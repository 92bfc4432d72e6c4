//! The fallback for any version file: every occurrence of the current
//! version that stands as a word (or right after a `v`) is replaced by the
//! new one; word boundaries are ASCII ones.

use vstd::prelude::*;
use crate::pattern::{regex_matches, regex_matches_of, regex_split, regex_split_of, vviews, weave, weave_exec};
use crate::cli::parse::texts;
use crate::text::{chars_of, contains_seq, extend_str, owned, push_str, slice_chars, str_contains, string_of};

verus! {

/// A character that has a meaning in a regex (as `regex::escape` counts
/// them).
pub open spec fn is_meta(c: char) -> bool {
    c == '\\' || c == '.' || c == '+' || c == '*' || c == '?' || c == '(' || c == ')' || c == '|' || c == '['
        || c == ']' || c == '{' || c == '}' || c == '^' || c == '$' || c == '#' || c == '&' || c == '-' || c == '~'
}

/// The text with a backslash before each meta character.
pub open spec fn escaped(text: Seq<char>) -> Seq<char>
    decreases text.len(),
{
    if text.len() == 0 {
        Seq::empty()
    } else {
        escaped(text.drop_last()) + if is_meta(text.last()) {
            seq!['\\', text.last()]
        } else {
            seq![text.last()]
        }
    }
}

/// `regex::escape`: the contract states its result, a backslash before each
/// meta character.
#[verifier::external_body]
fn regex_escape(text: &str) -> (r: String)
    ensures
        r@ == escaped(text@),
{
    regex::escape(text)
}

/// The pattern of a version: a word boundary or `v`, the escaped version,
/// a word boundary.
pub open spec fn version_pattern(current: Seq<char>) -> Seq<char> {
    "((?-u:\\b)|v)"@ + escaped(current) + "(?-u:\\b)"@
}

/// What becomes of a match: the part before the version (`v` or nothing)
/// kept, then the new version.
pub open spec fn replaced(hit: Seq<char>, current: Seq<char>, new: Seq<char>) -> Seq<char> {
    if hit.len() >= current.len() {
        hit.subrange(0, hit.len() - current.len()) + new
    } else {
        new
    }
}

/// The outcome of updating a text file.
#[derive(Debug)]
pub enum TextUpdate {
    /// The file does not contain the current version.
    Skipped,
    /// The new text.
    Updated(String),
}

/// The text with the version replaced; `None` when it does not contain the
/// current version.
pub open spec fn update_text_spec(text: Seq<char>, current: Seq<char>, new: Seq<char>) -> Option<Seq<char>> {
    if !contains_seq(text, current) {
        None
    } else {
        let p = version_pattern(current);
        match (regex_split_of(p, text), regex_matches_of(p, text)) {
            (Some(g), Some(h)) => Some(weave(g, h.map_values(|x: Seq<char>| replaced(x, current, new)))),
            _ => Some(text),
        }
    }
}

/// Replaces the current version by the new one in a text file's content.
pub fn update_text(text: &str, current: &str, new: &str) -> (r: TextUpdate)
    ensures
        match update_text_spec(text@, current@, new@) {
            None => r is Skipped,
            Some(t) => r matches TextUpdate::Updated(s) && s@ == t,
        },
{
    if !str_contains(text, current) {
        return TextUpdate::Skipped;
    }
    let mut pattern = owned("((?-u:\\b)|v)");
    push_str(&mut pattern, regex_escape(current).as_str());
    push_str(&mut pattern, "(?-u:\\b)");
    let g = regex_split(pattern.as_str(), text);
    let h = regex_matches(pattern.as_str(), text);
    match (g, h) {
        (Some(g), Some(h)) => {
            let mut gv: Vec<Vec<char>> = Vec::new();
            let mut i: usize = 0;
            while i < g.len()
                invariant
                    i <= g@.len(),
                    vviews(gv@) == texts(g@).subrange(0, i as int),
                decreases g.len() - i,
            {
                let ghost before = vviews(gv@);
                gv.push(chars_of(g[i].as_str()));
                assert(vviews(gv@) =~= before.push(g@[i as int]@));
                assert(texts(g@).subrange(0, i + 1) =~= texts(g@).subrange(0, i as int).push(g@[i as int]@));
                i = i + 1;
            }
            assert(texts(g@).subrange(0, g@.len() as int) =~= texts(g@));
            let ghost hv = texts(h@);
            let cur_len = chars_of(current).len();
            let mut rv: Vec<Vec<char>> = Vec::new();
            let mut j: usize = 0;
            while j < h.len()
                invariant
                    j <= h@.len(),
                    hv == texts(h@),
                    cur_len == current@.len(),
                    vviews(rv@) == hv.subrange(0, j as int).map_values(|x: Seq<char>| replaced(x, current@, new@)),
                decreases h.len() - j,
            {
                let hit = chars_of(h[j].as_str());
                let mut piece = if hit.len() >= cur_len {
                    slice_chars(&hit, 0, hit.len() - cur_len)
                } else {
                    Vec::new()
                };
                extend_str(&mut piece, new);
                assert(hv[j as int] == hit@);
                assert(piece@ == replaced(hv[j as int], current@, new@));
                let ghost before = vviews(rv@);
                rv.push(piece);
                assert(vviews(rv@) =~= before.push(replaced(hv[j as int], current@, new@)));
                assert(hv.subrange(0, j + 1).map_values(|x: Seq<char>| replaced(x, current@, new@)) =~= hv.subrange(
                    0,
                    j as int,
                ).map_values(|x: Seq<char>| replaced(x, current@, new@)).push(replaced(hv[j as int], current@, new@)));
                j = j + 1;
            }
            assert(hv.subrange(0, hv.len() as int) =~= hv);
            TextUpdate::Updated(string_of(&weave_exec(&gv, &rv)))
        },
        _ => TextUpdate::Updated(owned(text)),
    }
}

} // verus!
