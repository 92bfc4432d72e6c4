//! Configuration values: a JSON value whose objects keep their members in
//! order (`Vec` of key–value pairs; a key is set in place, a new key goes to
//! the end). Numbers are kept as their text.

use vstd::prelude::*;
use crate::text::str_eq;

verus! {

/// A JSON value.
#[derive(Debug)]
pub enum Json {
    Null,
    Bool(bool),
    /// A number, as written.
    Number(String),
    Str(String),
    Array(Vec<Json>),
    Object(Vec<(String, Json)>),
}

/// The members of a JSON object, in order.
pub type JsonObject = Vec<(String, Json)>;

/// Index of the first member named `k` at or after `i`, or `-1`.
pub open spec fn key_index_from(s: Seq<(String, Json)>, k: Seq<char>, i: int) -> int
    decreases s.len() - i,
{
    if i < 0 || i >= s.len() {
        -1
    } else if s[i].0@ == k {
        i
    } else {
        key_index_from(s, k, i + 1)
    }
}

/// Index of the first member named `k`, or `-1`.
pub open spec fn key_index(s: Seq<(String, Json)>, k: Seq<char>) -> int {
    key_index_from(s, k, 0)
}

/// The value of the member named `k`.
pub open spec fn obj_get(s: Seq<(String, Json)>, k: Seq<char>) -> Option<Json> {
    let i = key_index(s, k);
    if i < 0 {
        None
    } else {
        Some(s[i].1)
    }
}

/// The object with member `k` set to `v`: in place when present, else appended.
pub open spec fn obj_set(s: Seq<(String, Json)>, k: String, v: Json) -> Seq<(String, Json)> {
    let i = key_index(s, k@);
    if i < 0 {
        s.push((k, v))
    } else {
        s.update(i, (s[i].0, v))
    }
}

/// The object without its member `k` (the first one so named).
pub open spec fn obj_remove(s: Seq<(String, Json)>, k: Seq<char>) -> Seq<(String, Json)> {
    let i = key_index(s, k);
    if i < 0 {
        s
    } else {
        s.remove(i)
    }
}

pub proof fn lemma_key_index_from(s: Seq<(String, Json)>, k: Seq<char>, i: int)
    requires
        0 <= i,
    ensures
        key_index_from(s, k, i) == -1 || (i <= key_index_from(s, k, i) < s.len() && s[key_index_from(
            s,
            k,
            i,
        )].0@ == k),
        key_index_from(s, k, i) == -1 ==> forall|j: int| i <= j < s.len() ==> #[trigger] s[j].0@ != k,
        key_index_from(s, k, i) >= 0 ==> forall|j: int|
            i <= j < key_index_from(s, k, i) ==> #[trigger] s[j].0@ != k,
    decreases s.len() - i,
{
    if i < s.len() && s[i].0@ != k {
        lemma_key_index_from(s, k, i + 1);
    }
}

/// Index of the first member named `k`.
pub fn find_key(s: &Vec<(String, Json)>, k: &str) -> (r: Option<usize>)
    ensures
        match r {
            Some(i) => i as int == key_index(s@, k@) && i < s@.len(),
            None => key_index(s@, k@) == -1,
        },
{
    let mut i: usize = 0;
    while i < s.len()
        invariant
            i <= s@.len(),
            key_index(s@, k@) == key_index_from(s@, k@, i as int),
        decreases s.len() - i,
    {
        if str_eq(s[i].0.as_str(), k) {
            return Some(i);
        }
        i = i + 1;
    }
    None
}

/// The value of member `k`.
pub fn get_member<'a>(s: &'a Vec<(String, Json)>, k: &str) -> (r: Option<&'a Json>)
    ensures
        match obj_get(s@, k@) {
            Some(v) => r is Some && *r->0 == v,
            None => r is None,
        },
{
    match find_key(s, k) {
        Some(i) => Some(&s[i].1),
        None => None,
    }
}

/// Sets member `k` to `v` (in place when present, else appended).
pub fn set_member(s: &mut Vec<(String, Json)>, k: String, v: Json)
    ensures
        final(s)@ == obj_set(old(s)@, k, v),
{
    match find_key(s, k.as_str()) {
        Some(i) => {
            let mut e: Vec<(String, Json)> = Vec::new();
            std::mem::swap(&mut e, s);
            let (name, _) = e.remove(i);
            e.insert(i, (name, v));
            assert(e@ =~= old(s)@.update(i as int, (old(s)@[i as int].0, v)));
            *s = e;
        },
        None => {
            s.push((k, v));
        },
    }
}

/// Removes member `k` (the first so named).
pub fn remove_member(s: &mut Vec<(String, Json)>, k: &str)
    ensures
        final(s)@ == obj_remove(old(s)@, k@),
{
    match find_key(s, k) {
        Some(i) => {
            s.remove(i);
        },
        None => {},
    }
}

/// A member that is absent, `null` or a string.
pub open spec fn optional_string(o: Option<Json>) -> bool {
    match o {
        None => true,
        Some(Json::Null) => true,
        Some(Json::Str(_)) => true,
        Some(_) => false,
    }
}

/// A package manifest: `name`, `version` and `description` are each absent,
/// `null` or a string.
pub open spec fn is_manifest_spec(root: Seq<(String, Json)>) -> bool {
    optional_string(obj_get(root, "name"@)) && optional_string(obj_get(root, "version"@)) && optional_string(
        obj_get(root, "description"@),
    )
}

fn optional_string_member(root: &Vec<(String, Json)>, k: &str) -> (r: bool)
    ensures
        r == optional_string(obj_get(root@, k@)),
{
    match get_member(root, k) {
        None => true,
        Some(Json::Null) => true,
        Some(Json::Str(_)) => true,
        Some(_) => false,
    }
}

/// Whether an object reads as a package manifest (see `is_manifest_spec`).
pub fn is_manifest(root: &Vec<(String, Json)>) -> (r: bool)
    ensures
        r == is_manifest_spec(root@),
{
    optional_string_member(root, "name") && optional_string_member(root, "version") && optional_string_member(
        root,
        "description",
    )
}

} // verus!
