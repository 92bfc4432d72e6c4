//! Configuration merging and file-level validation.
//!
//! Precedence: built-in defaults ← global file ← project file ← overrides,
//! each key replaced whole; the one exception is the changelog section, whose
//! `types` merge key by key across the two files (`false` removes a type).
//! `null` overrides are dropped. A true `recursive` appends the recursive
//! manifest patterns to `files` and turns itself off; `files` is then
//! de-duplicated, first occurrence kept.

use vstd::prelude::*;
use crate::json::{
    find_key, get_member, key_index, key_index_from, lemma_key_index_from, obj_get, obj_set, set_member, Json,
    JsonObject,
};
use crate::cli::parse::texts;
use crate::text::{extend_chars, extend_str, lit, str_eq, string_of, chars_of};

verus! {

/// What can go wrong loading the configuration.
#[derive(Debug)]
pub enum LoadConfigError {
    Io { message: String },
    Parse { message: String },
    UnsupportedConfig { message: String },
    AmbiguousConfig { message: String },
}

impl LoadConfigError {
    pub open spec fn message_view(&self) -> Seq<char> {
        match self {
            LoadConfigError::Io { message } => message@,
            LoadConfigError::Parse { message } => message@,
            LoadConfigError::UnsupportedConfig { message } => message@,
            LoadConfigError::AmbiguousConfig { message } => message@,
        }
    }

    /// The user-facing text of the error.
    pub fn message(&self) -> (r: &String)
        ensures
            r@ == self.message_view(),
    {
        match self {
            LoadConfigError::Io { message } => message,
            LoadConfigError::Parse { message } => message,
            LoadConfigError::UnsupportedConfig { message } => message,
            LoadConfigError::AmbiguousConfig { message } => message,
        }
    }
}

/// The built-in defaults, key by key.
pub open spec fn is_defaults(s: Seq<(String, Json)>) -> bool {
    &&& s.len() == 12
    &&& s[0].0@ == "commit"@ && s[0].1 == Json::Bool(true)
    &&& s[1].0@ == "push"@ && s[1].1 == Json::Bool(true)
    &&& s[2].0@ == "tag"@ && s[2].1 == Json::Bool(true)
    &&& s[3].0@ == "sign"@ && s[3].1 == Json::Bool(false)
    &&& s[4].0@ == "install"@ && s[4].1 == Json::Bool(false)
    &&& s[5].0@ == "recursive"@ && s[5].1 == Json::Bool(false)
    &&& s[6].0@ == "noVerify"@ && s[6].1 == Json::Bool(false)
    &&& s[7].0@ == "confirm"@ && s[7].1 == Json::Bool(true)
    &&& s[8].0@ == "ignoreScripts"@ && s[8].1 == Json::Bool(false)
    &&& s[9].0@ == "all"@ && s[9].1 == Json::Bool(false)
    &&& s[10].0@ == "noGitCheck"@ && s[10].1 == Json::Bool(true)
    &&& s[11].0@ == "files"@ && is_empty_array(s[11].1)
}

pub open spec fn is_empty_array(j: Json) -> bool {
    match j {
        Json::Array(a) => a@.len() == 0,
        _ => false,
    }
}

/// `o` holds an array with these items.
pub open spec fn array_is(o: Option<Json>, items: Seq<Json>) -> bool {
    match o {
        Some(Json::Array(b)) => b@ == items,
        _ => false,
    }
}

/// `j` is the string `s`.
pub open spec fn str_is(j: Json, s: Seq<char>) -> bool {
    match j {
        Json::Str(t) => t@ == s,
        _ => false,
    }
}

fn member(k: &str, v: Json) -> (r: (String, Json))
    ensures
        r.0@ == k@,
        r.1 == v,
{
    (crate::text::owned(k), v)
}

/// The built-in defaults (`bumpConfigDefaults`).
pub fn bump_config_defaults() -> (m: JsonObject)
    ensures
        is_defaults(m@),
{
    let mut m: JsonObject = Vec::new();
    m.push(member("commit", Json::Bool(true)));
    m.push(member("push", Json::Bool(true)));
    m.push(member("tag", Json::Bool(true)));
    m.push(member("sign", Json::Bool(false)));
    m.push(member("install", Json::Bool(false)));
    m.push(member("recursive", Json::Bool(false)));
    m.push(member("noVerify", Json::Bool(false)));
    m.push(member("confirm", Json::Bool(true)));
    m.push(member("ignoreScripts", Json::Bool(false)));
    m.push(member("all", Json::Bool(false)));
    m.push(member("noGitCheck", Json::Bool(true)));
    m.push(member("files", Json::Array(Vec::new())));
    m
}

/// Shallow merge: every member of `over`, in order, set on `base`.
pub open spec fn merge_spec(base: Seq<(String, Json)>, over: Seq<(String, Json)>) -> Seq<(String, Json)>
    decreases over.len(),
{
    if over.len() == 0 {
        base
    } else {
        obj_set(merge_spec(base, over.drop_last()), over.last().0, over.last().1)
    }
}

/// Shallow merge of `over` onto `base` (each key replaced whole).
pub fn merge(base: &mut JsonObject, over: JsonObject)
    ensures
        final(base)@ == merge_spec(old(base)@, over@),
{
    let ghost o = over@;
    let mut over = over;
    let mut n: usize = 0;
    assert(over@ =~= o.subrange(0, o.len() as int));
    let total = over.len();
    while over.len() > 0
        invariant
            total == o.len(),
            n + over@.len() == o.len(),
            over@ == o.subrange(n as int, o.len() as int),
            base@ == merge_spec(old(base)@, o.subrange(0, n as int)),
        decreases over.len(),
    {
        let (k, v) = over.remove(0);
        proof {
            assert(o.subrange(0, n + 1).drop_last() =~= o.subrange(0, n as int));
            assert(o[n as int] == (k, v));
        }
        set_member(base, k, v);
        n = n + 1;
        proof {
            assert(over@ =~= o.subrange(n as int, o.len() as int));
        }
    }
    assert(o.subrange(0, o.len() as int) =~= o);
}

/// The members whose value is not `null`, in order.
pub open spec fn strip_nulls_spec(s: Seq<(String, Json)>) -> Seq<(String, Json)>
    decreases s.len(),
{
    if s.len() == 0 {
        s
    } else if s.last().1 is Null {
        strip_nulls_spec(s.drop_last())
    } else {
        strip_nulls_spec(s.drop_last()).push(s.last())
    }
}

/// Drops the `null` members (an override of `null` means "not given").
pub fn strip_nulls(map: JsonObject) -> (r: JsonObject)
    ensures
        r@ == strip_nulls_spec(map@),
{
    let ghost o = map@;
    let mut map = map;
    let mut out: JsonObject = Vec::new();
    let mut n: usize = 0;
    assert(map@ =~= o.subrange(0, o.len() as int));
    let total = map.len();
    while map.len() > 0
        invariant
            total == o.len(),
            n + map@.len() == o.len(),
            map@ == o.subrange(n as int, o.len() as int),
            out@ == strip_nulls_spec(o.subrange(0, n as int)),
        decreases map.len(),
    {
        let (k, v) = map.remove(0);
        proof {
            assert(o.subrange(0, n + 1).drop_last() =~= o.subrange(0, n as int));
            assert(o[n as int] == (k, v));
        }
        let is_null = match v {
            Json::Null => true,
            _ => false,
        };
        if !is_null {
            out.push((k, v));
        }
        n = n + 1;
        proof {
            assert(map@ =~= o.subrange(n as int, o.len() as int));
        }
    }
    assert(o.subrange(0, o.len() as int) =~= o);
    out
}

/// `s` appears as a string among `items`.
pub open spec fn has_str(items: Seq<Json>, s: Seq<char>) -> bool {
    exists|j: int| 0 <= j < items.len() && str_is(#[trigger] items[j], s)
}

/// The items with repeated strings dropped (first occurrence kept); other
/// values are all kept.
pub open spec fn dedup_strings(items: Seq<Json>) -> Seq<Json>
    decreases items.len(),
{
    if items.len() == 0 {
        items
    } else {
        let rest = dedup_strings(items.drop_last());
        match items.last() {
            Json::Str(t) => if has_str(items.drop_last(), t@) {
                rest
            } else {
                rest.push(items.last())
            },
            _ => rest.push(items.last()),
        }
    }
}

proof fn lemma_dedup_has(items: Seq<Json>, s: Seq<char>)
    ensures
        has_str(dedup_strings(items), s) == has_str(items, s),
    decreases items.len(),
{
    if items.len() > 0 {
        let p = items.drop_last();
        lemma_dedup_has(p, s);
        let rest = dedup_strings(p);
        if has_str(items, s) {
            let j = choose|j: int| 0 <= j < items.len() && str_is(#[trigger] items[j], s);
            if j < p.len() {
                assert(p[j] == items[j]);
                assert(has_str(p, s));
            }
        }
        if has_str(p, s) {
            let j = choose|j: int| 0 <= j < p.len() && str_is(#[trigger] p[j], s);
            assert(items[j] == p[j]);
        }
        if has_str(rest, s) {
            let j = choose|j: int| 0 <= j < rest.len() && str_is(#[trigger] rest[j], s);
        }
        match items.last() {
            Json::Str(t) => {
                if !has_str(p, t@) {
                    let r2 = rest.push(items.last());
                    if has_str(r2, s) {
                        let j = choose|j: int| 0 <= j < r2.len() && str_is(#[trigger] r2[j], s);
                        if j < rest.len() {
                            assert(rest[j] == r2[j]);
                        } else {
                            assert(items[items.len() - 1] == items.last());
                        }
                    }
                    if has_str(rest, s) {
                        let j = choose|j: int| 0 <= j < rest.len() && str_is(#[trigger] rest[j], s);
                        assert(r2[j] == rest[j]);
                    }
                    if t@ == s {
                        assert(r2[rest.len() as int] == items.last());
                    }
                } else {
                    if t@ == s {
                        assert(items[items.len() - 1] == items.last());
                    }
                }
            },
            _ => {
                let r2 = rest.push(items.last());
                if has_str(r2, s) {
                    let j = choose|j: int| 0 <= j < r2.len() && str_is(#[trigger] r2[j], s);
                    if j < rest.len() {
                        assert(rest[j] == r2[j]);
                    }
                }
                if has_str(rest, s) {
                    let j = choose|j: int| 0 <= j < rest.len() && str_is(#[trigger] rest[j], s);
                    assert(r2[j] == rest[j]);
                }
            },
        }
    }
}

/// Two items are the same string.
pub open spec fn same_string(a: Json, b: Json) -> bool {
    match (a, b) {
        (Json::Str(x), Json::Str(y)) => x@ == y@,
        _ => false,
    }
}

/// No string occurs twice among the items.
pub open spec fn strings_unique(items: Seq<Json>) -> bool {
    forall|i: int, j: int| 0 <= i < j < items.len() ==> !same_string(#[trigger] items[i], #[trigger] items[j])
}

/// Dropping repeated strings keeps every string once: the result holds the
/// same strings as the items, none twice.
pub proof fn law_dedup_keeps_each_string_once(items: Seq<Json>)
    ensures
        strings_unique(dedup_strings(items)),
        forall|s: Seq<char>| #[trigger] has_str(dedup_strings(items), s) == has_str(items, s),
    decreases items.len(),
{
    assert forall|s: Seq<char>| #[trigger] has_str(dedup_strings(items), s) == has_str(items, s) by {
        lemma_dedup_has(items, s);
    }
    if items.len() > 0 {
        let p = items.drop_last();
        law_dedup_keeps_each_string_once(p);
        let rest = dedup_strings(p);
        match items.last() {
            Json::Str(t) => {
                if !has_str(p, t@) {
                    let d = rest.push(items.last());
                    assert forall|i: int, j: int| 0 <= i < j < d.len() implies !same_string(
                        #[trigger] d[i],
                        #[trigger] d[j],
                    ) by {
                        if j == rest.len() && same_string(d[i], d[j]) {
                            assert(d[i] == rest[i]);
                            assert(str_is(rest[i], t@));
                            assert(has_str(rest, t@));
                        } else if j < rest.len() {
                            assert(d[i] == rest[i] && d[j] == rest[j]);
                        }
                    }
                }
            },
            _ => {
                let d = rest.push(items.last());
                assert forall|i: int, j: int| 0 <= i < j < d.len() implies !same_string(
                    #[trigger] d[i],
                    #[trigger] d[j],
                ) by {
                    if j < rest.len() {
                        assert(d[i] == rest[i] && d[j] == rest[j]);
                    }
                }
            },
        }
    }
}

fn has_str_exec(items: &Vec<Json>, s: &String) -> (r: bool)
    ensures
        r == has_str(items@, s@),
{
    let mut i: usize = 0;
    while i < items.len()
        invariant
            i <= items@.len(),
            forall|j: int| 0 <= j < i ==> !str_is(#[trigger] items@[j], s@),
        decreases items.len() - i,
    {
        match &items[i] {
            Json::Str(t) => {
                if str_eq(t.as_str(), s.as_str()) {
                    return true;
                }
            },
            _ => {},
        }
        i = i + 1;
    }
    false
}

/// Drops repeated strings (first occurrence kept).
pub fn dedup_string_items(items: Vec<Json>) -> (r: Vec<Json>)
    ensures
        r@ == dedup_strings(items@),
{
    let ghost o = items@;
    let mut items = items;
    let mut out: Vec<Json> = Vec::new();
    let mut n: usize = 0;
    assert(items@ =~= o.subrange(0, o.len() as int));
    let total = items.len();
    while items.len() > 0
        invariant
            total == o.len(),
            n + items@.len() == o.len(),
            items@ == o.subrange(n as int, o.len() as int),
            out@ == dedup_strings(o.subrange(0, n as int)),
        decreases items.len(),
    {
        let x = items.remove(0);
        proof {
            assert(o.subrange(0, n + 1).drop_last() =~= o.subrange(0, n as int));
            assert(o[n as int] == x);
        }
        let keep = match &x {
            Json::Str(t) => {
                proof {
                    lemma_dedup_has(o.subrange(0, n as int), t@);
                }
                !has_str_exec(&out, t)
            },
            _ => true,
        };
        if keep {
            out.push(x);
        }
        n = n + 1;
        proof {
            assert(items@ =~= o.subrange(n as int, o.len() as int));
        }
    }
    assert(o.subrange(0, o.len() as int) =~= o);
    out
}

/// The patterns as JSON strings.
pub open spec fn str_items(globs: Seq<String>) -> Seq<Json> {
    globs.map_values(|g: String| Json::Str(g))
}

/// The value the last member named `k` gives, if any.
pub open spec fn last_value(s: Seq<(String, Json)>, k: Seq<char>) -> Option<Json>
    decreases s.len(),
{
    if s.len() == 0 {
        None
    } else if s.last().0@ == k {
        Some(s.last().1)
    } else {
        last_value(s.drop_last(), k)
    }
}

pub proof fn lemma_obj_set_get(s: Seq<(String, Json)>, k2: String, v: Json, k: Seq<char>)
    ensures
        obj_get(obj_set(s, k2, v), k) == if k2@ == k {
            Some(v)
        } else {
            obj_get(s, k)
        },
        key_index(obj_set(s, k2, v), k) >= 0 <==> (key_index(s, k) >= 0 || k2@ == k),
{
    lemma_key_index_from(s, k, 0);
    lemma_key_index_from(s, k2@, 0);
    let t = obj_set(s, k2, v);
    lemma_key_index_from(t, k, 0);
    let i = key_index(s, k2@);
    let j = key_index(s, k);
    let jt = key_index(t, k);
    if i < 0 {
        assert(t == s.push((k2, v)));
        if k2@ == k {
            assert(t[s.len() as int].0@ == k);
            assert forall|x: int| 0 <= x < s.len() implies t[x].0@ != k by {
                assert(t[x] == s[x]);
            }
            assert(jt == s.len());
        } else if j >= 0 {
            assert(t[j] == s[j]);
            assert forall|x: int| 0 <= x < j implies t[x].0@ != k by {
                assert(t[x] == s[x]);
            }
            assert(jt == j);
        } else {
            assert forall|x: int| 0 <= x < t.len() implies t[x].0@ != k by {
                if x < s.len() {
                    assert(t[x] == s[x]);
                }
            }
            assert(jt == -1);
        }
    } else {
        assert(t == s.update(i, (s[i].0, v)));
        if k2@ == k {
            assert(j == i);
            assert forall|x: int| 0 <= x < i implies t[x].0@ != k by {
                assert(t[x] == s[x]);
            }
            assert(t[i].0@ == k);
            assert(jt == i);
        } else if j >= 0 {
            assert(j != i);
            assert(t[j] == s[j]);
            assert forall|x: int| 0 <= x < j implies t[x].0@ != k by {
                assert(t[x].0 == s[x].0);
            }
            assert(jt == j);
        } else {
            assert forall|x: int| 0 <= x < t.len() implies t[x].0@ != k by {
                assert(t[x].0 == s[x].0);
            }
            assert(jt == -1);
        }
    }
}

pub proof fn lemma_merge_get(base: Seq<(String, Json)>, over: Seq<(String, Json)>, k: Seq<char>)
    ensures
        obj_get(merge_spec(base, over), k) == match last_value(over, k) {
            Some(v) => Some(v),
            None => obj_get(base, k),
        },
    decreases over.len(),
{
    if over.len() > 0 {
        lemma_merge_get(base, over.drop_last(), k);
        lemma_obj_set_get(merge_spec(base, over.drop_last()), over.last().0, over.last().1, k);
    }
}

pub proof fn lemma_strip_last(s: Seq<(String, Json)>, k: Seq<char>)
    ensures
        last_value(strip_nulls_spec(s), k) is Some ==> !(last_value(strip_nulls_spec(s), k)->0 is Null),
        (last_value(s, k) is Some && !(last_value(s, k)->0 is Null)) ==> last_value(strip_nulls_spec(s), k)
            == last_value(s, k),
        (unique_keys(s) && (last_value(s, k) is None || last_value(s, k)->0 is Null))
            ==> last_value(strip_nulls_spec(s), k) is None,
    decreases s.len(),
{
    if s.len() > 0 {
        let p = s.drop_last();
        let x = s.last();
        lemma_strip_last(p, k);
        let sp = strip_nulls_spec(p);
        if x.1 is Null {
            assert(strip_nulls_spec(s) == sp);
        } else {
            assert(strip_nulls_spec(s) == sp.push(x));
            assert(sp.push(x).drop_last() =~= sp);
            assert(sp.push(x).last() == x);
        }
        if unique_keys(s) {
            assert(unique_keys(p));
            if x.0@ == k {
                assert forall|i: int| 0 <= i < p.len() implies p[i].0@ != k by {
                    assert(s[i] == p[i]);
                    assert(s[s.len() - 1] == x);
                }
                lemma_last_value_absent(p, k);
            }
        }
    }
}

proof fn lemma_last_value_absent(s: Seq<(String, Json)>, k: Seq<char>)
    requires
        forall|i: int| 0 <= i < s.len() ==> s[i].0@ != k,
    ensures
        last_value(s, k) is None,
        last_value(strip_nulls_spec(s), k) is None,
    decreases s.len(),
{
    if s.len() > 0 {
        let p = s.drop_last();
        let x = s.last();
        assert forall|i: int| 0 <= i < p.len() implies p[i].0@ != k by {
            assert(s[i] == p[i]);
        }
        lemma_last_value_absent(p, k);
        assert(s[s.len() - 1].0@ != k);
        let sp = strip_nulls_spec(p);
        if x.1 is Null {
            assert(strip_nulls_spec(s) == sp);
        } else {
            assert(strip_nulls_spec(s) == sp.push(x));
            assert(sp.push(x).drop_last() =~= sp);
            assert(sp.push(x).last() == x);
        }
    }
}

/// No two members share a name (true of every parsed JSON object).
pub open spec fn unique_keys(s: Seq<(String, Json)>) -> bool {
    forall|i: int, j: int| 0 <= i < j < s.len() ==> #[trigger] s[i].0@ != #[trigger] s[j].0@
}

pub open spec fn opt_merge(base: Seq<(String, Json)>, over: Option<Seq<(String, Json)>>) -> Seq<
    (String, Json),
> {
    match over {
        Some(o) => merge_spec(base, o),
        None => base,
    }
}

pub open spec fn opt_strip(o: Option<Seq<(String, Json)>>) -> Option<Seq<(String, Json)>> {
    match o {
        Some(x) => Some(strip_nulls_spec(x)),
        None => None,
    }
}

/// The layered merge before the recursive expansion: defaults ← document ←
/// overrides without nulls.
pub open spec fn layered(
    defaults: Seq<(String, Json)>,
    document: Option<Seq<(String, Json)>>,
    overrides: Option<Seq<(String, Json)>>,
) -> Seq<(String, Json)> {
    opt_merge(opt_merge(defaults, document), opt_strip(overrides))
}

pub open spec fn obj_view(o: Option<JsonObject>) -> Option<Seq<(String, Json)>> {
    match o {
        Some(x) => Some(x@),
        None => None,
    }
}

/// What the merged configuration is: the members of the layered merge `m`
/// in their order, with `recursive` turned off after a true one appended the
/// patterns to an array `files`, and the strings of `files` de-duplicated.
pub open spec fn merged_config(r: Seq<(String, Json)>, m: Seq<(String, Json)>, globs: Seq<String>) -> bool {
    let rec = obj_get(m, "recursive"@) == Some(Json::Bool(true));
    &&& r.len() == m.len()
    &&& forall|i: int| 0 <= i < r.len() ==> (#[trigger] r[i]).0@ == m[i].0@
    &&& forall|k: Seq<char>|
        k != "files"@ && k != "recursive"@ ==> #[trigger] obj_get(r, k) == obj_get(m, k)
    &&& obj_get(r, "recursive"@) == if rec {
        Some(Json::Bool(false))
    } else {
        obj_get(m, "recursive"@)
    }
    &&& match obj_get(m, "files"@) {
        Some(Json::Array(a)) => array_is(
            obj_get(r, "files"@),
            dedup_strings(
                if rec {
                    a@ + str_items(globs)
                } else {
                    a@
                },
            ),
        ),
        other => obj_get(r, "files"@) == other,
    }
}


fn layered_exec(overrides: Option<JsonObject>, document: Option<JsonObject>) -> (r: JsonObject)
    ensures
        exists|d: Seq<(String, Json)>|
            is_defaults(d) && r@ == layered(d, obj_view(document), obj_view(overrides)),
        key_index(r@, "files"@) >= 0,
        key_index(r@, "recursive"@) >= 0,
{
    let mut merged = bump_config_defaults();
    let ghost d = merged@;
    if let Some(document) = document {
        merge(&mut merged, document);
    }
    if let Some(overrides) = overrides {
        let stripped = strip_nulls(overrides);
        merge(&mut merged, stripped);
    }
    proof {
        lemma_key_index_from(d, "files"@, 0);
        lemma_key_index_from(d, "recursive"@, 0);
        assert(d[11].0@ == "files"@);
        assert(d[5].0@ == "recursive"@);
        lemma_merge_keeps(d, obj_view(document), obj_view(overrides), "files"@);
        lemma_merge_keeps(d, obj_view(document), obj_view(overrides), "recursive"@);
    }
    merged
}

fn expanded_files(fval: Json, rec: bool, recursive_globs: Vec<String>) -> (r: Json)
    ensures
        match fval {
            Json::Array(a) => (r matches Json::Array(b) && b@ == dedup_strings(
                if rec {
                    a@ + str_items(recursive_globs@)
                } else {
                    a@
                },
            )),
            _ => r == fval,
        },
{
    match fval {
        Json::Array(items) => {
            let ghost a = items@;
            let mut items = items;
            if rec {
                let mut g = recursive_globs;
                let ghost gs = g@;
                let mut extra: Vec<Json> = Vec::new();
                let mut n: usize = 0;
                assert(g@ =~= gs.subrange(0, gs.len() as int));
                let total = g.len();
                while g.len() > 0
                    invariant
                        total == gs.len(),
                        n + g@.len() == gs.len(),
                        g@ == gs.subrange(n as int, gs.len() as int),
                        extra@ == str_items(gs.subrange(0, n as int)),
                    decreases g.len(),
                {
                    let x = g.remove(0);
                    proof {
                        assert(gs[n as int] == x);
                    }
                    extra.push(Json::Str(x));
                    n = n + 1;
                    proof {
                        assert(g@ =~= gs.subrange(n as int, gs.len() as int));
                        assert(extra@ =~= str_items(gs.subrange(0, n as int)));
                    }
                }
                assert(gs.subrange(0, gs.len() as int) =~= gs);
                items.append(&mut extra);
                assert(items@ =~= a + str_items(gs));
            }
            Json::Array(dedup_string_items(items))
        },
        other => other,
    }
}

fn expand_and_dedup(m: JsonObject, recursive_globs: Vec<String>) -> (r: JsonObject)
    requires
        key_index(m@, "files"@) >= 0,
        key_index(m@, "recursive"@) >= 0,
    ensures
        merged_config(r@, m@, recursive_globs@),
{
    let ghost mv = m@;
    let rec = match get_member(&m, "recursive") {
        Some(Json::Bool(b)) => *b,
        _ => false,
    };
    assert(rec == (obj_get(mv, "recursive"@) == Some(Json::Bool(true))));
    let fi = find_key(&m, "files").unwrap();
    let ri = find_key(&m, "recursive").unwrap();
    let mut e = m;
    let (fname, fval) = e.remove(fi);
    assert(fval == mv[fi as int].1 && fname == mv[fi as int].0);
    let new_files = expanded_files(fval, rec, recursive_globs);
    e.insert(fi, (fname, new_files));
    let ghost e1 = e@;
    assert(e1 =~= mv.update(fi as int, (mv[fi as int].0, new_files)));
    if rec {
        let (rname, _) = e.remove(ri);
        e.insert(ri, (rname, Json::Bool(false)));
        assert(e@ =~= e1.update(ri as int, (e1[ri as int].0, Json::Bool(false))));
    }
    proof {
        let r = e@;
        lemma_key_index_from(mv, "files"@, 0);
        lemma_key_index_from(mv, "recursive"@, 0);
        reveal_strlit("files");
        reveal_strlit("recursive");
        assert(mv[fi as int].0@ == "files"@);
        assert(mv[ri as int].0@ == "recursive"@);
        assert("files"@ != "recursive"@) by {
            assert("files"@.len() != "recursive"@.len());
        }
        assert(fi != ri);
        assert(r[fi as int].1 == new_files);
        assert(rec ==> r[ri as int].1 == Json::Bool(false));
        assert(!rec ==> r[ri as int] == mv[ri as int]);
        lemma_key_index_from(mv, "files"@, 0);
        lemma_key_index_from(mv, "recursive"@, 0);
        assert(r.len() == mv.len());
        assert forall|i: int| 0 <= i < r.len() implies (#[trigger] r[i]).0@ == mv[i].0@ by {}
        assert forall|k: Seq<char>| k != "files"@ && k != "recursive"@ implies #[trigger] obj_get(r, k)
            == obj_get(mv, k) by {
            lemma_same_keys_get(r, mv, k, fi as int, ri as int);
        }
        lemma_same_keys_index(r, mv, "files"@);
        lemma_same_keys_index(r, mv, "recursive"@);
    }
    e
}

/// Merges the configuration: defaults ← `document` ← `overrides` (nulls
/// dropped), then the recursive expansion with `recursive_globs` and the
/// de-duplication of `files` (see `merged_config`).
pub fn merge_bump_config(
    overrides: Option<JsonObject>,
    document: Option<JsonObject>,
    recursive_globs: Vec<String>,
) -> (r: JsonObject)
    ensures
        exists|d: Seq<(String, Json)>|
            is_defaults(d) && merged_config(
                r@,
                layered(d, obj_view(document), obj_view(overrides)),
                recursive_globs@,
            ),
{
    let m = layered_exec(overrides, document);
    expand_and_dedup(m, recursive_globs)
}

proof fn lemma_same_keys_index(r: Seq<(String, Json)>, m: Seq<(String, Json)>, k: Seq<char>)
    requires
        r.len() == m.len(),
        forall|i: int| 0 <= i < r.len() ==> (#[trigger] r[i]).0@ == m[i].0@,
    ensures
        key_index(r, k) == key_index(m, k),
{
    lemma_key_index_from(r, k, 0);
    lemma_key_index_from(m, k, 0);
    let a = key_index(r, k);
    let b = key_index(m, k);
    if a >= 0 && b >= 0 {
        if a < b {
            assert(m[a].0@ == k);
        } else if b < a {
            assert(r[b].0@ == k);
        }
    } else if a >= 0 {
        assert(m[a].0@ == k);
    } else if b >= 0 {
        assert(r[b].0@ == k);
    }
}

proof fn lemma_same_keys_get(r: Seq<(String, Json)>, m: Seq<(String, Json)>, k: Seq<char>, fi: int, ri: int)
    requires
        r.len() == m.len(),
        forall|i: int| 0 <= i < r.len() ==> (#[trigger] r[i]).0@ == m[i].0@,
        forall|i: int| 0 <= i < r.len() && i != fi && i != ri ==> #[trigger] r[i] == m[i],
        0 <= fi < m.len() && m[fi].0@ == "files"@,
        0 <= ri < m.len() && m[ri].0@ == "recursive"@,
        k != "files"@,
        k != "recursive"@,
    ensures
        obj_get(r, k) == obj_get(m, k),
{
    lemma_same_keys_index(r, m, k);
    lemma_key_index_from(m, k, 0);
}

proof fn lemma_merge_keeps(
    d: Seq<(String, Json)>,
    document: Option<Seq<(String, Json)>>,
    overrides: Option<Seq<(String, Json)>>,
    k: Seq<char>,
)
    requires
        key_index(d, k) >= 0,
    ensures
        key_index(layered(d, document, overrides), k) >= 0,
{
    match document {
        Some(doc) => lemma_merge_keeps_one(d, doc, k),
        None => {},
    }
    match opt_strip(overrides) {
        Some(o) => lemma_merge_keeps_one(opt_merge(d, document), o, k),
        None => {},
    }
}

proof fn lemma_merge_keeps_one(b: Seq<(String, Json)>, o: Seq<(String, Json)>, k: Seq<char>)
    requires
        key_index(b, k) >= 0,
    ensures
        key_index(merge_spec(b, o), k) >= 0,
    decreases o.len(),
{
    if o.len() > 0 {
        lemma_merge_keeps_one(b, o.drop_last(), k);
        lemma_obj_set_get(merge_spec(b, o.drop_last()), o.last().0, o.last().1, k);
    }
}


proof fn lemma_key_index_push(s: Seq<(String, Json)>, k: Seq<char>)
    requires
        s.len() > 0,
    ensures
        key_index(s, k) == if key_index(s.drop_last(), k) >= 0 {
            key_index(s.drop_last(), k)
        } else if s.last().0@ == k {
            s.len() - 1
        } else {
            -1
        },
{
    let p = s.drop_last();
    lemma_key_index_from(s, k, 0);
    lemma_key_index_from(p, k, 0);
    let a = key_index(s, k);
    let b = key_index(p, k);
    if b >= 0 {
        assert(s[b] == p[b]);
        if a >= 0 && a < b {
            assert(p[a] == s[a]);
        }
    } else {
        if a >= 0 && a < s.len() - 1 {
            assert(p[a] == s[a]);
        }
        if s.last().0@ == k {
            assert(s[s.len() - 1].0@ == k);
        }
    }
}

proof fn lemma_unique_get(s: Seq<(String, Json)>, k: Seq<char>)
    requires
        unique_keys(s),
    ensures
        obj_get(s, k) == last_value(s, k),
    decreases s.len(),
{
    if s.len() > 0 {
        let p = s.drop_last();
        assert(unique_keys(p));
        lemma_unique_get(p, k);
        lemma_key_index_push(s, k);
        lemma_key_index_from(p, k, 0);
        if s.last().0@ == k && key_index(p, k) >= 0 {
            let i = key_index(p, k);
            assert(s[i] == p[i]);
            assert(s[s.len() - 1].0@ == k);
        }
        if key_index(p, k) >= 0 {
            assert(s[key_index(p, k)] == p[key_index(p, k)]);
        }
    }
}

pub open spec fn opt_get(o: Option<Seq<(String, Json)>>, k: Seq<char>) -> Option<Json> {
    match o {
        Some(x) => obj_get(x, k),
        None => None,
    }
}

/// Precedence of the merged configuration: for any key other than `files`
/// and `recursive`, a non-null override wins, else the configuration files'
/// value, else the built-in default.
pub proof fn law_config_precedence(
    r: Seq<(String, Json)>,
    d: Seq<(String, Json)>,
    document: Option<Seq<(String, Json)>>,
    overrides: Option<Seq<(String, Json)>>,
    globs: Seq<String>,
    k: Seq<char>,
)
    requires
        is_defaults(d),
        document is Some ==> unique_keys(document->0),
        overrides is Some ==> unique_keys(overrides->0),
        merged_config(r, layered(d, document, overrides), globs),
        k != "files"@,
        k != "recursive"@,
    ensures
        obj_get(r, k) == match opt_get(overrides, k) {
            Some(v) => if v is Null {
                match opt_get(document, k) {
                    Some(w) => Some(w),
                    None => obj_get(d, k),
                }
            } else {
                Some(v)
            },
            None => match opt_get(document, k) {
                Some(w) => Some(w),
                None => obj_get(d, k),
            },
        },
{
    let m1 = opt_merge(d, document);
    assert(obj_get(r, k) == obj_get(layered(d, document, overrides), k));
    match document {
        Some(doc) => {
            lemma_merge_get(d, doc, k);
            lemma_unique_get(doc, k);
        },
        None => {},
    }
    match overrides {
        Some(o) => {
            lemma_merge_get(m1, strip_nulls_spec(o), k);
            lemma_unique_get(o, k);
            lemma_strip_last(o, k);
        },
        None => {},
    }
}


proof fn lemma_unique_set(s: Seq<(String, Json)>, k2: String, v: Json)
    requires
        unique_keys(s),
    ensures
        unique_keys(obj_set(s, k2, v)),
{
    lemma_key_index_from(s, k2@, 0);
    let t = obj_set(s, k2, v);
    let i = key_index(s, k2@);
    if i < 0 {
        assert forall|a: int, b: int| 0 <= a < b < t.len() implies #[trigger] t[a].0@ != #[trigger] t[b].0@ by {
            if b == s.len() {
                assert(t[a] == s[a]);
            } else {
                assert(t[a] == s[a] && t[b] == s[b]);
            }
        }
    } else {
        assert forall|a: int, b: int| 0 <= a < b < t.len() implies #[trigger] t[a].0@ != #[trigger] t[b].0@ by {
            assert(t[a].0 == s[a].0 && t[b].0 == s[b].0);
        }
    }
}

proof fn lemma_remove_get(s: Seq<(String, Json)>, k2: Seq<char>, k: Seq<char>)
    requires
        unique_keys(s),
    ensures
        obj_get(crate::json::obj_remove(s, k2), k) == if k2 == k {
            None
        } else {
            obj_get(s, k)
        },
        unique_keys(crate::json::obj_remove(s, k2)),
{
    lemma_key_index_from(s, k2, 0);
    lemma_key_index_from(s, k, 0);
    let t = crate::json::obj_remove(s, k2);
    lemma_key_index_from(t, k, 0);
    let i = key_index(s, k2);
    if i >= 0 {
        assert(t == s.remove(i));
        assert forall|a: int, b: int| 0 <= a < b < t.len() implies #[trigger] t[a].0@ != #[trigger] t[b].0@ by {
            let a2 = if a < i { a } else { a + 1 };
            let b2 = if b < i { b } else { b + 1 };
            assert(t[a] == s[a2] && t[b] == s[b2]);
        }
        let j = key_index(s, k);
        let jt = key_index(t, k);
        if k2 == k {
            if jt >= 0 {
                let j2 = if jt < i { jt } else { jt + 1 };
                assert(t[jt] == s[j2]);
                assert(s[i].0@ == k);
            }
        } else {
            if j >= 0 {
                assert(j != i);
                let jj = if j < i { j } else { j - 1 };
                assert(t[jj] == s[j]);
                assert forall|x: int| 0 <= x < jj implies t[x].0@ != k by {
                    let x2 = if x < i { x } else { x + 1 };
                    assert(t[x] == s[x2]);
                    if x2 < j {
                    } else {
                        assert(x2 != j);
                    }
                }
                assert(jt == jj);
            } else {
                if jt >= 0 {
                    let j2 = if jt < i { jt } else { jt + 1 };
                    assert(t[jt] == s[j2]);
                }
            }
        }
    }
}

/// Per-key meaning of a layer merge of unique-keyed objects: a member of
/// `over` replaces the one of `base`.
pub open spec fn over_else_base(over: Seq<(String, Json)>, base: Seq<(String, Json)>, k: Seq<char>) -> Option<Json> {
    match obj_get(over, k) {
        Some(v) => Some(v),
        None => obj_get(base, k),
    }
}

/// The types table after merging `ot` onto `bt`: `false` removes a type,
/// any other value replaces or adds it.
pub open spec fn types_merged(t: Seq<(String, Json)>, bt: Seq<(String, Json)>, ot: Seq<(String, Json)>) -> bool {
    forall|name: Seq<char>| #[trigger] obj_get(t, name) == match obj_get(ot, name) {
        Some(Json::Bool(false)) => None,
        Some(v) => Some(v),
        None => obj_get(bt, name),
    }
}

/// The changelog section after merging `os` onto `bs`: `types` merged key by
/// key when both are objects, every other member replaced whole.
pub open spec fn section_merged(c: Seq<(String, Json)>, bs: Seq<(String, Json)>, os: Seq<(String, Json)>) -> bool {
    &&& forall|k: Seq<char>| k != "types"@ ==> #[trigger] obj_get(c, k) == over_else_base(os, bs, k)
    &&& match (obj_get(bs, "types"@), obj_get(os, "types"@)) {
        (Some(Json::Object(bt)), Some(Json::Object(ot))) => match obj_get(c, "types"@) {
            Some(Json::Object(t)) => types_merged(t@, bt@, ot@),
            _ => false,
        },
        _ => obj_get(c, "types"@) == over_else_base(os, bs, "types"@),
    }
}

fn merge_types(bt: Vec<(String, Json)>, ot: Vec<(String, Json)>) -> (t: Vec<(String, Json)>)
    ensures
        unique_keys(bt@) && unique_keys(ot@) ==> unique_keys(t@) && types_merged(t@, bt@, ot@),
{
    let ghost b = bt@;
    let ghost o = ot@;
    let mut t = bt;
    let mut ot = ot;
    let mut n: usize = 0;
    let total = ot.len();
    assert(ot@ =~= o.subrange(0, o.len() as int));
    while ot.len() > 0
        invariant
            total == o.len(),
            n + ot@.len() == o.len(),
            ot@ == o.subrange(n as int, o.len() as int),
            unique_keys(b) && unique_keys(o) ==> unique_keys(t@) && forall|name: Seq<char>|
                #[trigger] obj_get(t@, name) == match obj_get(o.subrange(0, n as int), name) {
                    Some(Json::Bool(false)) => None,
                    Some(v) => Some(v),
                    None => obj_get(b, name),
                },
        decreases ot.len(),
    {
        let (name, entry) = ot.remove(0);
        let ghost before = t@;
        proof {
            assert(o[n as int] == (name, entry));
        }
        let disable = match entry {
            Json::Bool(false) => true,
            _ => false,
        };
        if disable {
            crate::json::remove_member(&mut t, name.as_str());
        } else {
            set_member(&mut t, name, entry);
        }
        proof {
            if unique_keys(b) && unique_keys(o) {
                let p = o.subrange(0, n + 1);
                assert(unique_keys(p));
                assert(unique_keys(o.subrange(0, n as int)));
                assert(p.drop_last() =~= o.subrange(0, n as int));
                assert(p.last() == o[n as int]);
                assert forall|nm: Seq<char>| #[trigger] obj_get(t@, nm) == match obj_get(p, nm) {
                    Some(Json::Bool(false)) => None,
                    Some(v) => Some(v),
                    None => obj_get(b, nm),
                } by {
                    lemma_unique_get(p, nm);
                    lemma_unique_get(o.subrange(0, n as int), nm);
                    if disable {
                        lemma_remove_get(before, name@, nm);
                    } else {
                        lemma_obj_set_get(before, name, entry, nm);
                    }
                }
                if disable {
                    lemma_remove_get(before, name@, name@);
                } else {
                    lemma_unique_set(before, name, entry);
                }
            }
        }
        n = n + 1;
        proof {
            assert(ot@ =~= o.subrange(n as int, o.len() as int));
        }
    }
    assert(o.subrange(0, o.len() as int) =~= o);
    t
}


/// A changelog section whose members, and `types` members, have distinct names.
pub open spec fn wf_section(s: Seq<(String, Json)>) -> bool {
    &&& unique_keys(s)
    &&& match obj_get(s, "types"@) {
        Some(Json::Object(t)) => unique_keys(t@),
        _ => true,
    }
}

/// A configuration document whose objects have distinct member names.
pub open spec fn wf_document(s: Seq<(String, Json)>) -> bool {
    &&& unique_keys(s)
    &&& match obj_get(s, "changelog"@) {
        Some(Json::Object(c)) => wf_section(c@),
        _ => true,
    }
}

fn take_member(m: &mut Vec<(String, Json)>, i: usize) -> (r: Json)
    requires
        i < old(m)@.len(),
    ensures
        r == old(m)@[i as int].1,
        final(m)@ == old(m)@.update(i as int, (old(m)@[i as int].0, Json::Null)),
{
    let (k, v) = m.remove(i);
    m.insert(i, (k, Json::Null));
    assert(m@ =~= old(m)@.update(i as int, (old(m)@[i as int].0, Json::Null)));
    v
}

proof fn lemma_update_other(s: Seq<(String, Json)>, i: int, v: Json, k: Seq<char>)
    requires
        0 <= i < s.len(),
        s[i].0@ != k,
    ensures
        obj_get(s.update(i, (s[i].0, v)), k) == obj_get(s, k),
        key_index(s.update(i, (s[i].0, v)), k) == key_index(s, k),
{
    let t = s.update(i, (s[i].0, v));
    assert forall|x: int| 0 <= x < t.len() implies (#[trigger] t[x]).0@ == s[x].0@ by {}
    lemma_same_keys_index(t, s, k);
    lemma_key_index_from(s, k, 0);
}

proof fn lemma_unique_update(s: Seq<(String, Json)>, i: int, v: Json)
    requires
        0 <= i < s.len(),
        unique_keys(s),
    ensures
        unique_keys(s.update(i, (s[i].0, v))),
{
    let t = s.update(i, (s[i].0, v));
    assert forall|a: int, c: int| 0 <= a < c < t.len() implies #[trigger] t[a].0@ != #[trigger] t[c].0@ by {
        assert(t[a].0 == s[a].0 && t[c].0 == s[c].0);
    }
}

/// One member of `over` merged into the section: the invariant carries over.
proof fn lemma_section_step(
    before: Seq<(String, Json)>,
    after: Seq<(String, Json)>,
    b: Seq<(String, Json)>,
    o: Seq<(String, Json)>,
    n: int,
    both: bool,
    t: Seq<(String, Json)>,
)
    requires
        0 <= n < o.len(),
        wf_section(b),
        wf_section(o),
        wf_section(before),
        section_merged(before, b, o.subrange(0, n)),
        both ==> (o[n].0@ == "types"@ && obj_get(before, "types"@) is Some && obj_get(
            before,
            "types"@,
        )->0 is Object && o[n].1 is Object && unique_keys(t) && types_merged(
            t,
            obj_get(before, "types"@)->0->Object_0@,
            o[n].1->Object_0@,
        )),
        both ==> (exists|tv: Vec<(String, Json)>|
            tv@ == t && after == obj_set(
                before.update(
                    key_index(before, "types"@),
                    (before[key_index(before, "types"@)].0, Json::Null),
                ),
                o[n].0,
                Json::Object(tv),
            )),
        !both ==> after == obj_set(before, o[n].0, o[n].1),
        !both ==> !(o[n].0@ == "types"@ && obj_get(before, "types"@) is Some && obj_get(
            before,
            "types"@,
        )->0 is Object && o[n].1 is Object),
    ensures
        wf_section(after),
        section_merged(after, b, o.subrange(0, n + 1)),
{
    let pre = o.subrange(0, n);
    let p = o.subrange(0, n + 1);
    let key = o[n].0;
    let value = o[n].1;
    assert(p.drop_last() =~= pre);
    assert(p.last() == (key, value));
    assert(unique_keys(p));
    assert(unique_keys(pre));
    lemma_key_index_from(before, "types"@, 0);
    lemma_key_index_from(o, key@, 0);
    assert forall|k: Seq<char>| #[trigger] obj_get(p, k) == if key@ == k {
        Some(value)
    } else {
        obj_get(pre, k)
    } by {
        lemma_unique_get(p, k);
        lemma_unique_get(pre, k);
    }
    if both {
        let i = key_index(before, "types"@);
        let mid = before.update(i, (before[i].0, Json::Null));
        let tv = choose|tv: Vec<(String, Json)>|
            tv@ == t && after == obj_set(mid, key, Json::Object(tv));
        lemma_unique_update(before, i, Json::Null);
        lemma_unique_set(mid, key, Json::Object(tv));
        assert forall|k: Seq<char>| k != "types"@ implies #[trigger] obj_get(after, k)
            == over_else_base(p, b, k) by {
            lemma_update_other(before, i, Json::Null, k);
            lemma_obj_set_get(mid, key, Json::Object(tv), k);
        }
        lemma_obj_set_get(mid, key, Json::Object(tv), "types"@);
        assert(obj_get(pre, "types"@) is None) by {
            lemma_unique_get(pre, "types"@);
            assert forall|x: int| 0 <= x < pre.len() implies pre[x].0@ != "types"@ by {
                assert(o[x] == pre[x]);
            }
            lemma_last_value_absent(pre, "types"@);
        }
        assert(obj_get(before, "types"@) == obj_get(b, "types"@));
    } else {
        lemma_unique_set(before, key, value);
        assert forall|k: Seq<char>| k != "types"@ implies #[trigger] obj_get(after, k)
            == over_else_base(p, b, k) by {
            lemma_obj_set_get(before, key, value, k);
        }
        lemma_obj_set_get(before, key, value, "types"@);
        if key@ == "types"@ {
            assert(obj_get(o, "types"@) == Some(value)) by {
                lemma_unique_get(o, "types"@);
                lemma_unique_get(p, "types"@);
                assert forall|x: int| n < x < o.len() implies o[x].0@ != "types"@ by {
                    assert(o[n].0@ == "types"@);
                }
                lemma_last_value_suffix(o, n, "types"@);
            }
            assert(obj_get(pre, "types"@) is None) by {
                assert forall|x: int| 0 <= x < pre.len() implies pre[x].0@ != "types"@ by {
                    assert(o[x] == pre[x]);
                }
                lemma_last_value_absent(pre, "types"@);
                lemma_unique_get(pre, "types"@);
            }
            assert(obj_get(before, "types"@) == obj_get(b, "types"@));
        }
    }
}

proof fn lemma_unique_at(o: Seq<(String, Json)>, n: int)
    requires
        0 <= n < o.len(),
        unique_keys(o),
    ensures
        obj_get(o, o[n].0@) == Some(o[n].1),
{
    lemma_unique_get(o, o[n].0@);
    assert forall|x: int| n < x < o.len() implies o[x].0@ != o[n].0@ by {}
    lemma_last_value_suffix(o, n, o[n].0@);
}

proof fn lemma_last_value_suffix(o: Seq<(String, Json)>, n: int, k: Seq<char>)
    requires
        0 <= n < o.len(),
        o[n].0@ == k,
        forall|x: int| n < x < o.len() ==> o[x].0@ != k,
    ensures
        last_value(o, k) == Some(o[n].1),
    decreases o.len(),
{
    if o.len() - 1 > n {
        let p = o.drop_last();
        assert forall|x: int| n < x < p.len() implies p[x].0@ != k by {
            assert(p[x] == o[x]);
        }
        assert(p[n] == o[n]);
        lemma_last_value_suffix(p, n, k);
        assert(o[o.len() - 1].0@ != k);
    }
}

/// Merges the changelog section `over` onto `base` (see `section_merged`).
pub fn merge_changelog_sections(base: JsonObject, over: JsonObject) -> (r: JsonObject)
    ensures
        wf_section(base@) && wf_section(over@) ==> wf_section(r@) && section_merged(r@, base@, over@),
{
    let ghost b = base@;
    let ghost o = over@;
    let mut merged = base;
    let mut over = over;
    let mut n: usize = 0;
    let total = over.len();
    assert(over@ =~= o.subrange(0, o.len() as int));
    proof {
        if wf_section(b) {
            assert(o.subrange(0, 0) =~= Seq::<(String, Json)>::empty());
            assert forall|k: Seq<char>| k != "types"@ implies #[trigger] obj_get(b, k)
                == over_else_base(o.subrange(0, 0), b, k) by {
                lemma_key_index_from(o.subrange(0, 0), k, 0);
            }
            lemma_key_index_from(o.subrange(0, 0), "types"@, 0);
        }
    }
    while over.len() > 0
        invariant
            total == o.len(),
            n + over@.len() == o.len(),
            over@ == o.subrange(n as int, o.len() as int),
            wf_section(b) && wf_section(o) ==> wf_section(merged@) && section_merged(
                merged@,
                b,
                o.subrange(0, n as int),
            ),
        decreases over.len(),
    {
        let (key, value) = over.remove(0);
        let ghost before = merged@;
        proof {
            assert(o[n as int] == (key, value));
        }
        let is_types = str_eq(key.as_str(), "types");
        let both = is_types && match (get_member(&merged, "types"), &value) {
            (Some(Json::Object(_)), Json::Object(_)) => true,
            _ => false,
        };
        let ghost mut tg: Seq<(String, Json)> = Seq::empty();
        if both {
            let i = find_key(&merged, "types").unwrap();
            let bt = match take_member(&mut merged, i) {
                Json::Object(bt) => bt,
                _ => Vec::new(),
            };
            let ot = match value {
                Json::Object(ot) => ot,
                _ => Vec::new(),
            };
            let ghost bv = bt@;
            let ghost ov = ot@;
            proof {
                lemma_key_index_from(before, "types"@, 0);
                assert(obj_get(before, "types"@) is Some && obj_get(before, "types"@)->0 is Object);
                assert(bv == obj_get(before, "types"@)->0->Object_0@);
                assert(ov == value->Object_0@);
                if wf_section(b) && wf_section(o) {
                    lemma_unique_at(o, n as int);
                }
            }
            let t = merge_types(bt, ot);
            proof {
                tg = t@;
            }
            set_member(&mut merged, key, Json::Object(t));
        } else {
            set_member(&mut merged, key, value);
        }
        proof {
            if wf_section(b) && wf_section(o) {
                lemma_section_step(before, merged@, b, o, n as int, both, tg);
            }
        }
        n = n + 1;
        proof {
            assert(over@ =~= o.subrange(n as int, o.len() as int));
        }
    }
    assert(o.subrange(0, o.len() as int) =~= o);
    merged
}


/// The document after merging `over` (project) onto `base` (global):
/// `changelog` merged as a section when both are objects, every other
/// member replaced whole.
pub open spec fn documents_merged(r: Seq<(String, Json)>, base: Seq<(String, Json)>, over: Seq<(String, Json)>) -> bool {
    &&& forall|k: Seq<char>| k != "changelog"@ ==> #[trigger] obj_get(r, k) == over_else_base(over, base, k)
    &&& if obj_get(base, "changelog"@) is Some && obj_get(base, "changelog"@)->0 is Object
        && obj_get(over, "changelog"@) is Some && obj_get(over, "changelog"@)->0 is Object {
        obj_get(r, "changelog"@) is Some && obj_get(r, "changelog"@)->0 is Object && section_merged(
            obj_get(r, "changelog"@)->0->Object_0@,
            obj_get(base, "changelog"@)->0->Object_0@,
            obj_get(over, "changelog"@)->0->Object_0@,
        )
    } else {
        obj_get(r, "changelog"@) == over_else_base(over, base, "changelog"@)
    }
}

proof fn lemma_document_step(
    before: Seq<(String, Json)>,
    after: Seq<(String, Json)>,
    b: Seq<(String, Json)>,
    o: Seq<(String, Json)>,
    n: int,
    both: bool,
    c: Seq<(String, Json)>,
)
    requires
        0 <= n < o.len(),
        wf_document(b),
        wf_document(o),
        wf_document(before),
        documents_merged(before, b, o.subrange(0, n)),
        both ==> (o[n].0@ == "changelog"@ && obj_get(before, "changelog"@) is Some && obj_get(
            before,
            "changelog"@,
        )->0 is Object && o[n].1 is Object && wf_section(c) && section_merged(
            c,
            obj_get(before, "changelog"@)->0->Object_0@,
            o[n].1->Object_0@,
        )),
        both ==> (exists|cv: Vec<(String, Json)>|
            cv@ == c && after == obj_set(
                before.update(
                    key_index(before, "changelog"@),
                    (before[key_index(before, "changelog"@)].0, Json::Null),
                ),
                o[n].0,
                Json::Object(cv),
            )),
        !both ==> after == obj_set(before, o[n].0, o[n].1),
        !both ==> !(o[n].0@ == "changelog"@ && obj_get(before, "changelog"@) is Some && obj_get(
            before,
            "changelog"@,
        )->0 is Object && o[n].1 is Object),
    ensures
        wf_document(after),
        documents_merged(after, b, o.subrange(0, n + 1)),
{
    let pre = o.subrange(0, n);
    let p = o.subrange(0, n + 1);
    let key = o[n].0;
    let value = o[n].1;
    assert(p.drop_last() =~= pre);
    assert(p.last() == (key, value));
    assert(unique_keys(p));
    assert(unique_keys(pre));
    lemma_key_index_from(before, "changelog"@, 0);
    assert forall|k: Seq<char>| #[trigger] obj_get(p, k) == if key@ == k {
        Some(value)
    } else {
        obj_get(pre, k)
    } by {
        lemma_unique_get(p, k);
        lemma_unique_get(pre, k);
    }
    if key@ == "changelog"@ {
        assert(obj_get(pre, "changelog"@) is None) by {
            assert forall|x: int| 0 <= x < pre.len() implies pre[x].0@ != "changelog"@ by {
                assert(o[x] == pre[x]);
            }
            lemma_last_value_absent(pre, "changelog"@);
            lemma_unique_get(pre, "changelog"@);
        }
        assert(obj_get(before, "changelog"@) == obj_get(b, "changelog"@));
        lemma_unique_at(o, n);
    }
    if both {
        let i = key_index(before, "changelog"@);
        let mid = before.update(i, (before[i].0, Json::Null));
        let cv = choose|cv: Vec<(String, Json)>|
            cv@ == c && after == obj_set(mid, key, Json::Object(cv));
        lemma_unique_update(before, i, Json::Null);
        lemma_unique_set(mid, key, Json::Object(cv));
        assert forall|k: Seq<char>| k != "changelog"@ implies #[trigger] obj_get(after, k)
            == over_else_base(p, b, k) by {
            lemma_update_other(before, i, Json::Null, k);
            lemma_obj_set_get(mid, key, Json::Object(cv), k);
        }
        lemma_obj_set_get(mid, key, Json::Object(cv), "changelog"@);
    } else {
        lemma_unique_set(before, key, value);
        assert forall|k: Seq<char>| k != "changelog"@ implies #[trigger] obj_get(after, k)
            == over_else_base(p, b, k) by {
            lemma_obj_set_get(before, key, value, k);
        }
        lemma_obj_set_get(before, key, value, "changelog"@);
    }
}

/// Merges the project document `over` onto the global document `base` (see
/// `documents_merged`).
pub fn merge_config_documents(base: JsonObject, over: JsonObject) -> (r: JsonObject)
    ensures
        wf_document(base@) && wf_document(over@) ==> wf_document(r@) && documents_merged(
            r@,
            base@,
            over@,
        ),
{
    let ghost b = base@;
    let ghost o = over@;
    let mut merged = base;
    let mut over = over;
    let mut n: usize = 0;
    let total = over.len();
    assert(over@ =~= o.subrange(0, o.len() as int));
    proof {
        if wf_document(b) {
            assert forall|k: Seq<char>| k != "changelog"@ implies #[trigger] obj_get(b, k)
                == over_else_base(o.subrange(0, 0), b, k) by {
                lemma_key_index_from(o.subrange(0, 0), k, 0);
            }
            lemma_key_index_from(o.subrange(0, 0), "changelog"@, 0);
        }
    }
    while over.len() > 0
        invariant
            total == o.len(),
            n + over@.len() == o.len(),
            over@ == o.subrange(n as int, o.len() as int),
            wf_document(b) && wf_document(o) ==> wf_document(merged@) && documents_merged(
                merged@,
                b,
                o.subrange(0, n as int),
            ),
        decreases over.len(),
    {
        let (key, value) = over.remove(0);
        let ghost before = merged@;
        proof {
            assert(o[n as int] == (key, value));
        }
        let is_cl = str_eq(key.as_str(), "changelog");
        let both = is_cl && match (get_member(&merged, "changelog"), &value) {
            (Some(Json::Object(_)), Json::Object(_)) => true,
            _ => false,
        };
        let ghost mut cg: Seq<(String, Json)> = Seq::empty();
        if both {
            let i = find_key(&merged, "changelog").unwrap();
            let bs = match take_member(&mut merged, i) {
                Json::Object(bs) => bs,
                _ => Vec::new(),
            };
            let os = match value {
                Json::Object(os) => os,
                _ => Vec::new(),
            };
            proof {
                lemma_key_index_from(before, "changelog"@, 0);
                if wf_document(b) && wf_document(o) {
                    lemma_unique_at(o, n as int);
                }
            }
            let c = merge_changelog_sections(bs, os);
            proof {
                cg = c@;
            }
            set_member(&mut merged, key, Json::Object(c));
        } else {
            set_member(&mut merged, key, value);
        }
        proof {
            if wf_document(b) && wf_document(o) {
                lemma_document_step(before, merged@, b, o, n as int, both, cg);
            }
        }
        n = n + 1;
        proof {
            assert(over@ =~= o.subrange(n as int, o.len() as int));
        }
    }
    assert(o.subrange(0, o.len() as int) =~= o);
    merged
}

/// The four layers of the configuration: for a top-level key other than
/// `files`, `recursive` and `changelog`, a non-null override wins, else the
/// project file's value, else the global file's, else the built-in default.
pub proof fn law_four_layer_precedence(
    r: Seq<(String, Json)>,
    d: Seq<(String, Json)>,
    global: Seq<(String, Json)>,
    project: Seq<(String, Json)>,
    document: Seq<(String, Json)>,
    overrides: Option<Seq<(String, Json)>>,
    globs: Seq<String>,
    k: Seq<char>,
)
    requires
        is_defaults(d),
        wf_document(document),
        documents_merged(document, global, project),
        overrides is Some ==> unique_keys(overrides->0),
        merged_config(r, layered(d, Some(document), overrides), globs),
        k != "files"@,
        k != "recursive"@,
        k != "changelog"@,
    ensures
        obj_get(r, k) == match opt_get(overrides, k) {
            Some(v) => if v is Null {
                match obj_get(project, k) {
                    Some(w) => Some(w),
                    None => match obj_get(global, k) {
                        Some(w) => Some(w),
                        None => obj_get(d, k),
                    },
                }
            } else {
                Some(v)
            },
            None => match obj_get(project, k) {
                Some(w) => Some(w),
                None => match obj_get(global, k) {
                    Some(w) => Some(w),
                    None => obj_get(d, k),
                },
            },
        },
{
    law_config_precedence(r, d, Some(document), overrides, globs, k);
    assert(obj_get(document, k) == over_else_base(project, global, k));
}


/// The `configFilePath` override, when it is a string.
pub open spec fn custom_config_path_spec(overrides: Option<Seq<(String, Json)>>) -> Option<Seq<char>> {
    match overrides {
        Some(o) => match obj_get(o, "configFilePath"@) {
            Some(Json::Str(p)) => Some(p@),
            _ => None,
        },
        None => None,
    }
}

/// The `configFilePath` override (the config file to load instead of probing).
pub fn custom_config_path(overrides: Option<&JsonObject>) -> (r: Option<String>)
    ensures
        crate::cli::parse::opt_text(r) == custom_config_path_spec(
            match overrides {
                Some(o) => Some(o@),
                None => None,
            },
        ),
{
    match overrides {
        Some(o) => match get_member(o, "configFilePath") {
            Some(Json::Str(p)) => Some(p.clone()),
            _ => None,
        },
        None => None,
    }
}

/// The gitlab section's members from `i` on: the `host` string (the last
/// one given), or the message of the first offending member.
pub open spec fn gitlab_scan(m: Seq<(String, Json)>, i: int, host: Option<Seq<char>>) -> Result<
    Option<Seq<char>>,
    Seq<char>,
>
    decreases m.len() - i,
{
    if i < 0 || i >= m.len() {
        Ok(host)
    } else if m[i].1 is Null {
        gitlab_scan(m, i + 1, host)
    } else if m[i].0@ == "host"@ {
        match m[i].1 {
            Json::Str(h) => gitlab_scan(m, i + 1, Some(h@)),
            _ => Err("gitlab section \"host\" must be a string"@),
        }
    } else {
        Err("gitlab section contains unsupported key \""@ + m[i].0@ + "\": only host is supported"@)
    }
}

/// The `gitlab` section's `host` (strict: `host` is the only key and a string).
pub open spec fn gitlab_host_spec(source: Seq<(String, Json)>) -> Result<Option<Seq<char>>, Seq<char>> {
    match obj_get(source, "gitlab"@) {
        None => Ok(None),
        Some(Json::Null) => Ok(None),
        Some(Json::Object(m)) => gitlab_scan(m@, 0, None),
        Some(_) => Err("gitlab section must be an object"@),
    }
}

fn unsupported(message: Vec<char>) -> (e: LoadConfigError)
    ensures
        e is UnsupportedConfig,
        e.message_view() == message@,
{
    LoadConfigError::UnsupportedConfig { message: string_of(&message) }
}

/// The `gitlab.host` of a configuration layer (see `gitlab_host_spec`).
pub fn gitlab_host_of(source: &JsonObject) -> (r: Result<Option<String>, LoadConfigError>)
    ensures
        match gitlab_host_spec(source@) {
            Ok(h) => r is Ok && crate::cli::parse::opt_text(r->Ok_0) == h,
            Err(m) => r is Err && r->Err_0 is UnsupportedConfig && r->Err_0.message_view() == m,
        },
{
    match get_member(source, "gitlab") {
        None => Ok(None),
        Some(Json::Null) => Ok(None),
        Some(Json::Object(m)) => {
            let mut host: Option<String> = None;
            let mut i: usize = 0;
            assert(gitlab_host_spec(source@) == gitlab_scan(m@, 0, None));
            while i < m.len()
                invariant
                    i <= m@.len(),
                    gitlab_host_spec(source@) == gitlab_scan(m@, 0, None),
                    gitlab_scan(m@, 0, None) == gitlab_scan(
                        m@,
                        i as int,
                        crate::cli::parse::opt_text(host),
                    ),
                decreases m.len() - i,
            {
                let (key, value) = (&m[i].0, &m[i].1);
                match value {
                    Json::Null => {},
                    _ => {
                        if str_eq(key.as_str(), "host") {
                            match value {
                                Json::Str(h) => {
                                    host = Some(h.clone());
                                },
                                _ => {
                                    return Err(unsupported(lit("gitlab section \"host\" must be a string")));
                                },
                            }
                        } else {
                            let mut msg = lit("gitlab section contains unsupported key \"");
                            extend_str(&mut msg, key.as_str());
                            extend_str(&mut msg, "\": only host is supported");
                            return Err(unsupported(msg));
                        }
                    },
                }
                i = i + 1;
            }
            Ok(host)
        },
        Some(_) => Err(unsupported(lit("gitlab section must be an object"))),
    }
}

/// The supported top-level keys of a configuration file, in the order the
/// error message lists them.
pub open spec fn supported_keys() -> Seq<Seq<char>> {
    seq![
        "$schema"@, "all"@, "changelog"@, "commit"@, "confirm"@, "currentVersion"@, "execute"@,
        "files"@, "gitlab"@, "ignoreScripts"@, "install"@, "noGitCheck"@, "noVerify"@, "preid"@,
        "push"@, "recursive"@, "release"@, "scripts"@, "sign"@, "tag"@,
    ]
}

/// The supported top-level keys.
pub fn supported_top_level_keys() -> (r: Vec<&'static str>)
    ensures
        r@.map_values(|s: &str| s@) == supported_keys(),
{
    let v: Vec<&'static str> = vec![
        "$schema", "all", "changelog", "commit", "confirm", "currentVersion", "execute", "files",
        "gitlab", "ignoreScripts", "install", "noGitCheck", "noVerify", "preid", "push",
        "recursive", "release", "scripts", "sign", "tag",
    ];
    assert(v@.map_values(|s: &str| s@) =~= supported_keys());
    v
}

/// The members' names that are no supported key, in member order.
pub open spec fn unknown_keys(m: Seq<(String, Json)>) -> Seq<Seq<char>>
    decreases m.len(),
{
    if m.len() == 0 {
        Seq::empty()
    } else if supported_keys().contains(m.last().0@) {
        unknown_keys(m.drop_last())
    } else {
        unknown_keys(m.drop_last()).push(m.last().0@)
    }
}

/// `items` joined with `sep`.
pub open spec fn join(items: Seq<Seq<char>>, sep: Seq<char>) -> Seq<char>
    decreases items.len(),
{
    if items.len() == 0 {
        Seq::empty()
    } else if items.len() == 1 {
        items[0]
    } else {
        join(items.drop_last(), sep) + sep + items.last()
    }
}

/// `"k"` for each key.
pub open spec fn quoted(items: Seq<Seq<char>>) -> Seq<Seq<char>> {
    items.map_values(|k: Seq<char>| "\""@ + k + "\""@)
}

/// The message for unsupported top-level keys `u` (already sorted).
pub open spec fn unknown_keys_message(shown: Seq<char>, u: Seq<Seq<char>>) -> Seq<char> {
    "config file "@ + shown + " contains unsupported "@ + (if u.len() == 1 {
        "key"@
    } else {
        "keys"@
    }) + ": "@ + join(quoted(u), ", "@) + " — supported top-level keys: "@ + join(
        supported_keys(),
        " / "@,
    )
}

pub open spec fn custom_version_message(shown: Seq<char>) -> Seq<char> {
    "config file "@ + shown
        + " contains the customVersion option: config files cannot carry functions; this option was removed in the rewrite — delete the key."@
}

fn join_exec(items: &Vec<String>, sep: &str) -> (r: Vec<char>)
    ensures
        r@ == join(texts(items@), sep@),
{
    let mut out: Vec<char> = Vec::new();
    let mut i: usize = 0;
    while i < items.len()
        invariant
            i <= items@.len(),
            out@ == join(texts(items@).subrange(0, i as int), sep@),
        decreases items.len() - i,
    {
        let ghost before = out@;
        assert(texts(items@).subrange(0, i + 1).drop_last() =~= texts(items@).subrange(0, i as int));
        if i > 0 {
            extend_str(&mut out, sep);
        }
        extend_str(&mut out, items[i].as_str());
        proof {
            if i == 0 {
                assert(out@ =~= texts(items@).subrange(0, 1)[0]);
            }
        }
        i = i + 1;
    }
    assert(texts(items@).subrange(0, items@.len() as int) =~= texts(items@));
    out
}

/// The file-level key checks of a configuration file shown as `shown`:
/// `customVersion` is refused, unknown top-level keys are all listed (sorted),
/// a malformed `gitlab` section is refused. The value types are checked
/// afterwards against the configuration's shape.
pub fn validate_document(map: &JsonObject, shown: &str) -> (r: Result<(), LoadConfigError>)
    ensures
        key_index(map@, "customVersion"@) >= 0 ==> r is Err && r->Err_0 is UnsupportedConfig
            && r->Err_0.message_view() == custom_version_message(shown@),
        key_index(map@, "customVersion"@) < 0 && unknown_keys(map@).len() > 0 ==> r is Err
            && r->Err_0 is UnsupportedConfig && exists|u: Seq<Seq<char>>|
            crate::order::sorted(u) && u.to_multiset() == unknown_keys(map@).to_multiset()
                && r->Err_0.message_view() == #[trigger] unknown_keys_message(shown@, u),
        key_index(map@, "customVersion"@) < 0 && unknown_keys(map@).len() == 0 ==> match gitlab_host_spec(
            map@,
        ) {
            Ok(_) => r is Ok,
            Err(m) => r is Err && r->Err_0 is UnsupportedConfig && r->Err_0.message_view()
                == "config file "@ + shown@ + ": "@ + m,
        },
{
    if find_key(map, "customVersion").is_some() {
        let mut m = lit("config file ");
        extend_str(&mut m, shown);
        extend_str(
            &mut m,
            " contains the customVersion option: config files cannot carry functions; this option was removed in the rewrite — delete the key.",
        );
        return Err(unsupported(m));
    }
    let supported = supported_top_level_keys();
    let mut unknown: Vec<String> = Vec::new();
    let mut i: usize = 0;
    while i < map.len()
        invariant
            i <= map@.len(),
            supported@.map_values(|s: &str| s@) == supported_keys(),
            texts(unknown@) == unknown_keys(map@.subrange(0, i as int)),
        decreases map.len() - i,
    {
        let key = &map[i].0;
        assert(map@.subrange(0, i + 1).drop_last() =~= map@.subrange(0, i as int));
        let mut known = false;
        let mut j: usize = 0;
        while j < supported.len()
            invariant
                j <= supported@.len(),
                supported@.map_values(|s: &str| s@) == supported_keys(),
                known == exists|x: int| 0 <= x < j && #[trigger] supported_keys()[x] == key@,
            decreases supported.len() - j,
        {
            assert(supported_keys()[j as int] == supported@[j as int]@);
            if str_eq(supported[j], key.as_str()) {
                known = true;
            }
            j = j + 1;
        }
        assert(known == supported_keys().contains(key@));
        if !known {
            let ghost before = unknown@;
            unknown.push(key.clone());
            assert(texts(unknown@) =~= texts(before).push(key@));
        }
        i = i + 1;
    }
    assert(map@.subrange(0, map@.len() as int) =~= map@);
    if unknown.len() > 0 {
        let n = unknown.len();
        let sorted = crate::order::sort_strings(unknown);
        let mut q: Vec<String> = Vec::new();
        let mut k: usize = 0;
        while k < sorted.len()
            invariant
                k <= sorted@.len(),
                texts(q@) == quoted(texts(sorted@)).subrange(0, k as int),
            decreases sorted.len() - k,
        {
            let mut x = lit("\"");
            extend_str(&mut x, sorted[k].as_str());
            extend_str(&mut x, "\"");
            let ghost before = q@;
            let xs = string_of(&x);
            q.push(xs);
            assert(texts(sorted@)[k as int] == sorted@[k as int]@);
            assert(texts(q@) =~= texts(before).push(xs@));
            assert(texts(q@) =~= quoted(texts(sorted@)).subrange(0, k + 1));
            k = k + 1;
        }
        assert(quoted(texts(sorted@)).subrange(0, sorted@.len() as int) =~= quoted(texts(sorted@)));
        let mut m = lit("config file ");
        extend_str(&mut m, shown);
        extend_str(&mut m, " contains unsupported ");
        proof {
            vstd::seq_lib::to_multiset_len(texts(sorted@));
            vstd::seq_lib::to_multiset_len(unknown_keys(map@));
        }
        if sorted.len() == 1 {
            extend_str(&mut m, "key");
        } else {
            extend_str(&mut m, "keys");
        }
        extend_str(&mut m, ": ");
        extend_chars(&mut m, &join_exec(&q, ", "));
        extend_str(&mut m, " — supported top-level keys: ");
        let mut sk: Vec<String> = Vec::new();
        let mut t: usize = 0;
        while t < supported.len()
            invariant
                t <= supported@.len(),
                supported@.map_values(|s: &str| s@) == supported_keys(),
                texts(sk@) == supported_keys().subrange(0, t as int),
            decreases supported.len() - t,
        {
            let ghost before = sk@;
            let o = crate::text::owned(supported[t]);
            sk.push(o);
            assert(supported_keys()[t as int] == supported@[t as int]@);
            assert(texts(sk@) =~= texts(before).push(o@));
            assert(texts(sk@) =~= supported_keys().subrange(0, t + 1));
            t = t + 1;
        }
        assert(supported_keys().subrange(0, supported_keys().len() as int) =~= supported_keys());
        extend_chars(&mut m, &join_exec(&sk, " / "));
        let _ = n;
        assert(m@ =~= unknown_keys_message(shown@, texts(sorted@)));
        return Err(unsupported(m));
    }
    match gitlab_host_of(map) {
        Ok(_) => Ok(()),
        Err(e) => {
            let mut m = lit("config file ");
            extend_str(&mut m, shown);
            extend_str(&mut m, ": ");
            extend_str(&mut m, e.message().as_str());
            Err(unsupported(m))
        },
    }
}

/// The configuration file formats, by extension.
#[derive(Debug, Clone, Copy, PartialEq, Eq, Structural)]
pub enum ConfigFormat {
    /// `.json` and `.jsonc`: JSON with comments and trailing commas.
    Jsonc,
    Toml,
}

/// The extension of a file name: the text after its last `.`, unless that
/// dot is the first character or there is none.
pub open spec fn extension(name: Seq<char>) -> Option<Seq<char>> {
    let j = crate::text::last_index_of_char(name, '.');
    if j <= 0 {
        None
    } else {
        Some(name.subrange(j + 1, name.len() as int))
    }
}

pub open spec fn format_of_spec(name: Seq<char>) -> Option<ConfigFormat> {
    match extension(name) {
        Some(e) => if e == "json"@ || e == "jsonc"@ {
            Some(ConfigFormat::Jsonc)
        } else if e == "toml"@ {
            Some(ConfigFormat::Toml)
        } else {
            None
        },
        None => None,
    }
}

impl ConfigFormat {
    /// The format of a configuration file, from its file name's extension.
    pub fn of(file_name: &str) -> (r: Option<ConfigFormat>)
        ensures
            r == format_of_spec(file_name@),
    {
        let v = chars_of(file_name);
        match crate::text::last_eq_index(&v, '.') {
            Some(j) => {
                if j == 0 {
                    return None;
                }
                let e = crate::text::slice_chars(&v, j + 1, v.len());
                if crate::text::chars_eq(&e, &lit("json")) || crate::text::chars_eq(&e, &lit("jsonc")) {
                    Some(ConfigFormat::Jsonc)
                } else if crate::text::chars_eq(&e, &lit("toml")) {
                    Some(ConfigFormat::Toml)
                } else {
                    None
                }
            },
            None => None,
        }
    }
}

pub open spec fn unsupported_config_message(shown: Seq<char>) -> Seq<char> {
    "supported config file formats: .json / .jsonc / .toml (.vbumpprc.* or the file configFilePath points to); the given config file "@
        + shown + " is not supported — this implementation does not execute TS/JS config."@
}

/// The error for a configuration file of an unsupported format.
pub fn unsupported_config(shown: &str) -> (e: LoadConfigError)
    ensures
        e is UnsupportedConfig,
        e.message_view() == unsupported_config_message(shown@),
{
    let mut m = lit(
        "supported config file formats: .json / .jsonc / .toml (.vbumpprc.* or the file configFilePath points to); the given config file ",
    );
    extend_str(&mut m, shown);
    extend_str(&mut m, " is not supported — this implementation does not execute TS/JS config.");
    unsupported(m)
}

/// The message when a directory holds more than one configuration file.
pub open spec fn ambiguous_message(dir: Seq<char>, found: Seq<Seq<char>>, names: Seq<Seq<char>>) -> Seq<char> {
    "multiple config files found in "@ + dir + ": "@ + join(found, ", "@) + " — keep only one (supported: "@
        + join(names, " / "@) + ")"@
}

/// Which configuration file of a directory to read: none when none exists,
/// the one when exactly one does; more than one is an error listing them
/// (`found`, by file name) and the accepted names.
pub fn probe_choice(dir_shown: &str, found: &Vec<String>, names: &Vec<String>) -> (r: Result<Option<usize>, LoadConfigError>)
    ensures
        found@.len() == 0 ==> r matches Ok(None),
        found@.len() == 1 ==> (r matches Ok(Some(i)) && i == 0),
        found@.len() > 1 ==> (r matches Err(LoadConfigError::AmbiguousConfig { message }) && message@
            == ambiguous_message(dir_shown@, texts(found@), texts(names@))),
{
    if found.len() == 0 {
        return Ok(None);
    }
    if found.len() == 1 {
        return Ok(Some(0));
    }
    let mut m = lit("multiple config files found in ");
    extend_str(&mut m, dir_shown);
    extend_str(&mut m, ": ");
    extend_chars(&mut m, &join_exec(found, ", "));
    extend_str(&mut m, " — keep only one (supported: ");
    extend_chars(&mut m, &join_exec(names, " / "));
    extend_str(&mut m, ")");
    Err(LoadConfigError::AmbiguousConfig { message: string_of(&m) })
}


/// With no configuration file and no overrides, the merged configuration
/// is bumpp's defaults: `commit`, `push`, `tag`, `confirm` and `noGitCheck`
/// on; `sign`, `install`, `recursive`, `noVerify`, `ignoreScripts` and `all`
/// off (the release commit holds only the version files); no `files`.
pub proof fn law_defaults_without_config(d: Seq<(String, Json)>, r: Seq<(String, Json)>, globs: Seq<String>)
    requires
        is_defaults(d),
        merged_config(r, layered(d, None, None), globs),
    ensures
        obj_get(r, "commit"@) == Some(Json::Bool(true)),
        obj_get(r, "push"@) == Some(Json::Bool(true)),
        obj_get(r, "tag"@) == Some(Json::Bool(true)),
        obj_get(r, "confirm"@) == Some(Json::Bool(true)),
        obj_get(r, "noGitCheck"@) == Some(Json::Bool(true)),
        obj_get(r, "sign"@) == Some(Json::Bool(false)),
        obj_get(r, "install"@) == Some(Json::Bool(false)),
        obj_get(r, "recursive"@) == Some(Json::Bool(false)),
        obj_get(r, "noVerify"@) == Some(Json::Bool(false)),
        obj_get(r, "ignoreScripts"@) == Some(Json::Bool(false)),
        obj_get(r, "all"@) == Some(Json::Bool(false)),
        array_is(obj_get(r, "files"@), Seq::empty()),
{
    reveal_strlit("commit");
    reveal_strlit("push");
    reveal_strlit("tag");
    reveal_strlit("sign");
    reveal_strlit("install");
    reveal_strlit("recursive");
    reveal_strlit("noVerify");
    reveal_strlit("confirm");
    reveal_strlit("ignoreScripts");
    reveal_strlit("all");
    reveal_strlit("noGitCheck");
    reveal_strlit("files");
    assert(layered(d, None, None) == d);
    reveal_with_fuel(key_index_from, 13);
    assert(obj_get(d, "commit"@) == Some(d[0].1)) by {
    }
    assert(obj_get(d, "push"@) == Some(d[1].1)) by {
        assert(d[0].0@.len() != "push"@.len());
    }
    assert(obj_get(d, "tag"@) == Some(d[2].1)) by {
        assert(d[0].0@.len() != "tag"@.len());
        assert(d[1].0@.len() != "tag"@.len());
    }
    assert(obj_get(d, "sign"@) == Some(d[3].1)) by {
        assert(d[0].0@.len() != "sign"@.len());
        assert(d[1].0@[0] != "sign"@[0]);
        assert(d[2].0@.len() != "sign"@.len());
    }
    assert(obj_get(d, "install"@) == Some(d[4].1)) by {
        assert(d[0].0@.len() != "install"@.len());
        assert(d[1].0@.len() != "install"@.len());
        assert(d[2].0@.len() != "install"@.len());
        assert(d[3].0@.len() != "install"@.len());
    }
    assert(obj_get(d, "recursive"@) == Some(d[5].1)) by {
        assert(d[0].0@.len() != "recursive"@.len());
        assert(d[1].0@.len() != "recursive"@.len());
        assert(d[2].0@.len() != "recursive"@.len());
        assert(d[3].0@.len() != "recursive"@.len());
        assert(d[4].0@.len() != "recursive"@.len());
    }
    assert(obj_get(d, "noVerify"@) == Some(d[6].1)) by {
        assert(d[0].0@.len() != "noVerify"@.len());
        assert(d[1].0@.len() != "noVerify"@.len());
        assert(d[2].0@.len() != "noVerify"@.len());
        assert(d[3].0@.len() != "noVerify"@.len());
        assert(d[4].0@.len() != "noVerify"@.len());
        assert(d[5].0@.len() != "noVerify"@.len());
    }
    assert(obj_get(d, "confirm"@) == Some(d[7].1)) by {
        assert(d[0].0@.len() != "confirm"@.len());
        assert(d[1].0@.len() != "confirm"@.len());
        assert(d[2].0@.len() != "confirm"@.len());
        assert(d[3].0@.len() != "confirm"@.len());
        assert(d[4].0@[0] != "confirm"@[0]);
        assert(d[5].0@.len() != "confirm"@.len());
        assert(d[6].0@.len() != "confirm"@.len());
    }
    assert(obj_get(d, "ignoreScripts"@) == Some(d[8].1)) by {
        assert(d[0].0@.len() != "ignoreScripts"@.len());
        assert(d[1].0@.len() != "ignoreScripts"@.len());
        assert(d[2].0@.len() != "ignoreScripts"@.len());
        assert(d[3].0@.len() != "ignoreScripts"@.len());
        assert(d[4].0@.len() != "ignoreScripts"@.len());
        assert(d[5].0@.len() != "ignoreScripts"@.len());
        assert(d[6].0@.len() != "ignoreScripts"@.len());
        assert(d[7].0@.len() != "ignoreScripts"@.len());
    }
    assert(obj_get(d, "all"@) == Some(d[9].1)) by {
        assert(d[0].0@.len() != "all"@.len());
        assert(d[1].0@.len() != "all"@.len());
        assert(d[2].0@[0] != "all"@[0]);
        assert(d[3].0@.len() != "all"@.len());
        assert(d[4].0@.len() != "all"@.len());
        assert(d[5].0@.len() != "all"@.len());
        assert(d[6].0@.len() != "all"@.len());
        assert(d[7].0@.len() != "all"@.len());
        assert(d[8].0@.len() != "all"@.len());
    }
    assert(obj_get(d, "noGitCheck"@) == Some(d[10].1)) by {
        assert(d[0].0@.len() != "noGitCheck"@.len());
        assert(d[1].0@.len() != "noGitCheck"@.len());
        assert(d[2].0@.len() != "noGitCheck"@.len());
        assert(d[3].0@.len() != "noGitCheck"@.len());
        assert(d[4].0@.len() != "noGitCheck"@.len());
        assert(d[5].0@.len() != "noGitCheck"@.len());
        assert(d[6].0@.len() != "noGitCheck"@.len());
        assert(d[7].0@.len() != "noGitCheck"@.len());
        assert(d[8].0@.len() != "noGitCheck"@.len());
        assert(d[9].0@.len() != "noGitCheck"@.len());
    }
    assert(obj_get(d, "files"@) == Some(d[11].1)) by {
        assert(d[0].0@.len() != "files"@.len());
        assert(d[1].0@.len() != "files"@.len());
        assert(d[2].0@.len() != "files"@.len());
        assert(d[3].0@.len() != "files"@.len());
        assert(d[4].0@.len() != "files"@.len());
        assert(d[5].0@.len() != "files"@.len());
        assert(d[6].0@.len() != "files"@.len());
        assert(d[7].0@.len() != "files"@.len());
        assert(d[8].0@.len() != "files"@.len());
        assert(d[9].0@.len() != "files"@.len());
        assert(d[10].0@.len() != "files"@.len());
    }
    assert(obj_get(r, "commit"@) == obj_get(d, "commit"@));
    assert(obj_get(r, "push"@) == obj_get(d, "push"@));
    assert(obj_get(r, "tag"@) == obj_get(d, "tag"@));
    assert(obj_get(r, "confirm"@) == obj_get(d, "confirm"@));
    assert(obj_get(r, "noGitCheck"@) == obj_get(d, "noGitCheck"@));
    assert(obj_get(r, "sign"@) == obj_get(d, "sign"@));
    assert(obj_get(r, "install"@) == obj_get(d, "install"@));
    assert(obj_get(r, "noVerify"@) == obj_get(d, "noVerify"@));
    assert(obj_get(r, "ignoreScripts"@) == obj_get(d, "ignoreScripts"@));
    assert(obj_get(r, "all"@) == obj_get(d, "all"@));
    match d[11].1 {
        Json::Array(a) => {
            assert(dedup_strings(a@) =~= Seq::<Json>::empty()) by {
                assert(a@ =~= Seq::<Json>::empty());
            }
        },
        _ => {},
    }
}

} // verus!
