//! A configuration file's parsed value and the checks between the parse and
//! the key checks: a parse error is reported with the file, a TOML datetime
//! (which JSON cannot hold) is refused, the top level must be an object.

use vstd::prelude::*;
use crate::config::{
    custom_version_message, gitlab_host_spec, unique_keys, unknown_keys, unknown_keys_message, validate_document,
    wf_document, LoadConfigError,
};
use crate::json::{key_index, Json, JsonObject};
use crate::text::{owned, push_str};

verus! {

/// A parsed configuration value: what JSON holds, and TOML datetimes (kept
/// as their text).
#[derive(Debug)]
pub enum ConfigValue {
    Null,
    Bool(bool),
    /// A number, as written by the parser.
    Number(String),
    Str(String),
    Datetime(String),
    Array(Vec<ConfigValue>),
    Object(Vec<(String, ConfigValue)>),
}

/// The first datetime in the value, in document order.
pub open spec fn datetime_in(v: ConfigValue) -> Option<Seq<char>>
    decreases v, 0int,
{
    match v {
        ConfigValue::Datetime(t) => Some(t@),
        ConfigValue::Array(items) => datetime_in_items(items@, 0),
        ConfigValue::Object(members) => datetime_in_members(members@, 0),
        _ => None,
    }
}

/// The first datetime among the items from `i` on.
pub open spec fn datetime_in_items(s: Seq<ConfigValue>, i: int) -> Option<Seq<char>>
    decreases s, s.len() - i,
{
    if i < 0 || i >= s.len() {
        None
    } else {
        match datetime_in(s[i]) {
            Some(t) => Some(t),
            None => datetime_in_items(s, i + 1),
        }
    }
}

/// The first datetime among the members' values from `i` on.
pub open spec fn datetime_in_members(s: Seq<(String, ConfigValue)>, i: int) -> Option<Seq<char>>
    decreases s, s.len() - i,
{
    if i < 0 || i >= s.len() {
        None
    } else {
        match datetime_in(s[i].1) {
            Some(t) => Some(t),
            None => datetime_in_members(s, i + 1),
        }
    }
}

/// `j` is the JSON value of `v` (same shape, same texts, no datetime).
pub open spec fn same_json(v: ConfigValue, j: Json) -> bool
    decreases v, 0int,
{
    match (v, j) {
        (ConfigValue::Null, Json::Null) => true,
        (ConfigValue::Bool(a), Json::Bool(b)) => a == b,
        (ConfigValue::Number(a), Json::Number(b)) => a@ == b@,
        (ConfigValue::Str(a), Json::Str(b)) => a@ == b@,
        (ConfigValue::Array(a), Json::Array(b)) => a@.len() == b@.len() && same_items(a@, b@, 0),
        (ConfigValue::Object(a), Json::Object(b)) => a@.len() == b@.len() && same_members(a@, b@, 0),
        _ => false,
    }
}

pub open spec fn same_items(a: Seq<ConfigValue>, b: Seq<Json>, i: int) -> bool
    decreases a, a.len() - i,
{
    if i < 0 || i >= a.len() {
        true
    } else {
        i < b.len() && same_json(a[i], b[i]) && same_items(a, b, i + 1)
    }
}

pub open spec fn same_members(a: Seq<(String, ConfigValue)>, b: Seq<(String, Json)>, i: int) -> bool
    decreases a, a.len() - i,
{
    if i < 0 || i >= a.len() {
        true
    } else {
        i < b.len() && a[i].0@ == b[i].0@ && same_json(a[i].1, b[i].1) && same_members(a, b, i + 1)
    }
}

/// The JSON value of `v`, or the text of its first datetime.
pub fn config_json(v: &ConfigValue) -> (r: Result<Json, String>)
    ensures
        match datetime_in(*v) {
            Some(t) => r matches Err(x) && x@ == t,
            None => r matches Ok(j) && same_json(*v, j),
        },
    decreases v,
{
    match v {
        ConfigValue::Null => Ok(Json::Null),
        ConfigValue::Bool(b) => Ok(Json::Bool(*b)),
        ConfigValue::Number(n) => Ok(Json::Number(owned(n.as_str()))),
        ConfigValue::Str(s) => Ok(Json::Str(owned(s.as_str()))),
        ConfigValue::Datetime(t) => Err(owned(t.as_str())),
        ConfigValue::Array(items) => {
            let mut out: Vec<Json> = Vec::new();
            let mut i: usize = 0;
            while i < items.len()
                invariant
                    i <= items@.len(),
                    out@.len() == i,
                    datetime_in(*v) == datetime_in_items(items@, i as int),
                    *v is Array && (*v)->Array_0 == *items,
                    forall|k: int| 0 <= k < i ==> same_json(items@[k], #[trigger] out@[k]),
                decreases items.len() - i,
            {
                assert(decreases_to!(*v => (*v)->Array_0));
                assert(decreases_to!(*items => items@));
                assert(decreases_to!(items@ => items@[i as int]));
                match config_json(&items[i]) {
                    Err(t) => {
                        return Err(t);
                    },
                    Ok(j) => {
                        out.push(j);
                    },
                }
                i = i + 1;
            }
            proof {
                lemma_same_items(items@, out@, 0);
            }
            Ok(Json::Array(out))
        },
        ConfigValue::Object(members) => {
            let mut out: Vec<(String, Json)> = Vec::new();
            let mut i: usize = 0;
            while i < members.len()
                invariant
                    i <= members@.len(),
                    out@.len() == i,
                    datetime_in(*v) == datetime_in_members(members@, i as int),
                    *v is Object && (*v)->Object_0 == *members,
                    forall|k: int| 0 <= k < i ==> (#[trigger] out@[k]).0@ == members@[k].0@ && same_json(members@[k].1, out@[k].1),
                decreases members.len() - i,
            {
                assert(decreases_to!(*v => (*v)->Object_0));
                assert(decreases_to!(*members => members@));
                assert(decreases_to!(members@ => members@[i as int]));
                assert(decreases_to!(members@[i as int] => members@[i as int].1));
                match config_json(&members[i].1) {
                    Err(t) => {
                        return Err(t);
                    },
                    Ok(j) => {
                        out.push((owned(members[i].0.as_str()), j));
                    },
                }
                i = i + 1;
            }
            proof {
                lemma_same_members(members@, out@, 0);
            }
            Ok(Json::Object(out))
        },
    }
}

proof fn lemma_same_items(a: Seq<ConfigValue>, b: Seq<Json>, i: int)
    requires
        a.len() == b.len(),
        0 <= i <= a.len(),
        forall|k: int| 0 <= k < a.len() ==> same_json(a[k], #[trigger] b[k]),
    ensures
        same_items(a, b, i),
    decreases a.len() - i,
{
    if i < a.len() {
        lemma_same_items(a, b, i + 1);
    }
}

proof fn lemma_same_members(a: Seq<(String, ConfigValue)>, b: Seq<(String, Json)>, i: int)
    requires
        a.len() == b.len(),
        0 <= i <= a.len(),
        forall|k: int| 0 <= k < a.len() ==> (#[trigger] b[k]).0@ == a[k].0@ && same_json(a[k].1, b[k].1),
    ensures
        same_members(a, b, i),
    decreases a.len() - i,
{
    if i < a.len() {
        lemma_same_members(a, b, i + 1);
    }
}

proof fn lemma_same_members_at(a: Seq<(String, ConfigValue)>, b: Seq<(String, Json)>, i: int, k: int)
    requires
        0 <= i <= k < a.len(),
        same_members(a, b, i),
    ensures
        k < b.len() && b[k].0@ == a[k].0@ && same_json(a[k].1, b[k].1),
    decreases k - i,
{
    if i < k {
        lemma_same_members_at(a, b, i + 1, k);
    }
}

/// The message for a parse error of the file shown as `shown`.
pub open spec fn parse_failed_message(shown: Seq<char>, e: Seq<char>) -> Seq<char> {
    "failed to parse config file "@ + shown + ": "@ + e
}

/// The message for a TOML datetime `t` in the file shown as `shown`.
pub open spec fn datetime_message(shown: Seq<char>, t: Seq<char>) -> Seq<char> {
    "config file "@ + shown + " contains a TOML datetime value ("@ + t
        + "): not expressible in the JSON value domain — use a string instead"@
}

/// The message for a file whose top level is not an object.
pub open spec fn not_object_message(shown: Seq<char>) -> Seq<char> {
    "config file "@ + shown + " must be an object"@
}

/// What a parsed configuration file (`parsed`: the value, or the parser's
/// error) gives, before its keys are checked: the parse error, the first
/// datetime, a top level that is no object, in this order; else the
/// object's members.
pub open spec fn config_object_spec(shown: Seq<char>, parsed: Result<ConfigValue, Seq<char>>) -> Result<
    Seq<(Seq<char>, ConfigValue)>,
    Seq<char>,
> {
    match parsed {
        Err(e) => Err(parse_failed_message(shown, e)),
        Ok(v) => match datetime_in(v) {
            Some(t) => Err(datetime_message(shown, t)),
            None => match v {
                ConfigValue::Object(m) => Ok(m@.map_values(|p: (String, ConfigValue)| (p.0@, p.1))),
                _ => Err(not_object_message(shown)),
            },
        },
    }
}

/// A parse result with its error taken as text.
pub open spec fn parse_view(p: Result<ConfigValue, String>) -> Result<ConfigValue, Seq<char>> {
    match p {
        Ok(v) => Ok(v),
        Err(e) => Err(e@),
    }
}

/// `m` is the JSON form of the members (same keys, same values).
pub open spec fn converted(members: Seq<(Seq<char>, ConfigValue)>, m: Seq<(String, Json)>) -> bool {
    &&& m.len() == members.len()
    &&& forall|k: int| 0 <= k < members.len() ==> (#[trigger] m[k]).0@ == members[k].0 && same_json(members[k].1, m[k].1)
}

/// The outcome of the key checks (`validate_document`) on the members `m`
/// of the file shown as `shown`: `customVersion` refused; else every unknown
/// top-level key listed, sorted; else a malformed `gitlab` section refused;
/// else the members themselves.
pub open spec fn validated(shown: Seq<char>, m: Seq<(String, Json)>, r: Result<JsonObject, LoadConfigError>) -> bool {
    if key_index(m, "customVersion"@) >= 0 {
        r matches Err(e) && e is UnsupportedConfig && e.message_view() == custom_version_message(shown)
    } else if unknown_keys(m).len() > 0 {
        r matches Err(e) && e is UnsupportedConfig && exists|u: Seq<Seq<char>>|
            crate::order::sorted(u) && u.to_multiset() == unknown_keys(m).to_multiset()
                && e.message_view() == #[trigger] unknown_keys_message(shown, u)
    } else {
        match gitlab_host_spec(m) {
            Ok(_) => r matches Ok(j) && j@ == m,
            Err(x) => r matches Err(e) && e is UnsupportedConfig && e.message_view() == "config file "@ + shown
                + ": "@ + x,
        }
    }
}

/// The names of the members, each once.
pub open spec fn names_unique(s: Seq<(String, ConfigValue)>) -> bool {
    forall|i: int, j: int| 0 <= i < j < s.len() ==> #[trigger] s[i].0@ != #[trigger] s[j].0@
}

/// The index of the first member named `k`, or -1.
pub open spec fn name_index(s: Seq<(String, ConfigValue)>, k: Seq<char>, i: int) -> int
    decreases s.len() - i,
{
    if i < 0 || i >= s.len() {
        -1
    } else if s[i].0@ == k {
        i
    } else {
        name_index(s, k, i + 1)
    }
}

/// Each object that the merge keys by name holds every name once: the top
/// level, the `changelog` section, its `types` table (as a parser's map does).
pub open spec fn config_unique(s: Seq<(String, ConfigValue)>) -> bool {
    &&& names_unique(s)
    &&& {
        let c = name_index(s, "changelog"@, 0);
        c >= 0 ==> match s[c].1 {
            ConfigValue::Object(cs) => names_unique(cs@) && {
                let t = name_index(cs@, "types"@, 0);
                t >= 0 ==> match cs@[t].1 {
                    ConfigValue::Object(ts) => names_unique(ts@),
                    _ => true,
                }
            },
            _ => true,
        }
    }
}

proof fn lemma_name_index(s: Seq<(String, ConfigValue)>, k: Seq<char>, i: int)
    requires
        0 <= i,
    ensures
        -1 <= name_index(s, k, i) < s.len(),
        name_index(s, k, i) >= 0 ==> i <= name_index(s, k, i) && s[name_index(s, k, i)].0@ == k,
    decreases s.len() - i,
{
    if i < s.len() {
        lemma_name_index(s, k, i + 1);
    }
}

proof fn lemma_index_agrees(s: Seq<(String, ConfigValue)>, m: Seq<(String, Json)>, k: Seq<char>, i: int)
    requires
        0 <= i <= s.len(),
        m.len() == s.len(),
        forall|x: int| 0 <= x < s.len() ==> (#[trigger] m[x]).0@ == s[x].0@,
    ensures
        crate::json::key_index_from(m, k, i) == name_index(s, k, i),
    decreases s.len() - i,
{
    if i < s.len() {
        lemma_index_agrees(s, m, k, i + 1);
    }
}

proof fn lemma_unique_agrees(s: Seq<(String, ConfigValue)>, m: Seq<(String, Json)>)
    requires
        m.len() == s.len(),
        forall|x: int| 0 <= x < s.len() ==> (#[trigger] m[x]).0@ == s[x].0@,
        names_unique(s),
    ensures
        unique_keys(m),
{
    assert forall|i: int, j: int| 0 <= i < j < m.len() implies #[trigger] m[i].0@ != #[trigger] m[j].0@ by {
        assert(m[i].0@ == s[i].0@ && m[j].0@ == s[j].0@);
    }
}

proof fn lemma_object_members(a: Seq<(String, ConfigValue)>, b: Seq<(String, Json)>)
    requires
        a.len() == b.len(),
        same_members(a, b, 0),
    ensures
        forall|k: int| 0 <= k < a.len() ==> (#[trigger] b[k]).0@ == a[k].0@ && same_json(a[k].1, b[k].1),
{
    assert forall|k: int| 0 <= k < a.len() implies (#[trigger] b[k]).0@ == a[k].0@ && same_json(a[k].1, b[k].1) by {
        lemma_same_members_at(a, b, 0, k);
    }
}

/// A document converted from members whose keyed objects hold each name once
/// is well formed for the merge.
proof fn lemma_converted_wf(s: Seq<(String, ConfigValue)>, m: Seq<(String, Json)>)
    requires
        m.len() == s.len(),
        forall|k: int| 0 <= k < s.len() ==> (#[trigger] m[k]).0@ == s[k].0@ && same_json(s[k].1, m[k].1),
        config_unique(s),
    ensures
        wf_document(m),
{
    lemma_unique_agrees(s, m);
    lemma_index_agrees(s, m, "changelog"@, 0);
    lemma_name_index(s, "changelog"@, 0);
    let c = name_index(s, "changelog"@, 0);
    if c >= 0 {
        assert(m[c].0@ == s[c].0@ && same_json(s[c].1, m[c].1));
        match (s[c].1, m[c].1) {
            (ConfigValue::Object(cs), Json::Object(cm)) => {
                lemma_object_members(cs@, cm@);
                lemma_unique_agrees(cs@, cm@);
                lemma_index_agrees(cs@, cm@, "types"@, 0);
                lemma_name_index(cs@, "types"@, 0);
                let t = name_index(cs@, "types"@, 0);
                if t >= 0 {
                    assert(cm@[t].0@ == cs@[t].0@ && same_json(cs@[t].1, cm@[t].1));
                    match (cs@[t].1, cm@[t].1) {
                        (ConfigValue::Object(ts), Json::Object(tm)) => {
                            lemma_object_members(ts@, tm@);
                            lemma_unique_agrees(ts@, tm@);
                        },
                        _ => {},
                    }
                }
            },
            _ => {},
        }
    }
}

/// What reading the file shown as `shown` gives from its parse result: the
/// members (see `config_object_spec`) with their keys checked as
/// `validate_document` does (see `validated`); the document given back is
/// well formed for the merge when the parsed objects hold each name once.
pub open spec fn config_read(shown: Seq<char>, parsed: Result<ConfigValue, Seq<char>>, r: Result<JsonObject, LoadConfigError>) -> bool {
    &&& match config_object_spec(shown, parsed) {
        Err(m) => r matches Err(e) && e is Parse && e.message_view() == m,
        Ok(members) => exists|m: Seq<(String, Json)>| #[trigger] converted(members, m) && validated(shown, m, r),
    }
    &&& match parsed {
        Ok(ConfigValue::Object(s)) => config_unique(s@) ==> (r matches Ok(j) ==> wf_document(j@)),
        _ => true,
    }
}

/// A configuration file's members from its parsed value (see
/// `config_object_spec`), then its keys checked as `validate_document` does
/// (see `validated`). The document given back is well formed for the merge
/// when the parsed objects hold each name once.
#[verifier::spinoff_prover]
#[verifier::rlimit(40)]
pub fn read_config_value(shown: &str, parsed: Result<ConfigValue, String>) -> (r: Result<
    JsonObject,
    LoadConfigError,
>)
    ensures
        config_read(shown@, parse_view(parsed), r),
{
    let ghost pv = parsed;
    let v = match parsed {
        Err(e) => {
            let mut m = owned("failed to parse config file ");
            push_str(&mut m, shown);
            push_str(&mut m, ": ");
            push_str(&mut m, e.as_str());
            return Err(LoadConfigError::Parse { message: m });
        },
        Ok(v) => v,
    };
    let j = match config_json(&v) {
        Err(t) => {
            let mut m = owned("config file ");
            push_str(&mut m, shown);
            push_str(&mut m, " contains a TOML datetime value (");
            push_str(&mut m, t.as_str());
            push_str(&mut m, "): not expressible in the JSON value domain — use a string instead");
            return Err(LoadConfigError::Parse { message: m });
        },
        Ok(j) => j,
    };
    let res = match j {
        Json::Object(members) => {
            let ghost mv = members@;
            let ghost gv = v;
            proof {
                match gv {
                    ConfigValue::Object(s) => {
                        lemma_object_members(s@, mv);
                        let cm = s@.map_values(|p: (String, ConfigValue)| (p.0@, p.1));
                        assert(converted(cm, mv));
                        if config_unique(s@) {
                            lemma_converted_wf(s@, mv);
                        }
                    },
                    _ => {},
                }
            }
            let r = match validate_document(&members, shown) {
                Err(e) => Err(e),
                Ok(()) => Ok(members),
            };
            proof {
                match gv {
                    ConfigValue::Object(s) => {
                        let cm = s@.map_values(|p: (String, ConfigValue)| (p.0@, p.1));
                        assert(converted(cm, mv) && validated(shown@, mv, r));
                        assert(config_object_spec(shown@, parse_view(pv)) == Ok::<Seq<(Seq<char>, ConfigValue)>, Seq<char>>(cm));
                        assert(converted(config_object_spec(shown@, parse_view(pv))->Ok_0, mv));
                    },
                    _ => {
                        assert(false);
                    },
                }
            }
            r
        },
        _ => {
            proof {
                assert(!(v is Object));
                assert(datetime_in(v) is None);
                assert(config_object_spec(shown@, parse_view(pv)) == Err::<Seq<(Seq<char>, ConfigValue)>, Seq<char>>(
                    not_object_message(shown@),
                ));
            }
            let mut m = owned("config file ");
            push_str(&mut m, shown);
            push_str(&mut m, " must be an object");
            Err(LoadConfigError::Parse { message: m })
        },
    };
    res
}

} // verus!
