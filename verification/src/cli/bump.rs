//! The bump command's own decisions: the configuration overrides that its
//! arguments stand for, and which release platform it names.

use vstd::prelude::*;
use crate::cli::parse::{BumpArgs, BumpArgsV};
use crate::config::str_is;
use crate::json::{Json, JsonObject};
use crate::release::{provider_name, Provider};
use crate::text::{owned, push_str};

verus! {

/// The message for a platform name that is not known.
pub open spec fn unknown_provider_message(p: Seq<char>) -> Seq<char> {
    "unknown provider: "@ + p + " (expected github / gitlab / gitee / gitcode)"@
}

/// The platform: the `--provider` flag, else the one the program was built
/// for; `None` when neither is given; an error for an unknown name.
pub fn resolve_provider(flag: Option<&str>, injected: Option<&str>) -> (r: Result<Option<Provider>, String>)
    ensures
        match (if flag is Some { flag } else { injected }) {
            None => r == Ok::<Option<Provider>, String>(None),
            Some(p) => match r {
                Ok(Some(q)) => provider_name(q) == p@,
                Ok(None) => false,
                Err(m) => m@ == unknown_provider_message(p@) && forall|q: Provider| provider_name(q) != p@,
            },
        },
{
    let chosen = match flag {
        Some(f) => Some(f),
        None => injected,
    };
    match chosen {
        None => Ok(None),
        Some(p) => match Provider::parse(p) {
            Some(q) => Ok(Some(q)),
            None => {
                let mut m = owned("unknown provider: ");
                push_str(&mut m, p);
                push_str(&mut m, " (expected github / gitlab / gitee / gitcode)");
                Err(m)
            },
        },
    }
}

/// The items are the given strings, in order.
pub open spec fn str_items_are(items: Seq<Json>, s: Seq<Seq<char>>) -> bool {
    items.len() == s.len() && forall|i: int| 0 <= i < s.len() ==> str_is(#[trigger] items[i], s[i])
}

/// The overrides of a bump invocation, keys in sorted order: `changelog`
/// with the `output` path; `confirm: false` on a dry run; the `files` when
/// some are given; `recursive`.
pub open spec fn overrides_of(r: Seq<(String, Json)>, a: BumpArgsV) -> bool {
    let keys = seq!["changelog"@] + (if a.dry_run {
        seq!["confirm"@]
    } else {
        Seq::empty()
    }) + (if a.files.len() > 0 {
        seq!["files"@]
    } else {
        Seq::empty()
    }) + seq!["recursive"@];
    &&& r.len() == keys.len()
    &&& forall|i: int| 0 <= i < r.len() ==> (#[trigger] r[i]).0@ == keys[i]
    &&& match r[0].1 {
        Json::Object(m) => m@.len() == 1 && m@[0].0@ == "output"@ && str_is(m@[0].1, a.output),
        _ => false,
    }
    &&& a.dry_run ==> r[1].1 == Json::Bool(false)
    &&& a.files.len() > 0 ==> match r[r.len() - 2].1 {
        Json::Array(items) => str_items_are(items@, a.files),
        _ => false,
    }
    &&& r[r.len() - 1].1 == Json::Bool(a.recursive)
}

/// The configuration overrides that the bump arguments stand for.
pub fn bump_overrides(args: &BumpArgs) -> (r: JsonObject)
    ensures
        overrides_of(r@, args.view()),
{
    let mut r: JsonObject = Vec::new();
    let mut inner: JsonObject = Vec::new();
    inner.push((owned("output"), Json::Str(owned(args.output.as_str()))));
    r.push((owned("changelog"), Json::Object(inner)));
    if args.dry_run {
        r.push((owned("confirm"), Json::Bool(false)));
    }
    if args.files.len() > 0 {
        let mut items: Vec<Json> = Vec::new();
        let mut i: usize = 0;
        while i < args.files.len()
            invariant
                i <= args.files@.len(),
                items@.len() == i,
                forall|k: int| 0 <= k < i ==> str_is(#[trigger] items@[k], args.files@[k]@),
            decreases args.files.len() - i,
        {
            items.push(Json::Str(owned(args.files[i].as_str())));
            i = i + 1;
        }
        r.push((owned("files"), Json::Array(items)));
    }
    r.push((owned("recursive"), Json::Bool(args.recursive)));
    proof {
        reveal_strlit("changelog");
        reveal_strlit("confirm");
        reveal_strlit("files");
        reveal_strlit("recursive");
        reveal_strlit("output");
    }
    r
}

} // verus!
