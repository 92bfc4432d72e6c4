//! Cargo manifests: the version is read from `[package].version` (or
//! `[workspace.package].version`) and rewritten in place with `toml_edit`,
//! keeping the formatting; the crate's entries in the `Cargo.lock` found
//! above the manifest are moved to the new version too, and a lock that does
//! not hold the current version refuses the update.

use vstd::prelude::*;
use crate::cli::parse::opt_text;
use crate::text::{owned, push_str, str_eq};
use toml_edit::Item;

verus! {

/// What `toml_edit` reads from a manifest text: the `[package]` `version`
/// and `name` and the `[workspace.package]` `version`, each when a string;
/// the parse error's text when the text is not TOML.
pub uninterp spec fn cargo_manifest_of(text: Seq<char>) -> Result<
    (Option<Seq<char>>, Option<Seq<char>>, Option<Seq<char>>),
    Seq<char>,
>;

/// The manifest text with the version of `[package]` set to `new`,
/// formatting kept, as `toml_edit` writes it (the text as is when it is not
/// TOML).
pub uninterp spec fn cargo_package_set_of(text: Seq<char>, new: Seq<char>) -> Seq<char>;

/// The manifest text with the version of `[workspace.package]` set to
/// `new`, formatting kept, as `toml_edit` writes it (the text as is when it
/// is not TOML).
pub uninterp spec fn cargo_workspace_package_set_of(text: Seq<char>, new: Seq<char>) -> Seq<char>;

/// The `[[package]]` entries of a lock text as `toml_edit` reads them: the
/// `name` and `version` when strings, and whether a `source` is given; the
/// parse error's text when the text is not TOML.
pub uninterp spec fn cargo_lock_entries_of(text: Seq<char>) -> Result<
    Seq<(Option<Seq<char>>, Option<Seq<char>>, bool)>,
    Seq<char>,
>;

/// The lock text with the version of the `[[package]]` entry at `index` set
/// to `new`, formatting kept, as `toml_edit` writes it (the text as is when
/// it is not TOML).
pub uninterp spec fn cargo_lock_set_at_of(text: Seq<char>, index: usize, new: Seq<char>) -> Seq<char>;

/// The lock text with the version of the entries at `indices` set to `new`,
/// one after the other.
pub open spec fn cargo_lock_set_of(text: Seq<char>, indices: Seq<usize>, new: Seq<char>) -> Seq<char>
    decreases indices.len(),
{
    if indices.len() == 0 {
        text
    } else {
        cargo_lock_set_at_of(cargo_lock_set_of(text, indices.drop_last(), new), indices.last(), new)
    }
}

pub open spec fn facts_view(r: Result<(Option<String>, Option<String>, Option<String>), String>) -> Result<
    (Option<Seq<char>>, Option<Seq<char>>, Option<Seq<char>>),
    Seq<char>,
> {
    match r {
        Ok((v, n, w)) => Ok((opt_text(v), opt_text(n), opt_text(w))),
        Err(e) => Err(e@),
    }
}

pub open spec fn entries_view(r: Result<Vec<(Option<String>, Option<String>, bool)>, String>) -> Result<
    Seq<(Option<Seq<char>>, Option<Seq<char>>, bool)>,
    Seq<char>,
> {
    match r {
        Ok(v) => Ok(v@.map_values(|e: (Option<String>, Option<String>, bool)| (opt_text(e.0), opt_text(e.1), e.2))),
        Err(e) => Err(e@),
    }
}

/// `text.parse::<toml_edit::DocumentMut>()`, then the `[package]` `version`
/// and `name` and the `[workspace.package]` `version` read with `as_str`.
#[verifier::external_body]
fn manifest_facts(text: &str) -> (r: Result<(Option<String>, Option<String>, Option<String>), String>)
    ensures
        facts_view(r) == cargo_manifest_of(text@),
{
    let doc = text.parse::<toml_edit::DocumentMut>().map_err(|e| e.to_string())?;
    let package = doc.get("package").and_then(Item::as_table_like);
    let field = |k: &str| package.and_then(|p| p.get(k)).and_then(Item::as_str).map(str::to_string);
    let ws = doc.get("workspace").and_then(Item::as_table_like).and_then(|w| w.get("package"));
    let ws_version = ws.and_then(Item::as_table_like).and_then(|p| p.get("version")).and_then(Item::as_str);
    Ok((field("version"), field("name"), ws_version.map(str::to_string)))
}

/// `toml_edit`: the `[package]` version replaced by a `Formatted` string
/// carrying the old value's decor, then the document written with
/// `to_string`; the text as is when it does not parse.
#[verifier::external_body]
fn package_with_version(text: &str, new: &str) -> (r: String)
    ensures
        r@ == cargo_package_set_of(text@, new@),
{
    let Ok(mut doc) = text.parse::<toml_edit::DocumentMut>() else { return text.to_string() };
    let version = doc.get_mut("package").and_then(Item::as_table_like_mut).and_then(|t| t.get_mut("version"));
    if let Some(value) = version.and_then(Item::as_value_mut) {
        let mut formatted = toml_edit::Formatted::new(new.to_string());
        *formatted.decor_mut() = value.decor().clone();
        *value = toml_edit::Value::String(formatted);
    }
    doc.to_string()
}

/// `toml_edit`: the `[workspace.package]` version replaced by a `Formatted`
/// string carrying the old value's decor, then the document written with
/// `to_string`; the text as is when it does not parse.
#[verifier::external_body]
fn workspace_package_with_version(text: &str, new: &str) -> (r: String)
    ensures
        r@ == cargo_workspace_package_set_of(text@, new@),
{
    let Ok(mut doc) = text.parse::<toml_edit::DocumentMut>() else { return text.to_string() };
    let package = doc.get_mut("workspace").and_then(Item::as_table_like_mut).and_then(|w| w.get_mut("package"));
    let version = package.and_then(Item::as_table_like_mut).and_then(|t| t.get_mut("version"));
    if let Some(value) = version.and_then(Item::as_value_mut) {
        let mut formatted = toml_edit::Formatted::new(new.to_string());
        *formatted.decor_mut() = value.decor().clone();
        *value = toml_edit::Value::String(formatted);
    }
    doc.to_string()
}

/// `text.parse::<toml_edit::DocumentMut>()`, then each `[[package]]` table's
/// `name` and `version` (`as_str`) and whether it `contains_key("source")`.
#[verifier::external_body]
fn lock_entries(text: &str) -> (r: Result<Vec<(Option<String>, Option<String>, bool)>, String>)
    ensures
        entries_view(r) == cargo_lock_entries_of(text@),
{
    let doc = text.parse::<toml_edit::DocumentMut>().map_err(|e| e.to_string())?;
    let field = |t: &toml_edit::Table, k: &str| t.get(k).and_then(Item::as_str).map(str::to_string);
    let packages = doc.get("package").and_then(Item::as_array_of_tables);
    let entry = |t: &toml_edit::Table| (field(t, "name"), field(t, "version"), t.contains_key("source"));
    Ok(packages.map(|ps| ps.iter().map(entry).collect()).unwrap_or_default())
}

/// `toml_edit`: the version of the `[[package]]` table at `index` replaced
/// by a `Formatted` string carrying the old value's decor, then the document
/// written with `to_string`; the text as is when it does not parse.
#[verifier::external_body]
fn lock_with_version_at(text: &str, index: usize, new: &str) -> (r: String)
    ensures
        r@ == cargo_lock_set_at_of(text@, index, new@),
{
    let Ok(mut doc) = text.parse::<toml_edit::DocumentMut>() else { return text.to_string() };
    let table = doc.get_mut("package").and_then(Item::as_array_of_tables_mut).and_then(|ps| ps.get_mut(index));
    if let Some(value) = table.and_then(|t| t.get_mut("version")).and_then(Item::as_value_mut) {
        let mut formatted = toml_edit::Formatted::new(new.to_string());
        *formatted.decor_mut() = value.decor().clone();
        *value = toml_edit::Value::String(formatted);
    }
    doc.to_string()
}

/// The lock text with the entries at `indices` moved to `new`, one after
/// the other.
fn lock_with_versions(text: &str, indices: &Vec<usize>, new: &str) -> (r: String)
    ensures
        r@ == cargo_lock_set_of(text@, indices@, new@),
{
    let mut out = owned(text);
    let mut i: usize = 0;
    while i < indices.len()
        invariant
            i <= indices@.len(),
            out@ == cargo_lock_set_of(text@, indices@.subrange(0, i as int), new@),
        decreases indices.len() - i,
    {
        let next = lock_with_version_at(out.as_str(), indices[i], new);
        assert(indices@.subrange(0, i + 1).drop_last() =~= indices@.subrange(0, i as int));
        out = next;
        i = i + 1;
    }
    assert(indices@.subrange(0, indices@.len() as int) =~= indices@);
    out
}

/// A Cargo manifest, by its file name: `Cargo.toml` in any ASCII case,
/// white space around it ignored.
pub open spec fn is_cargo_manifest_spec(name: Seq<char>) -> bool {
    crate::text::ascii_lower(crate::text::trim_spec(name)) == "cargo.toml"@
}

/// Whether a file name is a Cargo manifest's.
pub fn is_cargo_manifest(file_name: &str) -> (r: bool)
    ensures
        r == is_cargo_manifest_spec(file_name@),
{
    let low = crate::text::lower_chars(&crate::text::trim_chars(&crate::text::chars_of(file_name)));
    crate::text::chars_eq(&low, &crate::text::lit("cargo.toml"))
}

/// The manifest's version: `[package].version`, else `[workspace.package].version`;
/// nothing for a text that is not TOML.
pub open spec fn read_version_spec(text: Seq<char>) -> Option<Seq<char>> {
    match cargo_manifest_of(text) {
        Ok((Some(v), _, _)) => Some(v),
        Ok((None, _, w)) => w,
        Err(_) => None,
    }
}

/// The version a manifest text declares (see `read_version_spec`).
pub fn read_version(text: &str) -> (r: Option<String>)
    ensures
        opt_text(r) == read_version_spec(text@),
{
    match manifest_facts(text) {
        Ok((Some(v), _, _)) => Some(v),
        Ok((None, _, w)) => w,
        Err(_) => None,
    }
}

/// A lock entry: name, version, whether it has a source.
pub type LockEntry = (Option<Seq<char>>, Option<Seq<char>>, bool);

/// The entries of crate `name` at version `current`, by position.
pub open spec fn name_hits(es: Seq<LockEntry>, name: Seq<char>, current: Seq<char>) -> Seq<usize>
    decreases es.len(),
{
    if es.len() == 0 {
        Seq::empty()
    } else {
        let rest = name_hits(es.drop_last(), name, current);
        if es.last().0 == Some(name) && es.last().1 == Some(current) {
            rest.push((es.len() - 1) as usize)
        } else {
            rest
        }
    }
}

/// The workspace members (entries without a source) at version `current`, by position.
pub open spec fn member_hits(es: Seq<LockEntry>, current: Seq<char>) -> Seq<usize>
    decreases es.len(),
{
    if es.len() == 0 {
        Seq::empty()
    } else {
        let rest = member_hits(es.drop_last(), current);
        if !es.last().2 && es.last().1 == Some(current) {
            rest.push((es.len() - 1) as usize)
        } else {
            rest
        }
    }
}

/// Some entry is crate `name`.
pub open spec fn name_seen(es: Seq<LockEntry>, name: Seq<char>) -> bool {
    exists|i: int| 0 <= i < es.len() && (#[trigger] es[i]).0 == Some(name)
}

/// The lock text after moving crate `name` from `current` to `new`; an error
/// when the lock has no entry of it at `current`.
pub open spec fn sync_by_name_spec(lock: Seq<char>, shown: Seq<char>, name: Seq<char>, current: Seq<char>, new: Seq<char>) -> Result<
    Seq<char>,
    Seq<char>,
> {
    match cargo_lock_entries_of(lock) {
        Err(e) => Err("failed to parse "@ + shown + ": "@ + e),
        Ok(es) => {
            let h = name_hits(es, name, current);
            if h.len() > 0 {
                Ok(cargo_lock_set_of(lock, h, new))
            } else if name_seen(es, name) {
                Err(shown + " has crate \""@ + name + "\" at a version other than the Cargo.toml current version "@
                    + current + " (version drift)"@)
            } else {
                Err(shown + " has no [[package]] entry for crate \""@ + name + "\""@)
            }
        },
    }
}

/// The lock text after moving the workspace members from `current` to
/// `new`; an error when none is at `current`.
pub open spec fn sync_members_spec(lock: Seq<char>, shown: Seq<char>, current: Seq<char>, new: Seq<char>) -> Result<
    Seq<char>,
    Seq<char>,
> {
    match cargo_lock_entries_of(lock) {
        Err(e) => Err("failed to parse "@ + shown + ": "@ + e),
        Ok(es) => {
            let h = member_hits(es, current);
            if h.len() > 0 {
                Ok(cargo_lock_set_of(lock, h, new))
            } else {
                Err(shown + " has no workspace member entry at version "@ + current + " (version drift)"@)
            }
        },
    }
}

/// The `Cargo.lock` above a manifest: its text and its path as shown.
#[derive(Debug)]
pub struct LockFile {
    pub text: String,
    pub shown: String,
}

/// What updating a Cargo manifest does.
#[derive(Debug)]
pub enum CargoPlan {
    /// Nothing to write.
    Skipped,
    /// The new manifest text, and the new lock text when there is a lock.
    Updated { manifest: String, lock: Option<String> },
}

/// Why a Cargo manifest cannot be updated.
#[derive(Debug)]
pub enum CargoError {
    /// The manifest is not TOML.
    Parse { message: String },
    /// The lock cannot follow.
    Lock { message: String },
}

pub enum CargoErrorV {
    Parse(Seq<char>),
    Lock(Seq<char>),
}

pub open spec fn opt_lock(l: Option<LockFile>) -> Option<(Seq<char>, Seq<char>)> {
    match l {
        Some(f) => Some((f.text@, f.shown@)),
        None => None,
    }
}


/// The plan for a manifest shown as `rel`: the `[package]` version moves
/// (with the crate's lock entries) unless it is already `new`; a manifest
/// without a literal `[package]` version that holds `[workspace.package]`
/// moves that one (with the workspace members' lock entries); otherwise
/// nothing. A manifest that is not TOML, a `[package]` without a name, and a
/// lock that cannot follow are errors, and nothing is written then.
pub open spec fn plan_spec(text: Seq<char>, rel: Seq<char>, current: Seq<char>, new: Seq<char>, lock: Option<(Seq<char>, Seq<char>)>) -> Result<
    Option<(Seq<char>, Option<Seq<char>>)>,
    CargoErrorV,
> {
    match cargo_manifest_of(text) {
        Err(e) => Err(CargoErrorV::Parse("failed to parse "@ + rel + ": "@ + e)),
        Ok((Some(v), n, _)) => if v == new {
            Ok(None)
        } else {
            match n {
                None => Err(CargoErrorV::Lock(rel + " has no [package] name field; cannot sync Cargo.lock by crate name"@)),
                Some(name) => match lock {
                    None => Ok(Some((cargo_package_set_of(text, new), None))),
                    Some((lt, shown)) => match sync_by_name_spec(lt, shown, name, current, new) {
                        Err(m) => Err(CargoErrorV::Lock(m)),
                        Ok(l) => Ok(Some((cargo_package_set_of(text, new), Some(l)))),
                    },
                },
            }
        },
        Ok((None, _, None)) => Ok(None),
        Ok((None, _, Some(w))) => if w == new {
            Ok(None)
        } else {
            match lock {
                None => Ok(Some((cargo_workspace_package_set_of(text, new), None))),
                Some((lt, shown)) => match sync_members_spec(lt, shown, current, new) {
                    Err(m) => Err(CargoErrorV::Lock(m)),
                    Ok(l) => Ok(Some((cargo_workspace_package_set_of(text, new), Some(l)))),
                },
            }
        },
    }
}

fn usize_seq_prefix(h: &Vec<usize>) -> (r: Vec<usize>)
    ensures
        r@ == h@,
{
    let mut r: Vec<usize> = Vec::new();
    let mut i: usize = 0;
    while i < h.len()
        invariant
            i <= h@.len(),
            r@ == h@.subrange(0, i as int),
        decreases h.len() - i,
    {
        r.push(h[i]);
        assert(h@.subrange(0, i + 1) =~= h@.subrange(0, i as int).push(h@[i as int]));
        i = i + 1;
    }
    assert(h@.subrange(0, h@.len() as int) =~= h@);
    r
}

fn opt_eq(o: &Option<String>, s: &str) -> (r: bool)
    ensures
        r == (opt_text(*o) == Some(s@)),
{
    match o {
        Some(x) => str_eq(x.as_str(), s),
        None => false,
    }
}

fn sync_lock(lock: &LockFile, name: Option<&str>, current: &str, new: &str) -> (r: Result<String, String>)
    ensures
        match name {
            Some(n) => match sync_by_name_spec(lock.text@, lock.shown@, n@, current@, new@) {
                Ok(t) => r matches Ok(x) && x@ == t,
                Err(m) => r matches Err(x) && x@ == m,
            },
            None => match sync_members_spec(lock.text@, lock.shown@, current@, new@) {
                Ok(t) => r matches Ok(x) && x@ == t,
                Err(m) => r matches Err(x) && x@ == m,
            },
        },
{
    let es = match lock_entries(lock.text.as_str()) {
        Ok(es) => es,
        Err(e) => {
            let mut m = owned("failed to parse ");
            push_str(&mut m, lock.shown.as_str());
            push_str(&mut m, ": ");
            push_str(&mut m, e.as_str());
            return Err(m);
        },
    };
    let ghost ev = es@.map_values(|e: (Option<String>, Option<String>, bool)| (opt_text(e.0), opt_text(e.1), e.2));
    let mut hits: Vec<usize> = Vec::new();
    let mut seen = false;
    let mut i: usize = 0;
    while i < es.len()
        invariant
            i <= es@.len(),
            ev == es@.map_values(|e: (Option<String>, Option<String>, bool)| (opt_text(e.0), opt_text(e.1), e.2)),
            match name {
                Some(n) => hits@ == name_hits(ev.subrange(0, i as int), n@, current@)
                    && seen == name_seen(ev.subrange(0, i as int), n@),
                None => hits@ == member_hits(ev.subrange(0, i as int), current@),
            },
        decreases es.len() - i,
    {
        let ghost pre = ev.subrange(0, i + 1);
        assert(pre.drop_last() =~= ev.subrange(0, i as int));
        assert(pre.last() == ev[i as int]);
        let at_current = opt_eq(&es[i].1, current);
        match name {
            Some(n) => {
                let named = opt_eq(&es[i].0, n);
                if named && at_current {
                    hits.push(i);
                }
                proof {
                    if named {
                        assert(pre[i as int].0 == Some(n@));
                    } else {
                        assert forall|k: int| 0 <= k < pre.len() && (#[trigger] pre[k]).0 == Some(n@) implies k < i by {}
                        if name_seen(pre, n@) {
                            let k = choose|k: int| 0 <= k < pre.len() && (#[trigger] pre[k]).0 == Some(n@);
                            assert(ev.subrange(0, i as int)[k] == pre[k]);
                        }
                    }
                    if name_seen(ev.subrange(0, i as int), n@) {
                        let k = choose|k: int| 0 <= k < i && (#[trigger] ev.subrange(0, i as int)[k]).0 == Some(n@);
                        assert(pre[k] == ev.subrange(0, i as int)[k]);
                    }
                }
                seen = seen || named;
            },
            None => {
                if !es[i].2 && at_current {
                    hits.push(i);
                }
            },
        }
        i = i + 1;
    }
    assert(ev.subrange(0, es@.len() as int) =~= ev);
    if hits.len() > 0 {
        let idx = usize_seq_prefix(&hits);
        return Ok(lock_with_versions(lock.text.as_str(), &idx, new));
    }
    match name {
        Some(n) => {
            let mut m = owned(lock.shown.as_str());
            if seen {
                push_str(&mut m, " has crate \"");
                push_str(&mut m, n);
                push_str(&mut m, "\" at a version other than the Cargo.toml current version ");
                push_str(&mut m, current);
                push_str(&mut m, " (version drift)");
            } else {
                push_str(&mut m, " has no [[package]] entry for crate \"");
                push_str(&mut m, n);
                push_str(&mut m, "\"");
            }
            Err(m)
        },
        None => {
            let mut m = owned(lock.shown.as_str());
            push_str(&mut m, " has no workspace member entry at version ");
            push_str(&mut m, current);
            push_str(&mut m, " (version drift)");
            Err(m)
        },
    }
}

impl CargoError {
    pub open spec fn view(&self) -> CargoErrorV {
        match self {
            CargoError::Parse { message } => CargoErrorV::Parse(message@),
            CargoError::Lock { message } => CargoErrorV::Lock(message@),
        }
    }
}

/// The update of a Cargo manifest (see `plan_spec`); `lock` is the
/// `Cargo.lock` found from the manifest's directory up, when there is one.
pub fn plan_manifest(text: &str, rel: &str, current: &str, new: &str, lock: Option<LockFile>) -> (r: Result<CargoPlan, CargoError>)
    ensures
        match plan_spec(text@, rel@, current@, new@, opt_lock(lock)) {
            Ok(None) => r matches Ok(CargoPlan::Skipped),
            Ok(Some((m, l))) => r matches Ok(CargoPlan::Updated { manifest, lock }) && manifest@ == m && opt_text(lock) == l,
            Err(e) => r matches Err(x) && x.view() == e,
        },
{
    let facts = match manifest_facts(text) {
        Ok(f) => f,
        Err(e) => {
            let mut m = owned("failed to parse ");
            push_str(&mut m, rel);
            push_str(&mut m, ": ");
            push_str(&mut m, e.as_str());
            return Err(CargoError::Parse { message: m });
        },
    };
    let (pv, pn, wv) = facts;
    let (workspace, name): (bool, Option<String>) = match pv {
        Some(v) => {
            if str_eq(v.as_str(), new) {
                return Ok(CargoPlan::Skipped);
            }
            match pn {
                None => {
                    let mut m = owned(rel);
                    push_str(&mut m, " has no [package] name field; cannot sync Cargo.lock by crate name");
                    return Err(CargoError::Lock { message: m });
                },
                Some(n) => (false, Some(n)),
            }
        },
        None => match wv {
            None => return Ok(CargoPlan::Skipped),
            Some(w) => {
                if str_eq(w.as_str(), new) {
                    return Ok(CargoPlan::Skipped);
                }
                (true, None)
            },
        },
    };
    let synced = match &lock {
        None => None,
        Some(l) => match sync_lock(l, match &name {
            Some(n) => Some(n.as_str()),
            None => None,
        }, current, new) {
            Ok(t) => Some(t),
            Err(m) => return Err(CargoError::Lock { message: m }),
        },
    };
    let manifest = if workspace {
        workspace_package_with_version(text, new)
    } else {
        package_with_version(text, new)
    };
    Ok(CargoPlan::Updated { manifest, lock: synced })
}

} // verus!
