//! The typed shape of a configuration file (every field optional: absence
//! means "not declared"; defaults belong to the merge). The edge fills it
//! with serde from each configuration file and reports type errors with
//! their key paths.

use vstd::prelude::*;
use crate::bump::opt_view;
use crate::json::{get_member, obj_get, Json};
use crate::text::{owned, push_str};

verus! {

/// `boolean | string` (the `commit` and `tag` keys).
#[derive(Debug, Clone, PartialEq, Eq)]
pub enum BoolOrString {
    Bool(bool),
    Str(String),
}

/// The `scripts` section: one shell command per phase.
#[derive(Debug, Clone, Default, PartialEq, Eq)]
pub struct ScriptsSection {
    /// Before the version files are updated.
    pub preversion: Option<String>,
    /// After the files are updated, before commit and tag.
    pub version: Option<String>,
    /// After commit and tag, before push.
    pub postversion: Option<String>,
}

/// The `gitlab` section.
#[derive(Debug, Clone, Default, PartialEq, Eq)]
pub struct GitlabSection {
    /// Base URL of a self-hosted instance.
    pub host: Option<String>,
}

/// The `changelog.templates` section.
#[derive(Debug, Clone, Default, PartialEq, Eq)]
pub struct TemplatesSection {
    /// The version heading (`{{newVersion}}` is replaced).
    pub tag_body: Option<String>,
}

/// One value of `changelog.types`: `false` (hide the group) or an entry object.
#[derive(Debug, Clone, PartialEq, Eq)]
pub enum TypesValue {
    Bool(bool),
    Entry,
}

/// `changelog.repo`: `owner/repo` shorthand or an explicit object.
#[derive(Debug, Clone, PartialEq, Eq)]
pub enum RepoValue {
    Short(String),
    Explicit { provider: Option<String>, domain: Option<String>, repo: Option<String> },
}

/// The `changelog` section.
#[derive(Debug, Clone, Default, PartialEq, Eq)]
pub struct ChangelogSection {
    pub output: Option<String>,
    /// Commit type → group value, in the file's order.
    pub types: Option<Vec<(String, Option<TypesValue>)>>,
    pub repo: Option<RepoValue>,
    /// Scope → display name.
    pub scope_map: Option<Vec<(String, String)>>,
    pub no_authors: Option<bool>,
    pub hide_author_email: Option<bool>,
    pub exclude_authors: Option<Vec<String>>,
    pub templates: Option<TemplatesSection>,
    pub commit_message: Option<String>,
}

/// The configuration's shape (nineteen keys and `$schema`).
#[derive(Debug, Clone, Default, PartialEq, Eq)]
pub struct BumpConfig {
    pub schema: Option<String>,
    pub all: Option<bool>,
    pub changelog: Option<ChangelogSection>,
    pub commit: Option<BoolOrString>,
    pub confirm: Option<bool>,
    pub current_version: Option<String>,
    pub execute: Option<String>,
    pub files: Option<Vec<String>>,
    pub gitlab: Option<GitlabSection>,
    pub ignore_scripts: Option<bool>,
    pub install: Option<bool>,
    pub no_git_check: Option<bool>,
    pub skip_hooks: Option<bool>,
    pub preid: Option<String>,
    pub push: Option<bool>,
    pub recursive: Option<bool>,
    pub release: Option<String>,
    pub scripts: Option<ScriptsSection>,
    pub sign: Option<bool>,
    pub tag: Option<BoolOrString>,
}

/// The message for a `commit` / `tag` value of another type.
pub open spec fn bool_or_string_message() -> Seq<char> {
    "must be a boolean or a string"@
}

/// A `commit` / `tag` value: a boolean, or a string carrying a custom value.
pub fn bool_or_string_of(j: &Json) -> (r: Result<BoolOrString, String>)
    ensures
        match *j {
            Json::Bool(b) => r matches Ok(BoolOrString::Bool(x)) && x == b,
            Json::Str(t) => r matches Ok(BoolOrString::Str(x)) && x@ == t@,
            _ => r matches Err(m) && m@ == bool_or_string_message(),
        },
{
    match j {
        Json::Bool(b) => Ok(BoolOrString::Bool(*b)),
        Json::Str(t) => Ok(BoolOrString::Str(owned(t.as_str()))),
        _ => Err(owned("must be a boolean or a string")),
    }
}

/// The message for a malformed `excludeScopes`.
pub open spec fn exclude_scopes_message() -> Seq<char> {
    "excludeScopes must be an array of non-empty strings"@
}

/// The message for a `changelog.types` value that is neither `false` nor an object.
pub open spec fn types_value_message() -> Seq<char> {
    "must be false or an object { \"title\": string, \"excludeScopes\": string[] }"@
}

/// Every item is a non-empty string.
pub open spec fn scopes_ok(items: Seq<Json>) -> bool {
    forall|i: int| 0 <= i < items.len() ==> (#[trigger] items[i] matches Json::Str(t) && t@.len() > 0)
}

/// What a `changelog.types` value reads as: a boolean as it is; an object
/// whose `title` (when present) is a string and whose `excludeScopes` (when
/// present) is an array of non-empty strings as an entry; else the message.
pub open spec fn types_value_spec(j: Json) -> Result<TypesValue, Seq<char>> {
    match j {
        Json::Bool(b) => Ok(TypesValue::Bool(b)),
        Json::Object(m) => if (match obj_get(m@, "title"@) {
            Some(t) => !(t is Str),
            None => false,
        }) {
            Err("title must be a string"@)
        } else {
            match obj_get(m@, "excludeScopes"@) {
                Some(Json::Array(items)) => if scopes_ok(items@) {
                    Ok(TypesValue::Entry)
                } else {
                    Err(exclude_scopes_message())
                },
                Some(_) => Err(exclude_scopes_message()),
                None => Ok(TypesValue::Entry),
            }
        },
        _ => Err(types_value_message()),
    }
}

fn scopes_ok_exec(items: &Vec<Json>) -> (r: bool)
    ensures
        r == scopes_ok(items@),
{
    let mut i: usize = 0;
    while i < items.len()
        invariant
            i <= items@.len(),
            forall|k: int| 0 <= k < i ==> (#[trigger] items@[k] matches Json::Str(t) && t@.len() > 0),
        decreases items.len() - i,
    {
        match &items[i] {
            Json::Str(t) => {
                if t.unicode_len() == 0 {
                    return false;
                }
            },
            _ => {
                return false;
            },
        }
        i = i + 1;
    }
    true
}

/// A `changelog.types` value (see `types_value_spec`).
pub fn types_value_of(j: &Json) -> (r: Result<TypesValue, String>)
    ensures
        match types_value_spec(*j) {
            Ok(v) => r == Ok::<TypesValue, String>(v),
            Err(m) => r matches Err(x) && x@ == m,
        },
{
    proof {
        reveal_strlit("title");
        reveal_strlit("excludeScopes");
    }
    match j {
        Json::Bool(b) => Ok(TypesValue::Bool(*b)),
        Json::Object(m) => {
            match get_member(m, "title") {
                Some(Json::Str(_)) => {},
                Some(_) => {
                    return Err(owned("title must be a string"));
                },
                None => {},
            }
            match get_member(m, "excludeScopes") {
                Some(Json::Array(items)) => {
                    if scopes_ok_exec(items) {
                        Ok(TypesValue::Entry)
                    } else {
                        Err(owned("excludeScopes must be an array of non-empty strings"))
                    }
                },
                Some(_) => Err(owned("excludeScopes must be an array of non-empty strings")),
                None => Ok(TypesValue::Entry),
            }
        },
        _ => Err(owned("must be false or an object { \"title\": string, \"excludeScopes\": string[] }")),
    }
}

/// What an optional string member of a `changelog.repo` object reads as:
/// absent or `null` is none, a string is itself, else `<key> must be a string`.
pub open spec fn repo_member_spec(m: Seq<(String, Json)>, key: Seq<char>) -> Result<Option<Seq<char>>, Seq<char>> {
    match obj_get(m, key) {
        None => Ok(None),
        Some(Json::Null) => Ok(None),
        Some(Json::Str(t)) => Ok(Some(t@)),
        Some(_) => Err(key + " must be a string"@),
    }
}

fn repo_member(m: &Vec<(String, Json)>, key: &str) -> (r: Result<Option<String>, String>)
    ensures
        match repo_member_spec(m@, key@) {
            Ok(v) => r matches Ok(x) && opt_view(x) == v,
            Err(e) => r matches Err(x) && x@ == e,
        },
{
    match get_member(m, key) {
        None => Ok(None),
        Some(Json::Null) => Ok(None),
        Some(Json::Str(t)) => Ok(Some(owned(t.as_str()))),
        Some(_) => {
            let mut e = owned(key);
            push_str(&mut e, " must be a string");
            Err(e)
        },
    }
}

/// The message for a `changelog.repo` value of another type.
pub open spec fn repo_value_message() -> Seq<char> {
    "must be a string or an object"@
}

/// A `changelog.repo` value: the `owner/repo` shorthand, or an object whose
/// `provider`, `domain` and `repo` (checked in that order) are strings when
/// given.
pub fn repo_value_of(j: &Json) -> (r: Result<RepoValue, String>)
    ensures
        match *j {
            Json::Str(t) => r matches Ok(RepoValue::Short(x)) && x@ == t@,
            Json::Object(m) => match (
                repo_member_spec(m@, "provider"@),
                repo_member_spec(m@, "domain"@),
                repo_member_spec(m@, "repo"@),
            ) {
                (Err(e), _, _) => r matches Err(x) && x@ == e,
                (Ok(_), Err(e), _) => r matches Err(x) && x@ == e,
                (Ok(_), Ok(_), Err(e)) => r matches Err(x) && x@ == e,
                (Ok(p), Ok(d), Ok(q)) => r matches Ok(RepoValue::Explicit { provider, domain, repo }) && opt_view(
                    provider,
                ) == p && opt_view(domain) == d && opt_view(repo) == q,
            },
            _ => r matches Err(x) && x@ == repo_value_message(),
        },
{
    match j {
        Json::Str(t) => Ok(RepoValue::Short(owned(t.as_str()))),
        Json::Object(m) => {
            let provider = repo_member(m, "provider")?;
            let domain = repo_member(m, "domain")?;
            let repo = repo_member(m, "repo")?;
            Ok(RepoValue::Explicit { provider, domain, repo })
        },
        _ => Err(owned("must be a string or an object")),
    }
}

} // verus!
