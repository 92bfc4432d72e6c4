//! The changelog section of the configuration, resolved: built-in defaults,
//! then the file's section, then the overrides. `types` merge key by key
//! (`false` removes a group); every other key is replaced whole; `null`
//! values are skipped. Unknown keys, legacy keys and runtime arguments are
//! refused with the key named.

use vstd::prelude::*;
use crate::cli::parse::texts;
use crate::json::{get_member, obj_get, Json, JsonObject};
use crate::text::{extend_str, lit, str_eq, string_of};

verus! {

/// A changelog group: its heading and the commit scopes it leaves out.
#[derive(Debug)]
pub struct ChangelogTypeEntry {
    pub title: String,
    /// Scopes whose non-breaking commits are left out (exact match on the
    /// scope as written).
    pub exclude_scopes: Vec<String>,
}

/// The repository links point to.
#[derive(Debug)]
pub struct RepoConfig {
    pub provider: Option<String>,
    pub domain: Option<String>,
    pub repo: Option<String>,
}

/// The resolved changelog configuration (the range comes with each run).
#[derive(Debug)]
pub struct ChangelogConfig {
    pub output: String,
    /// Groups in declaration order (the order of the markdown sections).
    pub types: Vec<(String, ChangelogTypeEntry)>,
    pub repo: Option<RepoConfig>,
    /// An `owner/repo` shorthand given as `repo`, still to be resolved
    /// against the git remote.
    pub repo_short: Option<String>,
    pub scope_map: Vec<(String, String)>,
    pub no_authors: bool,
    pub hide_author_email: bool,
    pub exclude_authors: Vec<String>,
    /// The version heading template (`{{newVersion}}`).
    pub tag_body: String,
    /// The changelog commit message template (`{{output}}`).
    pub commit_message: String,
}

/// Abstract group entry.
#[verifier::ext_equal]
pub struct EntryV {
    pub title: Seq<char>,
    pub exclude_scopes: Seq<Seq<char>>,
}

/// Abstract repository.
#[verifier::ext_equal]
pub struct RepoV {
    pub provider: Option<Seq<char>>,
    pub domain: Option<Seq<char>>,
    pub repo: Option<Seq<char>>,
}

/// Abstract configuration.
#[verifier::ext_equal]
pub struct ConfigV {
    pub output: Seq<char>,
    pub types: Seq<(Seq<char>, EntryV)>,
    pub repo: Option<RepoV>,
    pub repo_short: Option<Seq<char>>,
    pub scope_map: Seq<(Seq<char>, Seq<char>)>,
    pub no_authors: bool,
    pub hide_author_email: bool,
    pub exclude_authors: Seq<Seq<char>>,
    pub tag_body: Seq<char>,
    pub commit_message: Seq<char>,
}

pub open spec fn opt_text(o: Option<String>) -> Option<Seq<char>> {
    crate::cli::parse::opt_text(o)
}

impl RepoConfig {
    pub open spec fn view(&self) -> RepoV {
        RepoV {
            provider: opt_text(self.provider),
            domain: opt_text(self.domain),
            repo: opt_text(self.repo),
        }
    }
}

pub open spec fn entries_view(s: Seq<(String, ChangelogTypeEntry)>) -> Seq<(Seq<char>, EntryV)> {
    s.map_values(
        |p: (String, ChangelogTypeEntry)|
            (p.0@, EntryV { title: p.1.title@, exclude_scopes: texts(p.1.exclude_scopes@) }),
    )
}

pub open spec fn pairs_view(s: Seq<(String, String)>) -> Seq<(Seq<char>, Seq<char>)> {
    s.map_values(|p: (String, String)| (p.0@, p.1@))
}

impl ChangelogConfig {
    pub open spec fn view(&self) -> ConfigV {
        ConfigV {
            output: self.output@,
            types: entries_view(self.types@),
            repo: match self.repo {
                Some(r) => Some(r.view()),
                None => None,
            },
            repo_short: opt_text(self.repo_short),
            scope_map: pairs_view(self.scope_map@),
            no_authors: self.no_authors,
            hide_author_email: self.hide_author_email,
            exclude_authors: texts(self.exclude_authors@),
            tag_body: self.tag_body@,
            commit_message: self.commit_message@,
        }
    }
}

/// The built-in groups, in order, with their headings.
pub open spec fn default_types() -> Seq<(Seq<char>, EntryV)> {
    seq![
        ("feat"@, EntryV { title: "🚀 Enhancements"@, exclude_scopes: seq![] }),
        ("perf"@, EntryV { title: "🔥 Performance"@, exclude_scopes: seq![] }),
        ("fix"@, EntryV { title: "🩹 Fixes"@, exclude_scopes: seq![] }),
        ("refactor"@, EntryV { title: "💅 Refactors"@, exclude_scopes: seq![] }),
        ("examples"@, EntryV { title: "🏀 Examples"@, exclude_scopes: seq![] }),
        ("docs"@, EntryV { title: "📖 Documentation"@, exclude_scopes: seq![] }),
        ("chore"@, EntryV { title: "🏡 Chore"@, exclude_scopes: seq!["deps"@] }),
        ("build"@, EntryV { title: "📦 Build"@, exclude_scopes: seq![] }),
        ("test"@, EntryV { title: "✅ Tests"@, exclude_scopes: seq![] }),
        ("BreakingChange"@, EntryV { title: "🚨 Breaking Changes"@, exclude_scopes: seq![] }),
        ("style"@, EntryV { title: "🎨 Styles"@, exclude_scopes: seq![] }),
    ]
}

/// The built-in configuration.
pub open spec fn defaults_spec() -> ConfigV {
    ConfigV {
        output: "CHANGELOG.md"@,
        types: default_types(),
        repo: None,
        repo_short: None,
        scope_map: seq![],
        no_authors: false,
        hide_author_email: true,
        exclude_authors: seq![],
        tag_body: "v{{newVersion}}"@,
        commit_message: "chore: update {{output}}"@,
    }
}

fn entry(name: &str, title: &str) -> (r: (String, ChangelogTypeEntry))
    ensures
        r.0@ == name@,
        r.1.title@ == title@,
        r.1.exclude_scopes@.len() == 0,
{
    (string_of(&lit(name)), ChangelogTypeEntry { title: string_of(&lit(title)), exclude_scopes: Vec::new() })
}

/// The built-in configuration (see `defaults_spec`).
pub fn defaults() -> (c: ChangelogConfig)
    ensures
        c.view() == defaults_spec(),
{
    let mut types: Vec<(String, ChangelogTypeEntry)> = Vec::new();
    types.push(entry("feat", "🚀 Enhancements"));
    types.push(entry("perf", "🔥 Performance"));
    types.push(entry("fix", "🩹 Fixes"));
    types.push(entry("refactor", "💅 Refactors"));
    types.push(entry("examples", "🏀 Examples"));
    types.push(entry("docs", "📖 Documentation"));
    let mut chore_excludes: Vec<String> = Vec::new();
    chore_excludes.push(string_of(&lit("deps")));
    types.push(
        (
            string_of(&lit("chore")),
            ChangelogTypeEntry { title: string_of(&lit("🏡 Chore")), exclude_scopes: chore_excludes },
        ),
    );
    types.push(entry("build", "📦 Build"));
    types.push(entry("test", "✅ Tests"));
    types.push(entry("BreakingChange", "🚨 Breaking Changes"));
    types.push(entry("style", "🎨 Styles"));
    let c = ChangelogConfig {
        output: string_of(&lit("CHANGELOG.md")),
        types,
        repo: None,
        repo_short: None,
        scope_map: Vec::new(),
        no_authors: false,
        hide_author_email: true,
        exclude_authors: Vec::new(),
        tag_body: string_of(&lit("v{{newVersion}}")),
        commit_message: string_of(&lit("chore: update {{output}}")),
    };
    assert(texts(c.types@[6].1.exclude_scopes@) =~= seq!["deps"@]);
    assert(c.view().types =~~= default_types());
    assert(c.view().scope_map =~= Seq::<(Seq<char>, Seq<char>)>::empty());
    assert(c.view().exclude_authors =~= Seq::<Seq<char>>::empty());
    c
}

/// What a changelog configuration error says.
#[derive(Debug)]
pub enum ChangelogConfigError {
    Schema { message: String },
}

impl ChangelogConfigError {
    pub open spec fn message_view(&self) -> Seq<char> {
        match self {
            ChangelogConfigError::Schema { message } => message@,
        }
    }

    /// The user-facing text of the error.
    pub fn message(&self) -> (r: &String)
        ensures
            r@ == self.message_view(),
    {
        match self {
            ChangelogConfigError::Schema { message } => message,
        }
    }
}

/// A schema message with its prefix.
pub open spec fn schema_msg(m: Seq<char>) -> Seq<char> {
    "changelog config: "@ + m
}

fn schema(m: Vec<char>) -> (e: ChangelogConfigError)
    ensures
        e.message_view() == schema_msg(m@),
{
    let mut s = lit("changelog config: ");
    crate::text::extend_chars(&mut s, &m);
    ChangelogConfigError::Schema { message: string_of(&s) }
}

pub open spec fn must_be(key: Seq<char>, what: Seq<char>) -> Seq<char> {
    schema_msg("\""@ + key + "\" must be "@ + what)
}

fn must_be_exec(key: &Vec<char>, what: &str) -> (e: ChangelogConfigError)
    ensures
        e.message_view() == must_be(key@, what@),
{
    let mut m = lit("\"");
    crate::text::extend_chars(&mut m, key);
    extend_str(&mut m, "\" must be ");
    extend_str(&mut m, what);
    schema(m)
}

/// The strings of a JSON array, or the error for `key`.
pub open spec fn string_array(key: Seq<char>, v: Json) -> Result<Seq<Seq<char>>, Seq<char>> {
    match v {
        Json::Array(items) => if forall|i: int| 0 <= i < items@.len() ==> #[trigger] items@[i] is Str {
            Ok(items@.map_values(|j: Json| j->Str_0@))
        } else {
            Err(schema_msg("\""@ + key + "\" array items must be strings"@))
        },
        _ => Err(must_be(key, "an array"@)),
    }
}

fn string_array_exec(key: &Vec<char>, v: &Json) -> (r: Result<Vec<String>, ChangelogConfigError>)
    ensures
        match string_array(key@, *v) {
            Ok(s) => r is Ok && texts(r->Ok_0@) == s,
            Err(m) => r is Err && r->Err_0.message_view() == m,
        },
{
    match v {
        Json::Array(items) => {
            let mut out: Vec<String> = Vec::new();
            let mut i: usize = 0;
            while i < items.len()
                invariant
                    i <= items@.len(),
                    *v is Array,
                    v->Array_0@ == items@,
                    forall|k: int| 0 <= k < i ==> #[trigger] items@[k] is Str,
                    texts(out@) == items@.subrange(0, i as int).map_values(|j: Json| j->Str_0@),
                decreases items.len() - i,
            {
                match &items[i] {
                    Json::Str(s) => {
                        let ghost before = out@;
                        let x = s.clone();
                        out.push(x);
                        assert(texts(out@) =~= texts(before).push(x@));
                        assert(items@[i as int]->Str_0@ == x@);
                        assert(items@.subrange(0, i + 1).map_values(|j: Json| j->Str_0@)
                            =~= items@.subrange(0, i as int).map_values(|j: Json| j->Str_0@).push(
                            items@[i as int]->Str_0@,
                        ));
                        assert(texts(out@) =~= items@.subrange(0, i + 1).map_values(
                            |j: Json| j->Str_0@,
                        ));
                    },
                    _ => {
                        let mut m = lit("\"");
                        crate::text::extend_chars(&mut m, key);
                        extend_str(&mut m, "\" array items must be strings");
                        return Err(schema(m));
                    },
                }
                i = i + 1;
            }
            assert(items@.subrange(0, items@.len() as int) =~= items@);
            Ok(out)
        },
        _ => Err(must_be_exec(key, "an array")),
    }
}


/// The string values of a JSON object, in order, or the error naming the
/// first member that is no string.
pub open spec fn string_map_from(key: Seq<char>, m: Seq<(String, Json)>, i: int) -> Result<
    Seq<(Seq<char>, Seq<char>)>,
    Seq<char>,
>
    decreases m.len() - i,
{
    if i < 0 || i >= m.len() {
        Ok(Seq::empty())
    } else {
        match m[i].1 {
            Json::Str(v) => match string_map_from(key, m, i + 1) {
                Ok(rest) => Ok(seq![(m[i].0@, v@)] + rest),
                Err(e) => Err(e),
            },
            _ => Err(schema_msg("\""@ + key + "."@ + m[i].0@ + "\" must be a string"@)),
        }
    }
}

pub open spec fn string_map(key: Seq<char>, v: Json) -> Result<Seq<(Seq<char>, Seq<char>)>, Seq<char>> {
    match v {
        Json::Object(m) => string_map_from(key, m@, 0),
        _ => Err(must_be(key, "an object"@)),
    }
}

fn string_map_exec(key: &Vec<char>, v: &Json) -> (r: Result<Vec<(String, String)>, ChangelogConfigError>)
    ensures
        match string_map(key@, *v) {
            Ok(s) => r is Ok && pairs_view(r->Ok_0@) == s,
            Err(m) => r is Err && r->Err_0.message_view() == m,
        },
{
    match v {
        Json::Object(m) => {
            let mut out: Vec<(String, String)> = Vec::new();
            let mut i: usize = 0;
            while i < m.len()
                invariant
                    i <= m@.len(),
                    *v is Object,
                    v->Object_0@ == m@,
                    string_map_from(key@, m@, 0) == match string_map_from(key@, m@, i as int) {
                        Ok(rest) => Ok(pairs_view(out@) + rest),
                        Err(e) => Err(e),
                    },
                decreases m.len() - i,
            {
                match &m[i].1 {
                    Json::Str(x) => {
                        let ghost before = out@;
                        let p = (m[i].0.clone(), x.clone());
                        out.push(p);
                        assert(pairs_view(out@) =~= pairs_view(before).push((m@[i as int].0@, x@)));
                        proof {
                            match string_map_from(key@, m@, i + 1) {
                                Ok(rest) => {
                                    assert(pairs_view(before) + (seq![(m@[i as int].0@, x@)] + rest)
                                        =~= pairs_view(out@) + rest);
                                },
                                Err(_) => {},
                            }
                        }
                    },
                    _ => {
                        let mut msg = lit("\"");
                        crate::text::extend_chars(&mut msg, key);
                        extend_str(&mut msg, ".");
                        extend_str(&mut msg, m[i].0.as_str());
                        extend_str(&mut msg, "\" must be a string");
                        return Err(schema(msg));
                    },
                }
                i = i + 1;
            }
            assert(pairs_view(out@) + Seq::<(Seq<char>, Seq<char>)>::empty() =~= pairs_view(out@));
            Ok(out)
        },
        _ => Err(must_be_exec(key, "an object")),
    }
}

/// What `repo` gives: an `owner/repo` shorthand or an explicit repository.
pub enum RepoSettingV {
    Short(Seq<char>),
    Explicit(RepoV),
}

/// The explicit repository object from member `i` on.
pub open spec fn repo_from(m: Seq<(String, Json)>, i: int, r: RepoV) -> Result<RepoV, Seq<char>>
    decreases m.len() - i,
{
    if i < 0 || i >= m.len() {
        Ok(r)
    } else if m[i].1 is Null {
        repo_from(m, i + 1, r)
    } else if !(m[i].1 is Str) {
        Err(must_be("repo."@ + m[i].0@, "a string"@))
    } else {
        let f = m[i].1->Str_0@;
        if m[i].0@ == "provider"@ {
            repo_from(m, i + 1, RepoV { provider: Some(f), ..r })
        } else if m[i].0@ == "domain"@ {
            repo_from(m, i + 1, RepoV { domain: Some(f), ..r })
        } else if m[i].0@ == "repo"@ {
            repo_from(m, i + 1, RepoV { repo: Some(f), ..r })
        } else {
            Err(schema_msg(
                "repo contains unsupported key \""@ + m[i].0@
                    + "\": only provider / domain / repo are supported"@,
            ))
        }
    }
}

pub open spec fn parse_repo_spec(v: Json) -> Result<RepoSettingV, Seq<char>> {
    match v {
        Json::Str(s) => Ok(RepoSettingV::Short(s@)),
        Json::Object(m) => match repo_from(m@, 0, RepoV { provider: None, domain: None, repo: None }) {
            Ok(r) => Ok(RepoSettingV::Explicit(r)),
            Err(e) => Err(e),
        },
        _ => Err(schema_msg("\"repo\" must be a string or an object"@)),
    }
}

/// What `repo` gives.
pub enum RepoSetting {
    Short(String),
    Explicit(RepoConfig),
}

impl RepoSetting {
    pub open spec fn view(&self) -> RepoSettingV {
        match self {
            RepoSetting::Short(s) => RepoSettingV::Short(s@),
            RepoSetting::Explicit(c) => RepoSettingV::Explicit(c.view()),
        }
    }
}

fn parse_repo(v: &Json) -> (r: Result<RepoSetting, ChangelogConfigError>)
    ensures
        match parse_repo_spec(*v) {
            Ok(x) => r is Ok && r->Ok_0.view() == x,
            Err(m) => r is Err && r->Err_0.message_view() == m,
        },
{
    match v {
        Json::Str(s) => Ok(RepoSetting::Short(s.clone())),
        Json::Object(m) => {
            let mut repo = RepoConfig { provider: None, domain: None, repo: None };
            let mut i: usize = 0;
            while i < m.len()
                invariant
                    i <= m@.len(),
                    *v is Object,
                    v->Object_0@ == m@,
                    repo_from(m@, 0, RepoV { provider: None, domain: None, repo: None }) == repo_from(
                        m@,
                        i as int,
                        repo.view(),
                    ),
                decreases m.len() - i,
            {
                let key = &m[i].0;
                match &m[i].1 {
                    Json::Null => {},
                    Json::Str(f) => {
                        if str_eq(key.as_str(), "provider") {
                            repo.provider = Some(f.clone());
                        } else if str_eq(key.as_str(), "domain") {
                            repo.domain = Some(f.clone());
                        } else if str_eq(key.as_str(), "repo") {
                            repo.repo = Some(f.clone());
                        } else {
                            let mut msg = lit("repo contains unsupported key \"");
                            extend_str(&mut msg, key.as_str());
                            extend_str(&mut msg, "\": only provider / domain / repo are supported");
                            return Err(schema(msg));
                        }
                    },
                    _ => {
                        let mut k = lit("repo.");
                        extend_str(&mut k, key.as_str());
                        return Err(must_be_exec(&k, "a string"));
                    },
                }
                i = i + 1;
            }
            Ok(RepoSetting::Explicit(repo))
        },
        _ => Err(schema(lit("\"repo\" must be a string or an object"))),
    }
}


/// The templates object from member `i` on: the `tagBody` to use.
pub open spec fn templates_from(m: Seq<(String, Json)>, i: int, tag_body: Seq<char>) -> Result<Seq<char>, Seq<char>>
    decreases m.len() - i,
{
    if i < 0 || i >= m.len() {
        Ok(tag_body)
    } else if m[i].1 is Null {
        templates_from(m, i + 1, tag_body)
    } else if m[i].0@ == "tagBody"@ {
        match m[i].1 {
            Json::Str(t) => templates_from(m, i + 1, t@),
            _ => Err(must_be("templates.tagBody"@, "a string"@)),
        }
    } else if m[i].0@ == "commitMessage"@ || m[i].0@ == "tagMessage"@ {
        Err(schema_msg(
            "templates."@ + m[i].0@
                + " was removed in the rewrite (changelogen's own bump-specific key; this implementation's commit message key is the changelog section's top-level commitMessage)"@,
        ))
    } else {
        Err(schema_msg(
            "templates contains unsupported key \""@ + m[i].0@ + "\": only tagBody is supported"@,
        ))
    }
}

pub open spec fn templates_spec(v: Json, tag_body: Seq<char>) -> Result<Seq<char>, Seq<char>> {
    match v {
        Json::Object(m) => templates_from(m@, 0, tag_body),
        _ => Err(schema_msg("\"templates\" must be an object"@)),
    }
}

fn apply_templates(v: &Json, tag_body: String) -> (r: Result<String, ChangelogConfigError>)
    ensures
        match templates_spec(*v, tag_body@) {
            Ok(t) => r is Ok && r->Ok_0@ == t,
            Err(m) => r is Err && r->Err_0.message_view() == m,
        },
{
    match v {
        Json::Object(m) => {
            let mut tb = tag_body;
            let mut i: usize = 0;
            while i < m.len()
                invariant
                    i <= m@.len(),
                    *v is Object,
                    v->Object_0@ == m@,
                    templates_from(m@, 0, tag_body@) == templates_from(m@, i as int, tb@),
                decreases m.len() - i,
            {
                let key = &m[i].0;
                match &m[i].1 {
                    Json::Null => {},
                    value => {
                        if str_eq(key.as_str(), "tagBody") {
                            match value {
                                Json::Str(t) => {
                                    tb = t.clone();
                                },
                                _ => {
                                    return Err(must_be_exec(&lit("templates.tagBody"), "a string"));
                                },
                            }
                        } else if str_eq(key.as_str(), "commitMessage") || str_eq(
                            key.as_str(),
                            "tagMessage",
                        ) {
                            let mut msg = lit("templates.");
                            extend_str(&mut msg, key.as_str());
                            extend_str(
                                &mut msg,
                                " was removed in the rewrite (changelogen's own bump-specific key; this implementation's commit message key is the changelog section's top-level commitMessage)",
                            );
                            return Err(schema(msg));
                        } else {
                            let mut msg = lit("templates contains unsupported key \"");
                            extend_str(&mut msg, key.as_str());
                            extend_str(&mut msg, "\": only tagBody is supported");
                            return Err(schema(msg));
                        }
                    },
                }
                i = i + 1;
            }
            Ok(tb)
        },
        _ => Err(schema(lit("\"templates\" must be an object"))),
    }
}

/// What one `types.<name>` object gives: a title and excluded scopes, each
/// optional, or the error.
pub open spec fn entry_from(name: Seq<char>, m: Seq<(String, Json)>, i: int, title: Option<Seq<char>>, scopes: Option<Seq<Seq<char>>>) -> Result<(Option<Seq<char>>, Option<Seq<Seq<char>>>), Seq<char>>
    decreases m.len() - i,
{
    if i < 0 || i >= m.len() {
        Ok((title, scopes))
    } else if m[i].0@ == "title"@ {
        match m[i].1 {
            Json::Str(t) => entry_from(name, m, i + 1, Some(t@), scopes),
            _ => Err(must_be("types."@ + name + ".title"@, "a string"@)),
        }
    } else if m[i].0@ == "excludeScopes"@ {
        match m[i].1 {
            Json::Array(items) => if forall|k: int| 0 <= k < items@.len() ==> (#[trigger] items@[k] is Str && items@[k]->Str_0@.len() > 0) {
                entry_from(name, m, i + 1, title, Some(items@.map_values(|j: Json| j->Str_0@)))
            } else {
                Err(must_be("types."@ + name + ".excludeScopes"@, "an array of non-empty strings"@))
            },
            _ => Err(must_be("types."@ + name + ".excludeScopes"@, "an array of non-empty strings"@)),
        }
    } else {
        Err(schema_msg(
            "types."@ + name + " contains unsupported key \""@ + m[i].0@
                + "\": only title and excludeScopes are supported"@,
        ))
    }
}

/// Index of the group named `n`, or `-1`.
pub open spec fn type_index(ts: Seq<(Seq<char>, EntryV)>, n: Seq<char>) -> int
    decreases ts.len(),
{
    if ts.len() == 0 {
        -1
    } else if type_index(ts.drop_last(), n) >= 0 {
        type_index(ts.drop_last(), n)
    } else if ts.last().0 == n {
        ts.len() - 1
    } else {
        -1
    }
}

/// The groups after one `types.<name>` entry: replaced in place or appended.
pub open spec fn set_type(ts: Seq<(Seq<char>, EntryV)>, n: Seq<char>, title: Option<Seq<char>>, scopes: Option<Seq<Seq<char>>>) -> Seq<(Seq<char>, EntryV)> {
    if title is None && scopes is None {
        ts
    } else {
        let i = type_index(ts, n);
        if i >= 0 {
            let old = ts[i].1;
            ts.update(i, (n, EntryV {
                title: match title { Some(t) => t, None => old.title },
                exclude_scopes: match scopes { Some(s) => s, None => old.exclude_scopes },
            }))
        } else {
            match title {
                Some(t) => ts.push((n, EntryV { title: t, exclude_scopes: match scopes { Some(s) => s, None => Seq::empty() } })),
                None => ts,
            }
        }
    }
}

/// The groups without those named `n`.
pub open spec fn drop_type(ts: Seq<(Seq<char>, EntryV)>, n: Seq<char>) -> Seq<(Seq<char>, EntryV)>
    decreases ts.len(),
{
    if ts.len() == 0 {
        ts
    } else if ts.last().0 != n {
        drop_type(ts.drop_last(), n).push(ts.last())
    } else {
        drop_type(ts.drop_last(), n)
    }
}

/// The `types` object from member `i` on, merged into the groups.
pub open spec fn types_from(m: Seq<(String, Json)>, i: int, ts: Seq<(Seq<char>, EntryV)>) -> Result<Seq<(Seq<char>, EntryV)>, Seq<char>>
    decreases m.len() - i,
{
    if i < 0 || i >= m.len() {
        Ok(ts)
    } else {
        let name = m[i].0@;
        match m[i].1 {
            Json::Null => types_from(m, i + 1, ts),
            Json::Bool(false) => types_from(m, i + 1, drop_type(ts, name)),
            Json::Object(e) => match entry_from(name, e@, 0, None, None) {
                Ok((t, sc)) => types_from(m, i + 1, set_type(ts, name, t, sc)),
                Err(x) => Err(x),
            },
            _ => Err(schema_msg("types."@ + name + " must be { \"title\": string } or false"@)),
        }
    }
}

pub open spec fn types_spec(v: Json, ts: Seq<(Seq<char>, EntryV)>) -> Result<Seq<(Seq<char>, EntryV)>, Seq<char>> {
    match v {
        Json::Object(m) => types_from(m@, 0, ts),
        _ => Err(schema_msg("\"types\" must be an object"@)),
    }
}


fn parse_entry(name: &String, e: &JsonObject) -> (r: Result<(Option<String>, Option<Vec<String>>), ChangelogConfigError>)
    ensures
        match entry_from(name@, e@, 0, None, None) {
            Ok((t, sc)) => r is Ok && opt_text(r->Ok_0.0) == t && match (r->Ok_0.1, sc) {
                (Some(v), Some(x)) => texts(v@) == x,
                (None, None) => true,
                _ => false,
            },
            Err(m) => r is Err && r->Err_0.message_view() == m,
        },
{
    let mut title: Option<String> = None;
    let mut scopes: Option<Vec<String>> = None;
    let mut i: usize = 0;
    while i < e.len()
        invariant
            i <= e@.len(),
            entry_from(name@, e@, 0, None, None) == entry_from(
                name@,
                e@,
                i as int,
                opt_text(title),
                match scopes {
                    Some(v) => Some(texts(v@)),
                    None => None,
                },
            ),
        decreases e.len() - i,
    {
        let key = &e[i].0;
        if str_eq(key.as_str(), "title") {
            match &e[i].1 {
                Json::Str(t) => {
                    title = Some(t.clone());
                },
                _ => {
                    let mut k = lit("types.");
                    extend_str(&mut k, name.as_str());
                    extend_str(&mut k, ".title");
                    return Err(must_be_exec(&k, "a string"));
                },
            }
        } else if str_eq(key.as_str(), "excludeScopes") {
            let mut k = lit("types.");
            extend_str(&mut k, name.as_str());
            extend_str(&mut k, ".excludeScopes");
            match &e[i].1 {
                Json::Array(items) => {
                    let mut out: Vec<String> = Vec::new();
                    let mut j: usize = 0;
                    while j < items.len()
                        invariant
                            j <= items@.len(),
                            i < e@.len(),
                            e@[i as int].0@ == "excludeScopes"@,
                            e@[i as int].0@ != "title"@,
                            e@[i as int].1 is Array,
                            e@[i as int].1->Array_0@ == items@,
                            k@ == "types."@ + name@ + ".excludeScopes"@,
                            entry_from(name@, e@, 0, None, None) == entry_from(
                                name@,
                                e@,
                                i as int,
                                opt_text(title),
                                match scopes {
                                    Some(v) => Some(texts(v@)),
                                    None => None,
                                },
                            ),
                            forall|x: int| 0 <= x < j ==> (#[trigger] items@[x] is Str && items@[x]->Str_0@.len() > 0),
                            texts(out@) == items@.subrange(0, j as int).map_values(|q: Json| q->Str_0@),
                        decreases items.len() - j,
                    {
                        match &items[j] {
                            Json::Str(x) => {
                                if x.as_str().unicode_len() == 0 {
                                    return Err(must_be_exec(&k, "an array of non-empty strings"));
                                }
                                let ghost before = out@;
                                let c = x.clone();
                                out.push(c);
                                assert(texts(out@) =~= texts(before).push(c@));
                                assert(items@.subrange(0, j + 1).map_values(|q: Json| q->Str_0@)
                                    =~= items@.subrange(0, j as int).map_values(|q: Json| q->Str_0@).push(
                                    items@[j as int]->Str_0@,
                                ));
                            },
                            _ => {
                                return Err(must_be_exec(&k, "an array of non-empty strings"));
                            },
                        }
                        j = j + 1;
                    }
                    assert(items@.subrange(0, items@.len() as int) =~= items@);
                    scopes = Some(out);
                },
                _ => {
                    return Err(must_be_exec(&k, "an array of non-empty strings"));
                },
            }
        } else {
            let mut msg = lit("types.");
            extend_str(&mut msg, name.as_str());
            extend_str(&mut msg, " contains unsupported key \"");
            extend_str(&mut msg, key.as_str());
            extend_str(&mut msg, "\": only title and excludeScopes are supported");
            return Err(schema(msg));
        }
        i = i + 1;
    }
    Ok((title, scopes))
}

proof fn lemma_type_index(ts: Seq<(Seq<char>, EntryV)>, n: Seq<char>)
    ensures
        type_index(ts, n) == -1 ==> forall|j: int| 0 <= j < ts.len() ==> #[trigger] ts[j].0 != n,
        type_index(ts, n) != -1 ==> 0 <= type_index(ts, n) < ts.len() && ts[type_index(ts, n)].0 == n
            && forall|j: int| 0 <= j < type_index(ts, n) ==> #[trigger] ts[j].0 != n,
    decreases ts.len(),
{
    if ts.len() > 0 {
        lemma_type_index(ts.drop_last(), n);
        let p = ts.drop_last();
        assert forall|j: int| 0 <= j < p.len() implies ts[j] == p[j] by {}
    }
}

pub(crate) fn find_type(ts: &Vec<(String, ChangelogTypeEntry)>, name: &String) -> (r: Option<usize>)
    ensures
        match r {
            Some(i) => i as int == type_index(entries_view(ts@), name@) && i < ts@.len(),
            None => type_index(entries_view(ts@), name@) == -1,
        },
{
    let ghost tv = entries_view(ts@);
    proof {
        lemma_type_index(tv, name@);
    }
    let mut i: usize = 0;
    while i < ts.len()
        invariant
            i <= ts@.len(),
            tv == entries_view(ts@),
            forall|j: int| 0 <= j < i ==> #[trigger] tv[j].0 != name@,
            type_index(tv, name@) == -1 ==> forall|j: int| 0 <= j < tv.len() ==> #[trigger] tv[j].0 != name@,
            type_index(tv, name@) != -1 ==> 0 <= type_index(tv, name@) < tv.len() && tv[type_index(tv, name@)].0 == name@
                && forall|j: int| 0 <= j < type_index(tv, name@) ==> #[trigger] tv[j].0 != name@,
        decreases ts.len() - i,
    {
        assert(tv[i as int].0 == ts@[i as int].0@);
        if str_eq(ts[i].0.as_str(), name.as_str()) {
            return Some(i);
        }
        i = i + 1;
    }
    None
}

fn drop_type_exec(ts: Vec<(String, ChangelogTypeEntry)>, name: &String) -> (r: Vec<(String, ChangelogTypeEntry)>)
    ensures
        entries_view(r@) == drop_type(entries_view(ts@), name@),
{
    let ghost o = ts@;
    let mut ts = ts;
    let mut out: Vec<(String, ChangelogTypeEntry)> = Vec::new();
    let mut n: usize = 0;
    let total = ts.len();
    assert(ts@ =~= o.subrange(0, o.len() as int));
    while ts.len() > 0
        invariant
            total == o.len(),
            n + ts@.len() == o.len(),
            ts@ == o.subrange(n as int, o.len() as int),
            entries_view(out@) == drop_type(entries_view(o.subrange(0, n as int)), name@),
        decreases ts.len(),
    {
        let ghost tb = ts@;
        let x = ts.remove(0);
        proof {
            assert(o[n as int] == x);
            assert(entries_view(o.subrange(0, n + 1)).drop_last() =~= entries_view(o.subrange(0, n as int)));
            assert(entries_view(o.subrange(0, n + 1)).last() == entries_view(o)[n as int]);
        }
        if !str_eq(x.0.as_str(), name.as_str()) {
            let ghost before = out@;
            out.push(x);
            assert(entries_view(out@) =~= entries_view(before).push(entries_view(o)[n as int]));
        }
        n = n + 1;
        proof {
            assert(ts@ =~= o.subrange(n as int, o.len() as int));
        }
    }
    assert(o.subrange(0, o.len() as int) =~= o);
    out
}

fn set_type_exec(
    ts: Vec<(String, ChangelogTypeEntry)>,
    name: &String,
    title: Option<String>,
    scopes: Option<Vec<String>>,
) -> (r: Vec<(String, ChangelogTypeEntry)>)
    ensures
        entries_view(r@) == set_type(
            entries_view(ts@),
            name@,
            opt_text(title),
            match scopes {
                Some(v) => Some(texts(v@)),
                None => None,
            },
        ),
{
    if title.is_none() && scopes.is_none() {
        return ts;
    }
    let ghost tv = entries_view(ts@);
    match find_type(&ts, name) {
        Some(i) => {
            let mut ts = ts;
            let (k, old) = ts.remove(i);
            let new_title = match title {
                Some(t) => t,
                None => old.title,
            };
            let new_scopes = match scopes {
                Some(s) => s,
                None => old.exclude_scopes,
            };
            ts.insert(i, (k, ChangelogTypeEntry { title: new_title, exclude_scopes: new_scopes }));
            proof {
                lemma_type_index(tv, name@);
                assert(entries_view(ts@) =~~= set_type(
                    tv,
                    name@,
                    opt_text(title),
                    match scopes {
                        Some(v) => Some(texts(v@)),
                        None => None,
                    },
                ));
            }
            ts
        },
        None => {
            match title {
                Some(t) => {
                    let mut ts = ts;
                    let sc = match scopes {
                        Some(s) => s,
                        None => Vec::new(),
                    };
                    ts.push((name.clone(), ChangelogTypeEntry { title: t, exclude_scopes: sc }));
                    proof {
                        assert(entries_view(ts@) =~~= set_type(
                            tv,
                            name@,
                            opt_text(title),
                            match scopes {
                                Some(v) => Some(texts(v@)),
                                None => None,
                            },
                        ));
                    }
                    ts
                },
                None => ts,
            }
        },
    }
}


#[verifier::loop_isolation(false)]
fn apply_types(v: &Json, ts: Vec<(String, ChangelogTypeEntry)>) -> (r: Result<Vec<(String, ChangelogTypeEntry)>, ChangelogConfigError>)
    ensures
        match types_spec(*v, entries_view(ts@)) {
            Ok(t) => r is Ok && entries_view(r->Ok_0@) == t,
            Err(m) => r is Err && r->Err_0.message_view() == m,
        },
{
    match v {
        Json::Object(m) => {
            let ghost t0 = entries_view(ts@);
            let mut ts = ts;
            let mut i: usize = 0;
            while i < m.len()
                invariant
                    i <= m@.len(),
                    *v is Object,
                    v->Object_0@ == m@,
                    types_from(m@, 0, t0) == types_from(m@, i as int, entries_view(ts@)),
                decreases m.len() - i,
            {
                let name = &m[i].0;
                match &m[i].1 {
                    Json::Null => {},
                    Json::Bool(false) => {
                        ts = drop_type_exec(ts, name);
                    },
                    Json::Object(e) => {
                        let (t, sc) = parse_entry(name, e)?;
                        ts = set_type_exec(ts, name, t, sc);
                    },
                    _ => {
                        let mut msg = lit("types.");
                        extend_str(&mut msg, name.as_str());
                        extend_str(&mut msg, " must be { \"title\": string } or false");
                        return Err(schema(msg));
                    },
                }
                i = i + 1;
            }
            Ok(ts)
        },
        _ => Err(schema(lit("\"types\" must be an object"))),
    }
}

pub open spec fn runtime_key_msg(key: Seq<char>) -> Seq<char> {
    schema_msg("\""@ + key + "\" is a runtime argument and must not be written to the config file"@)
}

pub open spec fn legacy_key_msg(key: Seq<char>) -> Seq<char> {
    schema_msg("contains changelogen legacy key \""@ + key + "\": removed in the Rust rewrite — delete it"@)
}

pub open spec fn unsupported_key_msg(key: Seq<char>) -> Seq<char> {
    schema_msg(
        "contains unsupported key \""@ + key
            + "\": supported keys are output / types / repo / scopeMap / noAuthors / hideAuthorEmail / excludeAuthors / templates.tagBody / commitMessage"@,
    )
}

/// A changelog section (file or overrides) applied from member `i` on.
pub open spec fn section_from(m: Seq<(String, Json)>, i: int, c: ConfigV) -> Result<ConfigV, Seq<char>>
    decreases m.len() - i,
{
    if i < 0 || i >= m.len() {
        Ok(c)
    } else {
        let key = m[i].0@;
        let v = m[i].1;
        if v is Null {
            section_from(m, i + 1, c)
        } else if key == "output"@ {
            match v {
                Json::Str(s) => section_from(m, i + 1, ConfigV { output: s@, ..c }),
                _ => Err(must_be(key, "a string"@)),
            }
        } else if key == "noAuthors"@ {
            match v {
                Json::Bool(b) => section_from(m, i + 1, ConfigV { no_authors: b, ..c }),
                _ => Err(must_be(key, "a boolean"@)),
            }
        } else if key == "hideAuthorEmail"@ {
            match v {
                Json::Bool(b) => section_from(m, i + 1, ConfigV { hide_author_email: b, ..c }),
                _ => Err(must_be(key, "a boolean"@)),
            }
        } else if key == "commitMessage"@ {
            match v {
                Json::Str(s) => section_from(m, i + 1, ConfigV { commit_message: s@, ..c }),
                _ => Err(must_be(key, "a string"@)),
            }
        } else if key == "excludeAuthors"@ {
            match string_array(key, v) {
                Ok(a) => section_from(m, i + 1, ConfigV { exclude_authors: a, ..c }),
                Err(e) => Err(e),
            }
        } else if key == "scopeMap"@ {
            match string_map(key, v) {
                Ok(a) => section_from(m, i + 1, ConfigV { scope_map: a, ..c }),
                Err(e) => Err(e),
            }
        } else if key == "repo"@ {
            match parse_repo_spec(v) {
                Ok(RepoSettingV::Short(s)) => section_from(m, i + 1, ConfigV { repo: None, repo_short: Some(s), ..c }),
                Ok(RepoSettingV::Explicit(r)) => section_from(m, i + 1, ConfigV { repo: Some(r), repo_short: None, ..c }),
                Err(e) => Err(e),
            }
        } else if key == "templates"@ {
            match templates_spec(v, c.tag_body) {
                Ok(t) => section_from(m, i + 1, ConfigV { tag_body: t, ..c }),
                Err(e) => Err(e),
            }
        } else if key == "types"@ {
            match types_spec(v, c.types) {
                Ok(t) => section_from(m, i + 1, ConfigV { types: t, ..c }),
                Err(e) => Err(e),
            }
        } else if key == "from"@ || key == "to"@ || key == "newVersion"@ {
            Err(runtime_key_msg(key))
        } else if key == "tokens"@ || key == "publish"@ {
            Err(legacy_key_msg(key))
        } else {
            Err(unsupported_key_msg(key))
        }
    }
}

#[verifier::loop_isolation(false)]
fn apply_section(c: ChangelogConfig, m: &JsonObject) -> (r: Result<ChangelogConfig, ChangelogConfigError>)
    ensures
        match section_from(m@, 0, c.view()) {
            Ok(x) => r is Ok && r->Ok_0.view() == x,
            Err(e) => r is Err && r->Err_0.message_view() == e,
        },
{
    let ghost c0 = c.view();
    let mut c = c;
    let mut i: usize = 0;
    while i < m.len()
        invariant
            i <= m@.len(),
            section_from(m@, 0, c0) == section_from(m@, i as int, c.view()),
        decreases m.len() - i,
    {
        let key = &m[i].0;
        let v = &m[i].1;
        let kv = crate::text::chars_of(key.as_str());
        match v {
            Json::Null => {},
            _ => {
                if str_eq(key.as_str(), "output") {
                    match v {
                        Json::Str(s) => {
                            c.output = s.clone();
                        },
                        _ => {
                            return Err(must_be_exec(&kv, "a string"));
                        },
                    }
                } else if str_eq(key.as_str(), "noAuthors") {
                    match v {
                        Json::Bool(b) => {
                            c.no_authors = *b;
                        },
                        _ => {
                            return Err(must_be_exec(&kv, "a boolean"));
                        },
                    }
                } else if str_eq(key.as_str(), "hideAuthorEmail") {
                    match v {
                        Json::Bool(b) => {
                            c.hide_author_email = *b;
                        },
                        _ => {
                            return Err(must_be_exec(&kv, "a boolean"));
                        },
                    }
                } else if str_eq(key.as_str(), "commitMessage") {
                    match v {
                        Json::Str(s) => {
                            c.commit_message = s.clone();
                        },
                        _ => {
                            return Err(must_be_exec(&kv, "a string"));
                        },
                    }
                } else if str_eq(key.as_str(), "excludeAuthors") {
                    c.exclude_authors = string_array_exec(&kv, v)?;
                } else if str_eq(key.as_str(), "scopeMap") {
                    c.scope_map = string_map_exec(&kv, v)?;
                } else if str_eq(key.as_str(), "repo") {
                    match parse_repo(v)? {
                        RepoSetting::Short(s) => {
                            c.repo = None;
                            c.repo_short = Some(s);
                        },
                        RepoSetting::Explicit(r) => {
                            c.repo = Some(r);
                            c.repo_short = None;
                        },
                    }
                } else if str_eq(key.as_str(), "templates") {
                    let tb = c.tag_body.clone();
                    c.tag_body = apply_templates(v, tb)?;
                } else if str_eq(key.as_str(), "types") {
                    let mut ts: Vec<(String, ChangelogTypeEntry)> = Vec::new();
                    std::mem::swap(&mut ts, &mut c.types);
                    c.types = apply_types(v, ts)?;
                } else if str_eq(key.as_str(), "from") || str_eq(key.as_str(), "to") || str_eq(
                    key.as_str(),
                    "newVersion",
                ) {
                    let mut msg = lit("\"");
                    extend_str(&mut msg, key.as_str());
                    extend_str(&mut msg, "\" is a runtime argument and must not be written to the config file");
                    return Err(schema(msg));
                } else if str_eq(key.as_str(), "tokens") || str_eq(key.as_str(), "publish") {
                    let mut msg = lit("contains changelogen legacy key \"");
                    extend_str(&mut msg, key.as_str());
                    extend_str(&mut msg, "\": removed in the Rust rewrite — delete it");
                    return Err(schema(msg));
                } else {
                    let mut msg = lit("contains unsupported key \"");
                    extend_str(&mut msg, key.as_str());
                    extend_str(
                        &mut msg,
                        "\": supported keys are output / types / repo / scopeMap / noAuthors / hideAuthorEmail / excludeAuthors / templates.tagBody / commitMessage",
                    );
                    return Err(schema(msg));
                }
            },
        }
        i = i + 1;
    }
    Ok(c)
}

pub open spec fn section_of_document(document: Option<Seq<(String, Json)>>) -> Result<Option<Seq<(String, Json)>>, Seq<char>> {
    match document {
        None => Ok(None),
        Some(d) => match obj_get(d, "changelog"@) {
            None => Ok(None),
            Some(Json::Null) => Ok(None),
            Some(Json::Object(m)) => Ok(Some(m@)),
            Some(_) => Err("the changelog section in the config file must be an object"@),
        },
    }
}

/// The resolved changelog configuration: defaults, then the document's
/// `changelog` section, then the overrides.
pub open spec fn resolve_spec(document: Option<Seq<(String, Json)>>, overrides: Option<Seq<(String, Json)>>) -> Result<ConfigV, Seq<char>> {
    match section_of_document(document) {
        Err(e) => Err(e),
        Ok(sec) => {
            let c1 = match sec {
                Some(s) => section_from(s, 0, defaults_spec()),
                None => Ok(defaults_spec()),
            };
            match c1 {
                Err(e) => Err(e),
                Ok(c) => match overrides {
                    Some(o) => section_from(o, 0, c),
                    None => Ok(c),
                },
            }
        },
    }
}

/// Resolves the changelog configuration (see `resolve_spec`).
pub fn resolve_changelog_config(document: Option<&JsonObject>, overrides: Option<&JsonObject>) -> (r: Result<ChangelogConfig, ChangelogConfigError>)
    ensures
        match resolve_spec(
            match document {
                Some(d) => Some(d@),
                None => None,
            },
            match overrides {
                Some(o) => Some(o@),
                None => None,
            },
        ) {
            Ok(c) => r is Ok && r->Ok_0.view() == c,
            Err(e) => r is Err && r->Err_0.message_view() == e,
        },
{
    let mut config = defaults();
    let section: Option<&JsonObject> = match document {
        None => None,
        Some(d) => match get_member(d, "changelog") {
            None => None,
            Some(Json::Null) => None,
            Some(Json::Object(m)) => Some(m),
            Some(_) => {
                return Err(
                    ChangelogConfigError::Schema {
                        message: string_of(&lit("the changelog section in the config file must be an object")),
                    },
                );
            },
        },
    };
    if let Some(s) = section {
        config = apply_section(config, s)?;
    }
    if let Some(o) = overrides {
        config = apply_section(config, o)?;
    }
    Ok(config)
}

} // verus!
