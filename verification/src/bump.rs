//! The bump: its options (from the merged configuration or its typed
//! shape), their normalization, the execute command, the results and errors.

use vstd::prelude::*;
use crate::json::{get_member, obj_get, Json, JsonObject};
use crate::progress::ProgressEvent;
use crate::shape::{BoolOrString, BumpConfig, ScriptsSection};
use crate::text::{extend_str, lit, string_of};

verus! {

/// The `commit` option (`boolean | string`).
#[derive(Debug, Clone, Copy)]
pub enum CommitInput<'a> {
    Bool(bool),
    Message(&'a str),
}

/// The `tag` option (`boolean | string`).
#[derive(Debug, Clone, Copy)]
pub enum TagInput<'a> {
    Bool(bool),
    Name(&'a str),
}

/// The configured lifecycle scripts, one shell command per phase.
#[derive(Debug, Clone, Default)]
pub struct Scripts {
    /// Before the version files are updated.
    pub preversion: Option<String>,
    /// Before git commit and tag.
    pub version: Option<String>,
    /// After git, before push.
    pub postversion: Option<String>,
}

/// The inputs of a version bump.
pub struct BumpOptions<'a> {
    /// Release type or version; `None` / `prompt` asks.
    pub release: Option<&'a str>,
    /// File patterns; empty means the default manifests.
    pub files: Vec<String>,
    pub recursive: bool,
    pub commit: Option<CommitInput<'a>>,
    pub tag: Option<TagInput<'a>>,
    pub push: bool,
    pub sign: bool,
    pub all: bool,
    pub skip_hooks: bool,
    pub confirm: bool,
    pub ignore_scripts: bool,
    pub install: bool,
    pub execute: Option<&'a str>,
    /// The configured scripts; all skipped when `ignore_scripts`.
    pub scripts: Option<Scripts>,
    pub preid: Option<&'a str>,
    pub current_version: Option<&'a str>,
}

pub open spec fn opt_view(o: Option<String>) -> Option<Seq<char>> {
    match o {
        Some(s) => Some(s@),
        None => None,
    }
}

pub open spec fn opt_str_view(o: Option<&str>) -> Option<Seq<char>> {
    match o {
        Some(s) => Some(s@),
        None => None,
    }
}

/// A string option with the empty string counted as absent.
pub open spec fn non_empty(o: Option<String>) -> Option<Seq<char>> {
    match o {
        Some(s) => if s@.len() > 0 {
            Some(s@)
        } else {
            None
        },
        None => None,
    }
}

/// A `boolean | string` option: a flag or a text.
pub enum Choice {
    Flag(bool),
    Text(Seq<char>),
}

/// The commit option a `boolean | string` value gives (an empty string is absent).
pub open spec fn commit_of(v: Option<BoolOrString>) -> Option<Choice> {
    match v {
        Some(BoolOrString::Bool(b)) => Some(Choice::Flag(b)),
        Some(BoolOrString::Str(s)) => if s@.len() > 0 {
            Some(Choice::Text(s@))
        } else {
            None
        },
        None => None,
    }
}

/// The commit option as a flag or a message.
pub open spec fn commit_input_view(c: Option<CommitInput>) -> Option<Choice> {
    match c {
        Some(CommitInput::Bool(b)) => Some(Choice::Flag(b)),
        Some(CommitInput::Message(m)) => Some(Choice::Text(m@)),
        None => None,
    }
}

/// The tag option as a flag or a name.
pub open spec fn tag_input_view(c: Option<TagInput>) -> Option<Choice> {
    match c {
        Some(TagInput::Bool(b)) => Some(Choice::Flag(b)),
        Some(TagInput::Name(m)) => Some(Choice::Text(m@)),
        None => None,
    }
}

pub open spec fn scripts_view(s: Option<Scripts>) -> Option<(Option<Seq<char>>, Option<Seq<char>>, Option<Seq<char>>)> {
    match s {
        Some(x) => Some((opt_view(x.preversion), opt_view(x.version), opt_view(x.postversion))),
        None => None,
    }
}

pub open spec fn section_scripts_view(s: Option<ScriptsSection>) -> Option<
    (Option<Seq<char>>, Option<Seq<char>>, Option<Seq<char>>),
> {
    match s {
        Some(x) => Some((opt_view(x.preversion), opt_view(x.version), opt_view(x.postversion))),
        None => None,
    }
}

pub open spec fn flag(o: Option<bool>) -> bool {
    match o {
        Some(b) => b,
        None => false,
    }
}

fn copy_opt(o: &Option<String>) -> (r: Option<String>)
    ensures
        opt_view(r) == opt_view(*o),
{
    match o {
        Some(s) => Some(s.clone()),
        None => None,
    }
}

fn non_empty_ref<'a>(o: &'a Option<String>) -> (r: Option<&'a str>)
    ensures
        opt_str_view(r) == non_empty(*o),
{
    match o {
        Some(s) => if s.as_str().unicode_len() > 0 {
            Some(s.as_str())
        } else {
            None
        },
        None => None,
    }
}

fn copy_files(o: &Option<Vec<String>>) -> (r: Vec<String>)
    ensures
        match o {
            Some(v) => crate::cli::parse::texts(r@) == crate::cli::parse::texts(v@),
            None => r@.len() == 0,
        },
{
    match o {
        Some(v) => {
            let mut r: Vec<String> = Vec::new();
            let mut i: usize = 0;
            while i < v.len()
                invariant
                    i <= v@.len(),
                    crate::cli::parse::texts(r@) == crate::cli::parse::texts(v@).subrange(0, i as int),
                decreases v.len() - i,
            {
                let ghost before = r@;
                let x = v[i].clone();
                r.push(x);
                assert(crate::cli::parse::texts(r@) =~= crate::cli::parse::texts(before).push(x@));
                assert(crate::cli::parse::texts(r@) =~= crate::cli::parse::texts(v@).subrange(
                    0,
                    i + 1,
                ));
                i = i + 1;
            }
            assert(crate::cli::parse::texts(v@).subrange(0, v@.len() as int) =~= crate::cli::parse::texts(
                v@,
            ));
            r
        },
        None => Vec::new(),
    }
}

impl<'a> BumpOptions<'a> {
    /// The options a typed configuration gives, with the release fixed to
    /// the chosen version: unset flags are `false`, empty strings of
    /// `execute`, `preid`, `currentVersion`, `commit` and `tag` are absent.
    pub fn from_config(config: &'a BumpConfig, new_version: &'a str) -> (r: Self)
        ensures
            opt_str_view(r.release) == Some(new_version@),
            crate::cli::parse::texts(r.files@) == match config.files {
                Some(v) => crate::cli::parse::texts(v@),
                None => Seq::empty(),
            },
            r.recursive == flag(config.recursive),
            commit_input_view(r.commit) == commit_of(config.commit),
            tag_input_view(r.tag) == commit_of(config.tag),
            r.push == flag(config.push),
            r.sign == flag(config.sign),
            r.all == flag(config.all),
            r.skip_hooks == flag(config.skip_hooks),
            r.confirm == flag(config.confirm),
            r.ignore_scripts == flag(config.ignore_scripts),
            r.install == flag(config.install),
            opt_str_view(r.execute) == non_empty(config.execute),
            scripts_view(r.scripts) == section_scripts_view(config.scripts),
            opt_str_view(r.preid) == non_empty(config.preid),
            opt_str_view(r.current_version) == non_empty(config.current_version),
    {
        let commit = match &config.commit {
            Some(BoolOrString::Bool(b)) => Some(CommitInput::Bool(*b)),
            Some(BoolOrString::Str(s)) => if s.as_str().unicode_len() > 0 {
                Some(CommitInput::Message(s.as_str()))
            } else {
                None
            },
            None => None,
        };
        let tag = match &config.tag {
            Some(BoolOrString::Bool(b)) => Some(TagInput::Bool(*b)),
            Some(BoolOrString::Str(s)) => if s.as_str().unicode_len() > 0 {
                Some(TagInput::Name(s.as_str()))
            } else {
                None
            },
            None => None,
        };
        let scripts = match &config.scripts {
            Some(s) => Some(
                Scripts {
                    preversion: copy_opt(&s.preversion),
                    version: copy_opt(&s.version),
                    postversion: copy_opt(&s.postversion),
                },
            ),
            None => None,
        };
        BumpOptions {
            release: Some(new_version),
            files: copy_files(&config.files),
            recursive: match config.recursive {
                Some(b) => b,
                None => false,
            },
            commit,
            tag,
            push: match config.push {
                Some(b) => b,
                None => false,
            },
            sign: match config.sign {
                Some(b) => b,
                None => false,
            },
            all: match config.all {
                Some(b) => b,
                None => false,
            },
            skip_hooks: match config.skip_hooks {
                Some(b) => b,
                None => false,
            },
            confirm: match config.confirm {
                Some(b) => b,
                None => false,
            },
            ignore_scripts: match config.ignore_scripts {
                Some(b) => b,
                None => false,
            },
            install: match config.install {
                Some(b) => b,
                None => false,
            },
            execute: non_empty_ref(&config.execute),
            scripts,
            preid: non_empty_ref(&config.preid),
            current_version: non_empty_ref(&config.current_version),
        }
    }
}

/// A merged-configuration flag: `true` only for the boolean `true`.
pub open spec fn json_flag(m: Seq<(String, Json)>, k: Seq<char>) -> bool {
    obj_get(m, k) == Some(Json::Bool(true))
}

/// A merged-configuration string, the empty string counting as absent.
pub open spec fn json_str(m: Seq<(String, Json)>, k: Seq<char>) -> Option<Seq<char>> {
    match obj_get(m, k) {
        Some(Json::Str(s)) => if s@.len() > 0 {
            Some(s@)
        } else {
            None
        },
        _ => None,
    }
}

/// The strings of an array, other items skipped.
pub open spec fn array_strings(items: Seq<Json>) -> Seq<Seq<char>>
    decreases items.len(),
{
    if items.len() == 0 {
        Seq::empty()
    } else {
        match items.last() {
            Json::Str(s) => array_strings(items.drop_last()).push(s@),
            _ => array_strings(items.drop_last()),
        }
    }
}

/// `commit` / `tag` from the merged configuration.
pub open spec fn json_bool_or_str(m: Seq<(String, Json)>, k: Seq<char>) -> Option<Choice> {
    match obj_get(m, k) {
        Some(Json::Bool(b)) => Some(Choice::Flag(b)),
        Some(Json::Str(s)) => if s@.len() > 0 {
            Some(Choice::Text(s@))
        } else {
            None
        },
        _ => None,
    }
}

/// A script slot of the `scripts` object.
pub open spec fn slot_of(m: Seq<(String, Json)>, k: Seq<char>) -> Option<Seq<char>> {
    match obj_get(m, k) {
        Some(Json::Str(s)) => Some(s@),
        _ => None,
    }
}

pub open spec fn json_scripts(m: Seq<(String, Json)>) -> Option<(Option<Seq<char>>, Option<Seq<char>>, Option<Seq<char>>)> {
    match obj_get(m, "scripts"@) {
        Some(Json::Object(s)) => Some(
            (slot_of(s@, "preversion"@), slot_of(s@, "version"@), slot_of(s@, "postversion"@)),
        ),
        _ => None,
    }
}

fn json_flag_exec(m: &JsonObject, k: &str) -> (r: bool)
    ensures
        r == json_flag(m@, k@),
{
    match get_member(m, k) {
        Some(Json::Bool(b)) => *b,
        _ => false,
    }
}

fn json_str_exec<'a>(m: &'a JsonObject, k: &str) -> (r: Option<&'a str>)
    ensures
        opt_str_view(r) == json_str(m@, k@),
{
    match get_member(m, k) {
        Some(Json::Str(s)) => if s.as_str().unicode_len() > 0 {
            Some(s.as_str())
        } else {
            None
        },
        _ => None,
    }
}

fn slot_exec(m: &JsonObject, k: &str) -> (r: Option<String>)
    ensures
        opt_view(r) == slot_of(m@, k@),
{
    match get_member(m, k) {
        Some(Json::Str(s)) => Some(s.clone()),
        _ => None,
    }
}

impl<'a> BumpOptions<'a> {
    /// The options the merged configuration gives (values of the wrong type
    /// count as absent), with the release fixed to the chosen version.
    pub fn from_merged(merged: &'a JsonObject, new_version: &'a str) -> (r: Self)
        ensures
            opt_str_view(r.release) == Some(new_version@),
            crate::cli::parse::texts(r.files@) == match obj_get(merged@, "files"@) {
                Some(Json::Array(a)) => array_strings(a@),
                _ => Seq::empty(),
            },
            r.recursive == json_flag(merged@, "recursive"@),
            commit_input_view(r.commit) == json_bool_or_str(merged@, "commit"@),
            tag_input_view(r.tag) == json_bool_or_str(merged@, "tag"@),
            r.push == json_flag(merged@, "push"@),
            r.sign == json_flag(merged@, "sign"@),
            r.all == json_flag(merged@, "all"@),
            r.skip_hooks == json_flag(merged@, "noVerify"@),
            r.confirm == json_flag(merged@, "confirm"@),
            r.ignore_scripts == json_flag(merged@, "ignoreScripts"@),
            r.install == json_flag(merged@, "install"@),
            opt_str_view(r.execute) == json_str(merged@, "execute"@),
            scripts_view(r.scripts) == json_scripts(merged@),
            opt_str_view(r.preid) == json_str(merged@, "preid"@),
            opt_str_view(r.current_version) == json_str(merged@, "currentVersion"@),
    {
        let mut files: Vec<String> = Vec::new();
        match get_member(merged, "files") {
            Some(Json::Array(a)) => {
                let mut i: usize = 0;
                while i < a.len()
                    invariant
                        i <= a@.len(),
                        crate::cli::parse::texts(files@) == array_strings(a@.subrange(0, i as int)),
                    decreases a.len() - i,
                {
                    assert(a@.subrange(0, i + 1).drop_last() =~= a@.subrange(0, i as int));
                    match &a[i] {
                        Json::Str(s) => {
                            let ghost before = files@;
                            let x = s.clone();
                            files.push(x);
                            assert(crate::cli::parse::texts(files@) =~= crate::cli::parse::texts(
                                before,
                            ).push(x@));
                        },
                        _ => {},
                    }
                    i = i + 1;
                }
                assert(a@.subrange(0, a@.len() as int) =~= a@);
            },
            _ => {},
        }
        let commit = match get_member(merged, "commit") {
            Some(Json::Bool(b)) => Some(CommitInput::Bool(*b)),
            Some(Json::Str(s)) => if s.as_str().unicode_len() > 0 {
                Some(CommitInput::Message(s.as_str()))
            } else {
                None
            },
            _ => None,
        };
        let tag = match get_member(merged, "tag") {
            Some(Json::Bool(b)) => Some(TagInput::Bool(*b)),
            Some(Json::Str(s)) => if s.as_str().unicode_len() > 0 {
                Some(TagInput::Name(s.as_str()))
            } else {
                None
            },
            _ => None,
        };
        let scripts = match get_member(merged, "scripts") {
            Some(Json::Object(s)) => Some(
                Scripts {
                    preversion: slot_exec(s, "preversion"),
                    version: slot_exec(s, "version"),
                    postversion: slot_exec(s, "postversion"),
                },
            ),
            _ => None,
        };
        BumpOptions {
            release: Some(new_version),
            files,
            recursive: json_flag_exec(merged, "recursive"),
            commit,
            tag,
            push: json_flag_exec(merged, "push"),
            sign: json_flag_exec(merged, "sign"),
            all: json_flag_exec(merged, "all"),
            skip_hooks: json_flag_exec(merged, "noVerify"),
            confirm: json_flag_exec(merged, "confirm"),
            ignore_scripts: json_flag_exec(merged, "ignoreScripts"),
            install: json_flag_exec(merged, "install"),
            execute: json_str_exec(merged, "execute"),
            scripts,
            preid: json_str_exec(merged, "preid"),
            current_version: json_str_exec(merged, "currentVersion"),
        }
    }
}

/// The commit the bump makes.
pub struct CommitSettings<'a> {
    /// `git commit --all` (no pathspec).
    pub all: bool,
    pub skip_hooks: bool,
    /// The message template (`%s` or a trailing version is filled in by git formatting).
    pub message: &'a str,
}

/// The normalized git settings of a bump.
pub struct GitSettings<'a> {
    /// The prerelease identifier (`beta` by default).
    pub preid: &'a str,
    pub commit: Option<CommitSettings<'a>>,
    /// The tag name template.
    pub tag: Option<&'a str>,
}

/// The normalized settings: `preid` defaults to `beta`; `tag: true` means
/// `v`, a tag name is kept, anything else means no tag; a commit message is
/// kept, `commit: true` means `chore: release v`, and a tag or a push forces
/// a commit with that message; commits carry `all` and `noVerify`.
pub open spec fn normalized(
    preid: Option<Seq<char>>,
    commit: Option<Choice>,
    tag: Option<Choice>,
    push: bool,
) -> (Seq<char>, Option<Seq<char>>, Option<Seq<char>>) {
    let p = match preid {
        Some(x) => x,
        None => "beta"@,
    };
    let t = match tag {
        Some(Choice::Text(n)) => Some(n),
        Some(Choice::Flag(true)) => Some("v"@),
        _ => None,
    };
    let c = match commit {
        Some(Choice::Text(m)) => Some(m),
        Some(Choice::Flag(true)) => Some("chore: release v"@),
        _ => if t is Some || push {
            Some("chore: release v"@)
        } else {
            None
        },
    };
    (p, c, t)
}

/// Normalizes the options' git settings (see `normalized`).
pub fn normalize_git<'a>(options: &BumpOptions<'a>) -> (r: GitSettings<'a>)
    ensures
        ({
            let (p, c, t) = normalized(
                opt_str_view(options.preid),
                commit_input_view(options.commit),
                tag_input_view(options.tag),
                options.push,
            );
            &&& r.preid@ == p
            &&& match (r.commit, c) {
                (Some(x), Some(m)) => x.message@ == m && x.all == options.all && x.skip_hooks
                    == options.skip_hooks,
                (None, None) => true,
                _ => false,
            }
            &&& opt_str_view(r.tag) == t
        }),
{
    let preid = match options.preid {
        Some(p) => p,
        None => "beta",
    };
    let tag = match options.tag {
        Some(TagInput::Name(name)) => Some(name),
        Some(TagInput::Bool(true)) => Some("v"),
        _ => None,
    };
    let forced = tag.is_some() || options.push;
    let message = match options.commit {
        Some(CommitInput::Message(message)) => Some(message),
        Some(CommitInput::Bool(true)) => Some("chore: release v"),
        _ => if forced {
            Some("chore: release v")
        } else {
            None
        },
    };
    proof {
        reveal_strlit("v");
        reveal_strlit("chore: release v");
    }
    let commit = match message {
        Some(m) => Some(CommitSettings { all: options.all, skip_hooks: options.skip_hooks, message: m }),
        None => None,
    };
    GitSettings { preid, commit, tag }
}

/// What can go wrong during a bump.
#[derive(Debug)]
pub enum BumpError {
    Info { message: String },
    Files { message: String },
    Exec { message: String },
    Cancelled { message: String },
}

impl BumpError {
    pub open spec fn message_view(&self) -> Seq<char> {
        match self {
            BumpError::Info { message } => message@,
            BumpError::Files { message } => message@,
            BumpError::Exec { message } => message@,
            BumpError::Cancelled { message } => message@,
        }
    }

    /// The user-facing text of the error.
    pub fn message(&self) -> (r: &String)
        ensures
            r@ == self.message_view(),
    {
        match self {
            BumpError::Info { message } => message,
            BumpError::Files { message } => message,
            BumpError::Exec { message } => message,
            BumpError::Cancelled { message } => message,
        }
    }
}

/// The words of a command line, split like a POSIX shell does
/// (quotes, escapes), or the splitter's error text.
pub uninterp spec fn shell_split(line: Seq<char>) -> Result<Seq<Seq<char>>, Seq<char>>;

/// `shell_words::split` (shell-words 1.1): the words, or its error's `Display` text.
#[verifier::external_body]
pub(crate) fn split_words(line: &str) -> (r: Result<Vec<String>, String>)
    ensures
        match shell_split(line@) {
            Ok(w) => r is Ok && crate::cli::parse::texts(r->Ok_0@) == w,
            Err(e) => r is Err && r->Err_0@ == e,
        },
{
    shell_words::split(line).map_err(|e| e.to_string())
}

/// The `execute` option as a program and its arguments: the split words
/// (an error when it cannot be split or is empty).
pub open spec fn execute_spec(line: Seq<char>) -> Result<(Seq<char>, Seq<Seq<char>>), Seq<char>> {
    match shell_split(line) {
        Err(e) => Err("failed to parse execute command: "@ + e),
        Ok(w) => if w.len() == 0 {
            Err("execute command is empty"@)
        } else {
            Ok((w[0], w.drop_first()))
        },
    }
}

/// Splits the `execute` option into program and arguments (no shell runs it).
pub fn execute_command(line: &str) -> (r: Result<(String, Vec<String>), BumpError>)
    ensures
        match execute_spec(line@) {
            Ok((p, a)) => r is Ok && r->Ok_0.0@ == p && crate::cli::parse::texts(r->Ok_0.1@) == a,
            Err(m) => r is Err && r->Err_0 is Exec && r->Err_0.message_view() == m,
        },
{
    match split_words(line) {
        Err(e) => {
            let mut m = lit("failed to parse execute command: ");
            extend_str(&mut m, e.as_str());
            Err(BumpError::Exec { message: string_of(&m) })
        },
        Ok(words) => {
            let ghost w = crate::cli::parse::texts(words@);
            if words.len() == 0 {
                return Err(BumpError::Exec { message: string_of(&lit("execute command is empty")) });
            }
            let mut rest = words;
            let program = rest.remove(0);
            assert(crate::cli::parse::texts(rest@) =~= w.drop_first());
            Ok((program, rest))
        },
    }
}

/// One progress notification.
#[derive(Debug)]
pub struct Progress<'a> {
    pub event: ProgressEvent,
    pub script: Option<&'a str>,
    pub release: Option<&'a str>,
    pub current_version: &'a str,
    pub new_version: &'a str,
    /// The commit message once committing is on (empty before the commit).
    pub commit: Option<&'a str>,
    /// The tag name once tagging is on (empty before the tag).
    pub tag: Option<&'a str>,
    pub updated_files: &'a [String],
    pub skipped_files: &'a [String],
}

/// The file a file event is about: the last updated (or skipped) one.
pub fn event_file<'a>(p: &Progress<'a>) -> (r: Option<&'a str>)
    ensures
        match p.event {
            ProgressEvent::FileUpdated => if p.updated_files@.len() > 0 {
                r is Some && r->0@ == p.updated_files@.last()@
            } else {
                r is None
            },
            ProgressEvent::FileSkipped => if p.skipped_files@.len() > 0 {
                r is Some && r->0@ == p.skipped_files@.last()@
            } else {
                r is None
            },
            _ => r is None,
        },
{
    match p.event {
        ProgressEvent::FileUpdated => if p.updated_files.len() > 0 {
            Some(p.updated_files[p.updated_files.len() - 1].as_str())
        } else {
            None
        },
        ProgressEvent::FileSkipped => if p.skipped_files.len() > 0 {
            Some(p.skipped_files[p.skipped_files.len() - 1].as_str())
        } else {
            None
        },
        _ => None,
    }
}

/// The verdict on one version file.
#[derive(Debug, Clone, Copy, PartialEq, Eq, Structural)]
pub enum FileVerdict {
    Updated,
    UpToDate,
    Missing,
}

/// The results of a bump.
#[derive(Debug)]
pub struct BumpResults {
    pub release: Option<String>,
    pub current_version: String,
    pub new_version: String,
    pub commit: Option<String>,
    pub tag: Option<String>,
    pub updated_files: Vec<String>,
    pub skipped_files: Vec<String>,
    /// One verdict per collected file, in processing order, then the missing explicit paths.
    pub verdicts: Vec<(String, FileVerdict)>,
}

/// A pattern with a glob character (`*`, `?`, `[`).
pub open spec fn is_glob_spec(p: Seq<char>) -> bool {
    p.contains('*') || p.contains('?') || p.contains('[')
}

/// Whether a file pattern is a glob (else a literal path named by the user).
pub fn is_glob(pattern: &str) -> (r: bool)
    ensures
        r == is_glob_spec(pattern@),
{
    let v = crate::text::chars_of(pattern);
    let mut i: usize = 0;
    while i < v.len()
        invariant
            i <= v@.len(),
            v@ == pattern@,
            forall|k: int| 0 <= k < i ==> v@[k] != '*' && v@[k] != '?' && v@[k] != '[',
        decreases v.len() - i,
    {
        if v[i] == '*' || v[i] == '?' || v[i] == '[' {
            assert(is_glob_spec(v@)) by {
                if v@[i as int] == '*' {
                    assert(v@.contains('*'));
                } else if v@[i as int] == '?' {
                    assert(v@.contains('?'));
                } else {
                    assert(v@.contains('['));
                }
            }
            return true;
        }
        i = i + 1;
    }
    false
}

} // verus!
