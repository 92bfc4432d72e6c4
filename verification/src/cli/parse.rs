//! Command-line syntax: global flags, the `token` / `release` / `schema`
//! subcommands and the default bump command, parsed by hand.
//!
//! The grammar is stated as spec functions over the argument texts
//! (`parse_spec`); `parse` computes exactly that.

use vstd::prelude::*;
use crate::text::{
    chars_of, first_eq_index, has_prefix, index_of_char, lit, slice_chars, str_eq, strip_char,
    string_of,
};

verus! {

/// The outcome of parsing: global flags win over the subcommand (`--help`
/// anywhere before `--` shows the help); after `--` every argument is positional.
#[derive(Debug)]
pub enum Command {
    Help,
    Version,
    Token(Vec<String>),
    Bump(BumpArgs),
    Release(ReleaseArgs),
    Schema(SchemaArgs),
}

/// The `schema` subcommand: print the configuration's JSON Schema, or with
/// `--write` write it to the project (`--project`, the default) or to the
/// global directory (`--global`).
#[derive(Debug, Clone, Copy, PartialEq, Eq)]
pub struct SchemaArgs {
    pub write: bool,
    pub global: bool,
}

/// The default command (`vbumpp [...files]`).
#[derive(Debug)]
pub struct BumpArgs {
    pub files: Vec<String>,
    pub recursive: bool,
    pub output: String,
    pub provider: Option<String>,
    pub dry_run: bool,
}

/// The `release <version>` subcommand.
#[derive(Debug)]
pub struct ReleaseArgs {
    pub version: String,
    pub output: String,
    pub provider: Option<String>,
    pub dry_run: bool,
}

/// Abstract `BumpArgs`.
pub struct BumpArgsV {
    pub files: Seq<Seq<char>>,
    pub recursive: bool,
    pub output: Seq<char>,
    pub provider: Option<Seq<char>>,
    pub dry_run: bool,
}

/// Abstract `ReleaseArgs`.
pub struct ReleaseArgsV {
    pub version: Seq<char>,
    pub output: Seq<char>,
    pub provider: Option<Seq<char>>,
    pub dry_run: bool,
}

/// Abstract `Command`.
pub enum CommandV {
    Help,
    Version,
    Token(Seq<Seq<char>>),
    Bump(BumpArgsV),
    Release(ReleaseArgsV),
    Schema(SchemaArgs),
}

/// The texts of a list of strings.
pub open spec fn texts(v: Seq<String>) -> Seq<Seq<char>> {
    v.map_values(|s: String| s@)
}

pub open spec fn opt_text(o: Option<String>) -> Option<Seq<char>> {
    match o {
        Some(s) => Some(s@),
        None => None,
    }
}

impl BumpArgs {
    pub open spec fn view(&self) -> BumpArgsV {
        BumpArgsV {
            files: texts(self.files@),
            recursive: self.recursive,
            output: self.output@,
            provider: opt_text(self.provider),
            dry_run: self.dry_run,
        }
    }
}

impl ReleaseArgs {
    pub open spec fn view(&self) -> ReleaseArgsV {
        ReleaseArgsV {
            version: self.version@,
            output: self.output@,
            provider: opt_text(self.provider),
            dry_run: self.dry_run,
        }
    }
}

impl Command {
    pub open spec fn view(&self) -> CommandV {
        match self {
            Command::Help => CommandV::Help,
            Command::Version => CommandV::Version,
            Command::Token(a) => CommandV::Token(texts(a@)),
            Command::Bump(b) => CommandV::Bump(b.view()),
            Command::Release(r) => CommandV::Release(r.view()),
            Command::Schema(a) => CommandV::Schema(*a),
        }
    }
}

pub open spec fn command_result(r: Result<Command, String>) -> Result<CommandV, Seq<char>> {
    match r {
        Ok(c) => Ok(c.view()),
        Err(e) => Err(e@),
    }
}

/// A dash-led argument that is no bare `-`.
pub open spec fn is_short(arg: Seq<char>) -> bool {
    arg.len() > 1 && arg[0] == '-'
}

pub open spec fn needs_value(arg: Seq<char>) -> Seq<char> {
    "option "@ + arg + " requires a value"@
}

pub open spec fn unknown_option(arg: Seq<char>) -> Seq<char> {
    "unknown option: "@ + arg
}

pub open spec fn unknown_short(c: char) -> Seq<char> {
    "unknown option: -"@ + seq![c]
}

pub open spec fn default_output() -> Seq<char> {
    "CHANGELOG.md"@
}

/// A global flag before the first `--`, scanning from `i`.
pub open spec fn global_flag(argv: Seq<Seq<char>>, i: int) -> Option<CommandV>
    decreases argv.len() - i,
{
    if i < 0 || i >= argv.len() {
        None
    } else if argv[i] == "--"@ {
        None
    } else if argv[i] == "-h"@ || argv[i] == "--help"@ {
        Some(CommandV::Help)
    } else if argv[i] == "-v"@ || argv[i] == "--version"@ {
        Some(CommandV::Version)
    } else {
        global_flag(argv, i + 1)
    }
}

/// What a short-flag cluster does to the bump arguments.
pub enum ClusterOut {
    /// The cluster is consumed.
    Done(BumpArgsV),
    /// `o` ended the cluster with no inline value: the next argument is the output.
    NeedValue(BumpArgsV),
    Help,
    Version,
    Unknown(char),
}

/// The short-flag cluster `cl`, from its `k`-th character on.
pub open spec fn cluster_out(cl: Seq<char>, k: int, a: BumpArgsV) -> ClusterOut
    decreases cl.len() - k,
{
    if k < 0 || k >= cl.len() {
        ClusterOut::Done(a)
    } else {
        let c = cl[k];
        if c == 'r' {
            cluster_out(cl, k + 1, BumpArgsV { recursive: true, ..a })
        } else if c == 'h' {
            ClusterOut::Help
        } else if c == 'v' {
            ClusterOut::Version
        } else if c == 'o' {
            let rest = strip_char(cl.subrange(k + 1, cl.len() as int), '=');
            if rest.len() > 0 {
                ClusterOut::Done(BumpArgsV { output: rest, ..a })
            } else {
                ClusterOut::NeedValue(a)
            }
        } else {
            ClusterOut::Unknown(c)
        }
    }
}

/// The bump grammar from argument `i` on, with the arguments `a` gathered so far.
pub open spec fn bump_from(argv: Seq<Seq<char>>, i: int, a: BumpArgsV, positional: bool) -> Result<
    CommandV,
    Seq<char>,
>
    decreases argv.len() - i, 1int,
{
    if i < 0 || i >= argv.len() {
        Ok(CommandV::Bump(a))
    } else {
        let arg = argv[i];
        if positional {
            bump_from(argv, i + 1, BumpArgsV { files: a.files.push(arg), ..a }, true)
        } else if arg == "--"@ {
            bump_from(argv, i + 1, a, true)
        } else if arg == "-r"@ || arg == "--recursive"@ {
            bump_from(argv, i + 1, BumpArgsV { recursive: true, ..a }, false)
        } else if arg == "--dry-run"@ {
            bump_from(argv, i + 1, BumpArgsV { dry_run: true, ..a }, false)
        } else if arg == "-o"@ || arg == "--output"@ {
            if i + 1 >= argv.len() {
                Err(needs_value(arg))
            } else {
                bump_from(argv, i + 2, BumpArgsV { output: argv[i + 1], ..a }, false)
            }
        } else if arg == "--provider"@ {
            if i + 1 >= argv.len() {
                Err(needs_value(arg))
            } else {
                bump_from(argv, i + 2, BumpArgsV { provider: Some(argv[i + 1]), ..a }, false)
            }
        } else if has_prefix(arg, "--"@) {
            let j = index_of_char(arg, '=');
            if j < 0 {
                Err(unknown_option(arg))
            } else {
                let name = arg.subrange(0, j);
                let value = arg.subrange(j + 1, arg.len() as int);
                if name == "--output"@ {
                    bump_from(argv, i + 1, BumpArgsV { output: value, ..a }, false)
                } else if name == "--provider"@ {
                    bump_from(argv, i + 1, BumpArgsV { provider: Some(value), ..a }, false)
                } else if name == "--recursive"@ {
                    bump_from(argv, i + 1, BumpArgsV { recursive: true, ..a }, false)
                } else if name == "--dry-run"@ {
                    bump_from(argv, i + 1, BumpArgsV { dry_run: true, ..a }, false)
                } else {
                    Err(unknown_option(arg))
                }
            }
        } else if is_short(arg) {
            after_cluster(argv, i, cluster_out(arg.drop_first(), 0, a))
        } else {
            bump_from(argv, i + 1, BumpArgsV { files: a.files.push(arg), ..a }, false)
        }
    }
}

/// The bump grammar after the short-flag cluster at argument `i` gave `out`.
pub open spec fn after_cluster(argv: Seq<Seq<char>>, i: int, out: ClusterOut) -> Result<
    CommandV,
    Seq<char>,
>
    decreases argv.len() - i, 0int,
{
    if i < 0 || i >= argv.len() {
        Err(Seq::empty())
    } else {
        match out {
            ClusterOut::Done(b) => bump_from(argv, i + 1, b, false),
            ClusterOut::NeedValue(b) => if i + 1 >= argv.len() {
                Err("option -o requires a value"@)
            } else {
                bump_from(argv, i + 2, BumpArgsV { output: argv[i + 1], ..b }, false)
            },
            ClusterOut::Help => Ok(CommandV::Help),
            ClusterOut::Version => Ok(CommandV::Version),
            ClusterOut::Unknown(c) => Err(unknown_short(c)),
        }
    }
}

pub open spec fn initial_bump() -> BumpArgsV {
    BumpArgsV {
        files: Seq::empty(),
        recursive: false,
        output: default_output(),
        provider: None,
        dry_run: false,
    }
}

/// The bump command's grammar.
pub open spec fn parse_bump_spec(argv: Seq<Seq<char>>) -> Result<CommandV, Seq<char>> {
    bump_from(argv, 0, initial_bump(), false)
}

/// The state of the release grammar.
pub struct ReleaseStateV {
    pub version: Option<Seq<char>>,
    pub output: Seq<char>,
    pub provider: Option<Seq<char>>,
    pub dry_run: bool,
}

pub open spec fn release_usage() -> Seq<char> {
    "usage: vbumpp release <version> --provider <github|gitlab|gitee|gitcode>"@
}

/// The release grammar from argument `i` on.
pub open spec fn release_from(
    argv: Seq<Seq<char>>,
    i: int,
    s: ReleaseStateV,
    positional: bool,
) -> Result<CommandV, Seq<char>>
    decreases argv.len() - i,
{
    if i < 0 || i >= argv.len() {
        match s.version {
            Some(v) => Ok(
                CommandV::Release(
                    ReleaseArgsV {
                        version: v,
                        output: s.output,
                        provider: s.provider,
                        dry_run: s.dry_run,
                    },
                ),
            ),
            None => Err(release_usage()),
        }
    } else {
        let arg = argv[i];
        if positional {
            if s.version is Some {
                Err("unexpected argument: "@ + arg)
            } else {
                release_from(argv, i + 1, ReleaseStateV { version: Some(arg), ..s }, true)
            }
        } else if arg == "--"@ {
            release_from(argv, i + 1, s, true)
        } else if arg == "--dry-run"@ {
            release_from(argv, i + 1, ReleaseStateV { dry_run: true, ..s }, false)
        } else if arg == "-o"@ || arg == "--output"@ {
            if i + 1 >= argv.len() {
                Err(needs_value(arg))
            } else {
                release_from(argv, i + 2, ReleaseStateV { output: argv[i + 1], ..s }, false)
            }
        } else if arg == "--provider"@ {
            if i + 1 >= argv.len() {
                Err(needs_value(arg))
            } else {
                release_from(argv, i + 2, ReleaseStateV { provider: Some(argv[i + 1]), ..s }, false)
            }
        } else if has_prefix(arg, "--"@) {
            let j = index_of_char(arg, '=');
            if j < 0 {
                Err(unknown_option(arg))
            } else {
                let name = arg.subrange(0, j);
                let value = arg.subrange(j + 1, arg.len() as int);
                if name == "--output"@ {
                    release_from(argv, i + 1, ReleaseStateV { output: value, ..s }, false)
                } else if name == "--provider"@ {
                    release_from(argv, i + 1, ReleaseStateV { provider: Some(value), ..s }, false)
                } else if name == "--dry-run"@ {
                    release_from(argv, i + 1, ReleaseStateV { dry_run: true, ..s }, false)
                } else {
                    Err(unknown_option(arg))
                }
            }
        } else if is_short(arg) {
            let cl = arg.drop_first();
            if cl[0] != 'o' {
                Err("unknown option: -"@ + seq![cl[0]])
            } else {
                let rest = strip_char(cl.drop_first(), '=');
                if rest.len() > 0 {
                    release_from(argv, i + 1, ReleaseStateV { output: rest, ..s }, false)
                } else if i + 1 >= argv.len() {
                    Err("option -o requires a value"@)
                } else {
                    release_from(argv, i + 2, ReleaseStateV { output: argv[i + 1], ..s }, false)
                }
            }
        } else if s.version is Some {
            Err("unexpected argument: "@ + arg)
        } else {
            release_from(argv, i + 1, ReleaseStateV { version: Some(arg), ..s }, false)
        }
    }
}

pub open spec fn initial_release() -> ReleaseStateV {
    ReleaseStateV { version: None, output: default_output(), provider: None, dry_run: false }
}

/// The release subcommand's grammar.
pub open spec fn parse_release_spec(argv: Seq<Seq<char>>) -> Result<CommandV, Seq<char>> {
    release_from(argv, 0, initial_release(), false)
}

/// The schema grammar from argument `i` on: `--write`, `--global` and
/// `--project` (the last of these two wins); any other option or argument
/// is refused.
pub open spec fn schema_from(argv: Seq<Seq<char>>, i: int, a: SchemaArgs) -> Result<CommandV, Seq<char>>
    decreases argv.len() - i,
{
    if i < 0 || i >= argv.len() {
        Ok(CommandV::Schema(a))
    } else {
        let arg = argv[i];
        if arg == "--write"@ {
            schema_from(argv, i + 1, SchemaArgs { write: true, ..a })
        } else if arg == "--global"@ {
            schema_from(argv, i + 1, SchemaArgs { global: true, ..a })
        } else if arg == "--project"@ {
            schema_from(argv, i + 1, SchemaArgs { global: false, ..a })
        } else if is_short(arg) {
            Err(unknown_option(arg))
        } else {
            Err("unexpected argument: "@ + arg)
        }
    }
}

/// The schema subcommand's grammar.
pub open spec fn parse_schema_spec(argv: Seq<Seq<char>>) -> Result<CommandV, Seq<char>> {
    schema_from(argv, 0, SchemaArgs { write: false, global: false })
}

/// The whole command line.
pub open spec fn parse_spec(argv: Seq<Seq<char>>) -> Result<CommandV, Seq<char>> {
    match global_flag(argv, 0) {
        Some(c) => Ok(c),
        None => if argv.len() > 0 && argv[0] == "token"@ {
            Ok(CommandV::Token(argv.drop_first()))
        } else if argv.len() > 0 && argv[0] == "release"@ {
            parse_release_spec(argv.drop_first())
        } else if argv.len() > 0 && argv[0] == "schema"@ {
            parse_schema_spec(argv.drop_first())
        } else {
            parse_bump_spec(argv)
        },
    }
}

fn text_is(s: &String, t: &str) -> (r: bool)
    ensures
        r == (s@ == t@),
{
    str_eq(s.as_str(), t)
}

fn strip_eq_prefix(v: Vec<char>) -> (r: Vec<char>)
    ensures
        r@ == strip_char(v@, '='),
{
    if v.len() > 0 && v[0] == '=' {
        let r = slice_chars(&v, 1, v.len());
        assert(r@ =~= v@.drop_first());
        r
    } else {
        v
    }
}

/// The bump command's arguments (`argv` without a subcommand word).
fn parse_bump(argv: &[String]) -> (r: Result<Command, String>)
    ensures
        command_result(r) == parse_bump_spec(texts(argv@)),
{
    let ghost av = texts(argv@);
    let mut files: Vec<String> = Vec::new();
    let mut recursive = false;
    let mut output = String::from_str("CHANGELOG.md");
    let mut provider: Option<String> = None;
    let mut dry_run = false;
    let mut positional = false;
    let mut i: usize = 0;
    proof {
        reveal_strlit("CHANGELOG.md");
        assert(texts(files@) =~= Seq::<Seq<char>>::empty());
    }
    while i < argv.len()
        invariant
            i <= argv.len(),
            av == texts(argv@),
            parse_bump_spec(av) == bump_from(
                av,
                i as int,
                BumpArgsV {
                    files: texts(files@),
                    recursive,
                    output: output@,
                    provider: opt_text(provider),
                    dry_run,
                },
                positional,
            ),
        decreases argv.len() - i,
    {
        let ghost a = BumpArgsV {
            files: texts(files@),
            recursive,
            output: output@,
            provider: opt_text(provider),
            dry_run,
        };
        let arg = &argv[i];
        assert(av[i as int] == arg@);
        i = i + 1;
        if positional {
            files.push(arg.clone());
            assert(texts(files@) =~= a.files.push(arg@));
            continue;
        }
        if text_is(arg, "--") {
            positional = true;
        } else if text_is(arg, "-r") || text_is(arg, "--recursive") {
            recursive = true;
        } else if text_is(arg, "--dry-run") {
            dry_run = true;
        } else if text_is(arg, "-o") || text_is(arg, "--output") {
            if i >= argv.len() {
                let mut m = lit("option ");
                crate::text::extend_chars(&mut m, &chars_of(arg.as_str()));
                crate::text::extend_str(&mut m, " requires a value");
                return Err(string_of(&m));
            }
            output = argv[i].clone();
            assert(av[i as int] == output@);
            i = i + 1;
        } else if text_is(arg, "--provider") {
            if i >= argv.len() {
                let mut m = lit("option ");
                crate::text::extend_chars(&mut m, &chars_of(arg.as_str()));
                crate::text::extend_str(&mut m, " requires a value");
                return Err(string_of(&m));
            }
            provider = Some(argv[i].clone());
            assert(av[i as int] == argv@[i as int]@);
            i = i + 1;
        } else if crate::text::str_starts_with(arg.as_str(), "--") {
            let v = chars_of(arg.as_str());
            match first_eq_index(&v, '=') {
                None => {
                    let mut m = lit("unknown option: ");
                    crate::text::extend_chars(&mut m, &v);
                    return Err(string_of(&m));
                },
                Some(j) => {
                    let name = string_of(&slice_chars(&v, 0, j));
                    let value = string_of(&slice_chars(&v, j + 1, v.len()));
                    if text_is(&name, "--output") {
                        output = value;
                    } else if text_is(&name, "--provider") {
                        provider = Some(value);
                    } else if text_is(&name, "--recursive") {
                        recursive = true;
                    } else if text_is(&name, "--dry-run") {
                        dry_run = true;
                    } else {
                        let mut m = lit("unknown option: ");
                        crate::text::extend_chars(&mut m, &v);
                        return Err(string_of(&m));
                    }
                },
            }
        } else if is_short_exec(arg) {
            let v = chars_of(arg.as_str());
            let cl = slice_chars(&v, 1, v.len());
            assert(cl@ =~= arg@.drop_first());
            let mut k: usize = 0;
            let mut need_value = false;
            let ghost entry = bump_from(av, (i - 1) as int, a, false);
            assert(parse_bump_spec(av) == entry);
            assert(entry == after_cluster(av, (i - 1) as int, cluster_out(cl@, 0, a)));
            loop
                invariant_except_break
                    !need_value,
                invariant
                    k <= cl.len(),
                    av == texts(argv@),
                    parse_bump_spec(av) == entry,
                    i >= 1,
                    i <= argv.len(),
                    entry == after_cluster(av, (i - 1) as int, cluster_out(cl@, 0, a)),
                    cluster_out(cl@, 0, a) == cluster_out(
                        cl@,
                        k as int,
                        BumpArgsV {
                            files: texts(files@),
                            recursive,
                            output: output@,
                            provider: opt_text(provider),
                            dry_run,
                        },
                    ),
                    a.files == texts(files@),
                    a.provider == opt_text(provider),
                    a.dry_run == dry_run,
                ensures
                    need_value ==> cluster_out(cl@, 0, a) == ClusterOut::NeedValue(
                        BumpArgsV {
                            files: texts(files@),
                            recursive,
                            output: output@,
                            provider: opt_text(provider),
                            dry_run,
                        },
                    ),
                    !need_value ==> cluster_out(cl@, 0, a) == ClusterOut::Done(
                        BumpArgsV {
                            files: texts(files@),
                            recursive,
                            output: output@,
                            provider: opt_text(provider),
                            dry_run,
                        },
                    ),
                decreases cl.len() - k,
            {
                if k >= cl.len() {
                    break;
                }
                let c = cl[k];
                if c == 'r' {
                    recursive = true;
                } else if c == 'h' {
                    assert(cluster_out(cl@, 0, a) is Help);
                    assert(av.len() == argv.len());
                    return Ok(Command::Help);
                } else if c == 'v' {
                    assert(cluster_out(cl@, 0, a) is Version);
                    assert(av.len() == argv.len());
                    return Ok(Command::Version);
                } else if c == 'o' {
                    let rest = strip_eq_prefix(slice_chars(&cl, k + 1, cl.len()));
                    if rest.len() > 0 {
                        output = string_of(&rest);
                    } else {
                        need_value = true;
                    }
                    break;
                } else {
                    let mut m = lit("unknown option: -");
                    m.push(c);
                    assert(m@ =~= "unknown option: -"@ + seq![c]);
                    return Err(string_of(&m));
                }
                k = k + 1;
            }
            if need_value {
                if i >= argv.len() {
                    return Err(String::from_str("option -o requires a value"));
                }
                output = argv[i].clone();
                assert(av[i as int] == output@);
                i = i + 1;
            }
        } else {
            files.push(arg.clone());
            assert(texts(files@) =~= a.files.push(arg@));
        }
    }
    Ok(
        Command::Bump(
            BumpArgs { files: files, recursive: recursive, output: output, provider, dry_run },
        ),
    )
}

fn is_short_exec(arg: &String) -> (r: bool)
    ensures
        r == is_short(arg@),
{
    let v = chars_of(arg.as_str());
    v.len() > 1 && v[0] == '-'
}

/// The release subcommand's arguments (after the word `release`).
fn parse_release(argv: &[String]) -> (r: Result<Command, String>)
    ensures
        command_result(r) == parse_release_spec(texts(argv@)),
{
    let ghost av = texts(argv@);
    let mut version: Option<String> = None;
    let mut output = String::from_str("CHANGELOG.md");
    let mut provider: Option<String> = None;
    let mut dry_run = false;
    let mut positional = false;
    let mut i: usize = 0;
    proof {
        reveal_strlit("CHANGELOG.md");
    }
    while i < argv.len()
        invariant
            i <= argv.len(),
            av == texts(argv@),
            parse_release_spec(av) == release_from(
                av,
                i as int,
                ReleaseStateV {
                    version: opt_text(version),
                    output: output@,
                    provider: opt_text(provider),
                    dry_run,
                },
                positional,
            ),
        decreases argv.len() - i,
    {
        let ghost s = ReleaseStateV {
            version: opt_text(version),
            output: output@,
            provider: opt_text(provider),
            dry_run,
        };
        let arg = &argv[i];
        assert(av[i as int] == arg@);
        i = i + 1;
        let take_positional: bool;
        if positional {
            take_positional = true;
        } else if text_is(arg, "--") {
            positional = true;
            take_positional = false;
        } else if text_is(arg, "--dry-run") {
            dry_run = true;
            take_positional = false;
        } else if text_is(arg, "-o") || text_is(arg, "--output") {
            if i >= argv.len() {
                let mut m = lit("option ");
                crate::text::extend_chars(&mut m, &chars_of(arg.as_str()));
                crate::text::extend_str(&mut m, " requires a value");
                return Err(string_of(&m));
            }
            output = argv[i].clone();
            assert(av[i as int] == output@);
            i = i + 1;
            take_positional = false;
        } else if text_is(arg, "--provider") {
            if i >= argv.len() {
                let mut m = lit("option ");
                crate::text::extend_chars(&mut m, &chars_of(arg.as_str()));
                crate::text::extend_str(&mut m, " requires a value");
                return Err(string_of(&m));
            }
            provider = Some(argv[i].clone());
            assert(av[i as int] == argv@[i as int]@);
            i = i + 1;
            take_positional = false;
        } else if crate::text::str_starts_with(arg.as_str(), "--") {
            let v = chars_of(arg.as_str());
            match first_eq_index(&v, '=') {
                None => {
                    let mut m = lit("unknown option: ");
                    crate::text::extend_chars(&mut m, &v);
                    return Err(string_of(&m));
                },
                Some(j) => {
                    let name = string_of(&slice_chars(&v, 0, j));
                    let value = string_of(&slice_chars(&v, j + 1, v.len()));
                    if text_is(&name, "--output") {
                        output = value;
                    } else if text_is(&name, "--provider") {
                        provider = Some(value);
                    } else if text_is(&name, "--dry-run") {
                        dry_run = true;
                    } else {
                        let mut m = lit("unknown option: ");
                        crate::text::extend_chars(&mut m, &v);
                        return Err(string_of(&m));
                    }
                },
            }
            take_positional = false;
        } else if is_short_exec(arg) {
            let v = chars_of(arg.as_str());
            let cl = slice_chars(&v, 1, v.len());
            assert(cl@ =~= arg@.drop_first());
            if cl[0] != 'o' {
                let mut m = lit("unknown option: -");
                m.push(cl[0]);
                assert(m@ =~= "unknown option: -"@ + seq![cl@[0]]);
                return Err(string_of(&m));
            }
            let rest = strip_eq_prefix(slice_chars(&cl, 1, cl.len()));
            assert(cl@.subrange(1, cl@.len() as int) =~= cl@.drop_first());
            if rest.len() > 0 {
                output = string_of(&rest);
            } else {
                if i >= argv.len() {
                    return Err(String::from_str("option -o requires a value"));
                }
                output = argv[i].clone();
                assert(av[i as int] == output@);
                i = i + 1;
            }
            take_positional = false;
        } else {
            take_positional = true;
        }
        if take_positional {
            if version.is_some() {
                let mut m = lit("unexpected argument: ");
                crate::text::extend_chars(&mut m, &chars_of(arg.as_str()));
                return Err(string_of(&m));
            }
            version = Some(arg.clone());
        }
    }
    match version {
        Some(version) => Ok(Command::Release(ReleaseArgs { version, output, provider, dry_run })),
        None => Err(String::from_str("usage: vbumpp release <version> --provider <github|gitlab|gitee|gitcode>")),
    }
}

/// The global `-h` / `-v` flag before any `--`: `Some(true)` for help,
/// `Some(false)` for the version.
fn global_flag_exec(argv: &[String]) -> (r: Option<bool>)
    ensures
        r == match global_flag(texts(argv@), 0) {
            None => None::<bool>,
            Some(c) => Some(c == CommandV::Help),
        },
        global_flag(texts(argv@), 0) matches Some(c) ==> (c == CommandV::Help || c == CommandV::Version),
{
    let ghost av = texts(argv@);
    let mut i: usize = 0;
    while i < argv.len()
        invariant
            i <= argv.len(),
            av == texts(argv@),
            global_flag(av, 0) == global_flag(av, i as int),
        ensures
            global_flag(av, 0) is None,
        decreases argv.len() - i,
    {
        let arg = &argv[i];
        assert(av[i as int] == arg@);
        if text_is(arg, "--") {
            break;
        }
        if text_is(arg, "-h") || text_is(arg, "--help") {
            return Some(true);
        }
        if text_is(arg, "-v") || text_is(arg, "--version") {
            return Some(false);
        }
        i = i + 1;
    }
    None
}

/// The schema subcommand's arguments (after the word `schema`).
fn parse_schema(argv: &[String]) -> (r: Result<Command, String>)
    ensures
        command_result(r) == parse_schema_spec(texts(argv@)),
{
    let ghost av = texts(argv@);
    let mut a = SchemaArgs { write: false, global: false };
    let mut i: usize = 0;
    while i < argv.len()
        invariant
            i <= argv.len(),
            av == texts(argv@),
            parse_schema_spec(av) == schema_from(av, i as int, a),
        decreases argv.len() - i,
    {
        let arg = &argv[i];
        assert(av[i as int] == arg@);
        if text_is(arg, "--write") {
            a.write = true;
        } else if text_is(arg, "--global") {
            a.global = true;
        } else if text_is(arg, "--project") {
            a.global = false;
        } else if is_short_exec(arg) {
            let mut m = lit("unknown option: ");
            crate::text::extend_chars(&mut m, &chars_of(arg.as_str()));
            return Err(string_of(&m));
        } else {
            let mut m = lit("unexpected argument: ");
            crate::text::extend_chars(&mut m, &chars_of(arg.as_str()));
            return Err(string_of(&m));
        }
        i = i + 1;
    }
    Ok(Command::Schema(a))
}

/// Parses the command line (without the program name).
pub fn parse(argv: &[String]) -> (r: Result<Command, String>)
    ensures
        command_result(r) == parse_spec(texts(argv@)),
{
    let ghost av = texts(argv@);
    match global_flag_exec(argv) {
        Some(true) => return Ok(Command::Help),
        Some(false) => return Ok(Command::Version),
        None => {},
    }
    assert(global_flag(av, 0) is None);
    if argv.len() > 0 && text_is(&argv[0], "token") {
        assert(av[0] == argv@[0]@);
        let mut rest: Vec<String> = Vec::new();
        let mut k: usize = 1;
        while k < argv.len()
            invariant
                1 <= k <= argv.len(),
                av == texts(argv@),
                texts(rest@) == av.subrange(1, k as int),
            decreases argv.len() - k,
        {
            assert(av[k as int] == argv@[k as int]@);
            let item = argv[k].clone();
            assert(item@ == av[k as int]);
            let ghost before = rest@;
            rest.push(item);
            assert(rest@ == before.push(item));
            assert(texts(rest@) =~= texts(before).push(item@));
            assert(texts(rest@) =~= av.subrange(1, k + 1));
            k = k + 1;
        }
        assert(av.subrange(1, av.len() as int) =~= av.drop_first());
        return Ok(Command::Token(rest));
    }
    if argv.len() > 0 && text_is(&argv[0], "release") {
        assert(av[0] == argv@[0]@);
        let tail = &argv[1..argv.len()];
        assert(texts(tail@) =~= av.drop_first());
        return parse_release(tail);
    }
    if argv.len() > 0 && text_is(&argv[0], "schema") {
        assert(av[0] == argv@[0]@);
        let tail = &argv[1..argv.len()];
        assert(texts(tail@) =~= av.drop_first());
        return parse_schema(tail);
    }
    assert(!(av.len() > 0 && av[0] == "schema"@)) by {
        if av.len() > 0 {
            assert(av[0] == argv@[0]@);
        }
    }
    parse_bump(argv)
}

} // verus!
