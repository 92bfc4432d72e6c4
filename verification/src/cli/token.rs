//! The `token` subcommand: flag scanning and the decisions of `set`, `list`
//! and `remove` (which key, which lines, which targets). Prompts, the store
//! file and printing happen at the edge.

use vstd::prelude::*;
use crate::cli::parse::{is_short, texts};
use crate::text::{
    chars_of, extend_chars, extend_str, first_eq_index, has_prefix, index_of_char, lit,
    owned, push_str, slice_chars, str_eq, str_starts_with, string_of,
};
use crate::token::{display_key, display_key_spec, host_scoped_key, host_scoped_key_spec,
    normalize_host, normalize_host_spec, split_key, split_key_spec};
use crate::token_store::StrMap;
use crate::token::TokenError;

verus! {

/// What the flag scan of a `token` action found.
#[derive(Debug)]
pub struct TokenArgs {
    /// Positional arguments (all of them after `--`).
    pub positionals: Vec<String>,
    /// Boolean flags given (`--flag`, also `--flag=anything`), each once.
    pub flags: Vec<String>,
    /// Value flags (`--flag value` or `--flag=value`; a repeat keeps the last).
    pub values: StrMap,
}

/// Abstract `TokenArgs`.
pub struct TokenArgsV {
    pub positionals: Seq<Seq<char>>,
    pub flags: Set<Seq<char>>,
    pub values: Map<Seq<char>, Seq<char>>,
}

impl TokenArgs {
    pub open spec fn view(&self) -> TokenArgsV {
        TokenArgsV {
            positionals: texts(self.positionals@),
            flags: texts(self.flags@).to_set(),
            values: self.values@,
        }
    }
}

pub open spec fn strs(v: Seq<&str>) -> Seq<Seq<char>> {
    v.map_values(|s: &str| s@)
}

pub open spec fn value_missing(name: Seq<char>) -> Seq<char> {
    "option --"@ + name + " requires a value"@
}

/// The flag scan from argument `i` on.
pub open spec fn scan_from(
    args: Seq<Seq<char>>,
    bool_flags: Seq<Seq<char>>,
    value_flags: Seq<Seq<char>>,
    i: int,
    st: TokenArgsV,
    positional: bool,
) -> Result<TokenArgsV, Seq<char>>
    decreases args.len() - i,
{
    if i < 0 || i >= args.len() {
        Ok(st)
    } else {
        let arg = args[i];
        if positional {
            scan_from(
                args,
                bool_flags,
                value_flags,
                i + 1,
                TokenArgsV { positionals: st.positionals.push(arg), ..st },
                true,
            )
        } else if arg == "--"@ {
            scan_from(args, bool_flags, value_flags, i + 1, st, true)
        } else if has_prefix(arg, "--"@) {
            let long = arg.subrange(2, arg.len() as int);
            let j = index_of_char(long, '=');
            let name = if j < 0 {
                long
            } else {
                long.subrange(0, j)
            };
            if value_flags.contains(name) {
                if j >= 0 {
                    scan_from(
                        args,
                        bool_flags,
                        value_flags,
                        i + 1,
                        TokenArgsV {
                            values: st.values.insert(name, long.subrange(j + 1, long.len() as int)),
                            ..st
                        },
                        false,
                    )
                } else if i + 1 >= args.len() || is_short(args[i + 1]) {
                    Err(value_missing(name))
                } else {
                    scan_from(
                        args,
                        bool_flags,
                        value_flags,
                        i + 2,
                        TokenArgsV { values: st.values.insert(name, args[i + 1]), ..st },
                        false,
                    )
                }
            } else if bool_flags.contains(name) {
                scan_from(
                    args,
                    bool_flags,
                    value_flags,
                    i + 1,
                    TokenArgsV { flags: st.flags.insert(name), ..st },
                    false,
                )
            } else {
                Err("unknown option: "@ + arg)
            }
        } else if is_short(arg) {
            Err("unknown option: "@ + arg)
        } else {
            scan_from(
                args,
                bool_flags,
                value_flags,
                i + 1,
                TokenArgsV { positionals: st.positionals.push(arg), ..st },
                false,
            )
        }
    }
}

/// The flag scan of a `token` action's arguments.
pub open spec fn scan_spec(
    args: Seq<Seq<char>>,
    bool_flags: Seq<Seq<char>>,
    value_flags: Seq<Seq<char>>,
) -> Result<TokenArgsV, Seq<char>> {
    scan_from(
        args,
        bool_flags,
        value_flags,
        0,
        TokenArgsV { positionals: Seq::empty(), flags: Set::empty(), values: Map::empty() },
        false,
    )
}

fn listed(list: &[&str], name: &Vec<char>) -> (r: bool)
    ensures
        r == strs(list@).contains(name@),
{
    let mut i: usize = 0;
    while i < list.len()
        invariant
            i <= list@.len(),
            forall|k: int| 0 <= k < i ==> strs(list@)[k] != name@,
        decreases list.len() - i,
    {
        if crate::text::chars_eq(&chars_of(list[i]), name) {
            assert(strs(list@)[i as int] == name@);
            return true;
        }
        i = i + 1;
    }
    false
}

fn is_short_text(v: &Vec<char>) -> (r: bool)
    ensures
        r == is_short(v@),
{
    v.len() > 1 && v[0] == '-'
}

fn add_flag(flags: &mut Vec<String>, name: String)
    ensures
        texts(final(flags)@).to_set() == texts(old(flags)@).to_set().insert(name@),
        texts(old(flags)@).no_duplicates() ==> texts(final(flags)@).no_duplicates(),
{
    let mut i: usize = 0;
    while i < flags.len()
        invariant
            i <= flags@.len(),
            forall|k: int| 0 <= k < i ==> texts(flags@)[k] != name@,
        decreases flags.len() - i,
    {
        if str_eq(flags[i].as_str(), name.as_str()) {
            assert(texts(flags@)[i as int] == name@);
            assert(texts(flags@).to_set().insert(name@) =~= texts(flags@).to_set());
            return;
        }
        i = i + 1;
    }
    let ghost before = flags@;
    flags.push(name);
    assert(texts(flags@) =~= texts(before).push(name@));
    assert(texts(flags@) =~= texts(before) + seq![name@]);
    proof {
        Seq::lemma_to_set_insert_commutes(texts(before), name@);
    }
    assert(texts(flags@).to_set() =~= texts(before).to_set().insert(name@));
}

/// Scans a `token` action's arguments: `--flag`, `--flag=value`, `--flag value`
/// (a dash-led next argument is no value), `--` ends the flags; any other
/// dash-led argument is an unknown option.
pub fn scan_token_args(args: &[String], bool_flags: &[&str], value_flags: &[&str]) -> (r: Result<
    TokenArgs,
    String,
>)
    ensures
        match scan_spec(texts(args@), strs(bool_flags@), strs(value_flags@)) {
            Ok(v) => r is Ok && r->Ok_0.view() == v,
            Err(m) => r is Err && r->Err_0@ == m,
        },
{
    let ghost av = texts(args@);
    let ghost bf = strs(bool_flags@);
    let ghost vf = strs(value_flags@);
    let mut positionals: Vec<String> = Vec::new();
    let mut flags: Vec<String> = Vec::new();
    let mut values = StrMap::new();
    let mut positional = false;
    let mut i: usize = 0;
    assert(texts(positionals@) =~= Seq::<Seq<char>>::empty());
    assert(texts(flags@).to_set() =~= Set::<Seq<char>>::empty());
    while i < args.len()
        invariant
            i <= args.len(),
            av == texts(args@),
            bf == strs(bool_flags@),
            vf == strs(value_flags@),
            scan_spec(av, bf, vf) == scan_from(
                av,
                bf,
                vf,
                i as int,
                TokenArgsV {
                    positionals: texts(positionals@),
                    flags: texts(flags@).to_set(),
                    values: values@,
                },
                positional,
            ),
        decreases args.len() - i,
    {
        let arg = &args[i];
        assert(av[i as int] == arg@);
        i = i + 1;
        if positional {
            let ghost before = positionals@;
            positionals.push(arg.clone());
            assert(texts(positionals@) =~= texts(before).push(arg@));
            continue;
        }
        if str_eq(arg.as_str(), "--") {
            positional = true;
            continue;
        }
        if str_starts_with(arg.as_str(), "--") {
            let v = chars_of(arg.as_str());
            proof {
                reveal_strlit("--");
            }
            let long = slice_chars(&v, 2, v.len());
            let (name, inline) = match first_eq_index(&long, '=') {
                Some(j) => (slice_chars(&long, 0, j), Some(slice_chars(&long, j + 1, long.len()))),
                None => (long, None),
            };
            if listed(value_flags, &name) {
                let value = match inline {
                    Some(value) => string_of(&value),
                    None => {
                        if i >= args.len() || is_short_text(&chars_of(args[i].as_str())) {
                            let mut m = lit("option --");
                            extend_chars(&mut m, &name);
                            extend_str(&mut m, " requires a value");
                            return Err(string_of(&m));
                        }
                        let next = args[i].clone();
                        assert(av[i as int] == next@);
                        i = i + 1;
                        next
                    },
                };
                values.insert(string_of(&name), value);
            } else if listed(bool_flags, &name) {
                add_flag(&mut flags, string_of(&name));
            } else {
                let mut m = lit("unknown option: ");
                extend_chars(&mut m, &v);
                return Err(string_of(&m));
            }
            continue;
        }
        if is_short_text(&chars_of(arg.as_str())) {
            let mut m = lit("unknown option: ");
            extend_str(&mut m, arg.as_str());
            return Err(string_of(&m));
        }
        let ghost before = positionals@;
        positionals.push(arg.clone());
        assert(texts(positionals@) =~= texts(before).push(arg@));
    }
    Ok(TokenArgs { positionals, flags, values })
}


/// `--host` with a name: only `gitlab` has host-scoped keys.
pub open spec fn gitlab_scoped_spec(name: Seq<char>, raw_host: Seq<char>) -> Result<Seq<char>, Seq<char>> {
    if name != "gitlab"@ {
        Err("--host is only supported for gitlab (got "@ + name + ")"@)
    } else {
        host_scoped_key_spec(name, raw_host)
    }
}

/// The key `token set` stores under.
pub open spec fn set_key_spec(a: TokenArgsV) -> Result<Seq<char>, Seq<char>> {
    if a.positionals.len() == 0 {
        Err("usage: vbumpp token set <name>"@)
    } else if a.values.contains_key("host"@) {
        gitlab_scoped_spec(a.positionals[0], a.values["host"@])
    } else {
        Ok(a.positionals[0])
    }
}

fn gitlab_scoped_key(name: &String, raw_host: &String) -> (r: Result<String, String>)
    ensures
        match gitlab_scoped_spec(name@, raw_host@) {
            Ok(k) => r is Ok && r->Ok_0@ == k,
            Err(m) => r is Err && r->Err_0@ == m,
        },
{
    if !str_eq(name.as_str(), "gitlab") {
        let mut m = lit("--host is only supported for gitlab (got ");
        extend_str(&mut m, name.as_str());
        extend_str(&mut m, ")");
        return Err(string_of(&m));
    }
    match host_scoped_key(name.as_str(), raw_host.as_str()) {
        Ok(k) => Ok(k),
        Err(e) => Err(e.message().clone()),
    }
}

/// The key `token set` stores under: the name, or with `--host` the
/// gitlab host-scoped key; the error message otherwise.
pub fn set_key(scanned: &TokenArgs) -> (r: Result<String, String>)
    ensures
        match set_key_spec(scanned.view()) {
            Ok(k) => r is Ok && r->Ok_0@ == k,
            Err(m) => r is Err && r->Err_0@ == m,
        },
{
    if scanned.positionals.len() == 0 {
        return Err(string_of(&lit("usage: vbumpp token set <name>")));
    }
    let name = &scanned.positionals[0];
    assert(scanned.view().positionals[0] == name@);
    match scanned.values.get("host") {
        Some(host) => gitlab_scoped_key(name, &host),
        None => Ok(name.clone()),
    }
}

/// The host filter of `token list --host`: the canonical host, or the error.
pub open spec fn list_filter_spec(a: TokenArgsV) -> Result<Option<Seq<char>>, Seq<char>> {
    if a.values.contains_key("host"@) {
        match normalize_host_spec(a.values["host"@]) {
            Ok(h) => Ok(Some(h)),
            Err(m) => Err(m),
        }
    } else {
        Ok(None)
    }
}

/// The host filter of `token list` (see `list_filter_spec`).
pub fn list_filter(scanned: &TokenArgs) -> (r: Result<Option<String>, String>)
    ensures
        match list_filter_spec(scanned.view()) {
            Ok(Some(h)) => r is Ok && r->Ok_0 is Some && r->Ok_0->0@ == h,
            Ok(None) => r is Ok && r->Ok_0 is None,
            Err(m) => r is Err && r->Err_0@ == m,
        },
{
    match scanned.values.get("host") {
        Some(raw) => match normalize_host(raw.as_str()) {
            Ok(h) => Ok(Some(h)),
            Err(e) => Err(e.message().clone()),
        },
        None => Ok(None),
    }
}

/// The kinds of console lines.
#[derive(Debug, Clone, Copy, PartialEq, Eq)]
pub enum LineKind {
    Info,
    Success,
    Warn,
    Error,
    /// Printed as is, without a symbol.
    Plain,
}

/// A key passes the list filter.
pub open spec fn key_shown(key: Seq<char>, filter: Option<Seq<char>>) -> bool {
    match filter {
        None => true,
        Some(f) => split_key_spec(key).1 == Some(f),
    }
}

/// The friendly forms of the keys that pass the filter, in order.
pub open spec fn shown_keys(keys: Seq<Seq<char>>, filter: Option<Seq<char>>) -> Seq<Seq<char>>
    decreases keys.len(),
{
    if keys.len() == 0 {
        Seq::empty()
    } else {
        let rest = shown_keys(keys.drop_last(), filter);
        if key_shown(keys.last(), filter) {
            rest.push(display_key_spec(keys.last()))
        } else {
            rest
        }
    }
}

/// The lines of `token list`: each shown key as an info line; when the table
/// is empty "no tokens configured"; when a filter left nothing a warning.
pub open spec fn list_lines_spec(keys: Seq<Seq<char>>, filter: Option<Seq<char>>) -> Seq<
    (LineKind, Seq<char>),
> {
    if keys.len() == 0 {
        seq![(LineKind::Info, "no tokens configured"@)]
    } else {
        let shown = shown_keys(keys, filter);
        let lines = shown.map_values(|t: Seq<char>| (LineKind::Info, t));
        if shown.len() == 0 {
            match filter {
                Some(f) => lines.push((LineKind::Warn, "no token found for host "@ + f)),
                None => lines,
            }
        } else {
            lines
        }
    }
}

pub open spec fn lines_view(v: Seq<(LineKind, String)>) -> Seq<(LineKind, Seq<char>)> {
    v.map_values(|p: (LineKind, String)| (p.0, p.1@))
}

fn opt_eq(a: &Option<String>, b: &String) -> (r: bool)
    ensures
        r == (a is Some && a->0@ == b@),
{
    match a {
        Some(x) => str_eq(x.as_str(), b.as_str()),
        None => false,
    }
}

/// The lines `token list` prints for the stored keys (see `list_lines_spec`).
pub fn list_lines(tokens: &StrMap, filter: &Option<String>) -> (r: Vec<(LineKind, String)>)
    ensures
        lines_view(r@) == list_lines_spec(tokens.key_order(), crate::cli::parse::opt_text(*filter)),
{
    let keys = tokens.keys();
    let ghost ks = tokens.key_order();
    let ghost fv = crate::cli::parse::opt_text(*filter);
    let mut out: Vec<(LineKind, String)> = Vec::new();
    if keys.len() == 0 {
        out.push((LineKind::Info, string_of(&lit("no tokens configured"))));
        assert(lines_view(out@) =~= list_lines_spec(ks, fv));
        return out;
    }
    let mut i: usize = 0;
    while i < keys.len()
        invariant
            i <= keys@.len(),
            texts(keys@) == ks,
            fv == crate::cli::parse::opt_text(*filter),
            lines_view(out@) == shown_keys(ks.subrange(0, i as int), fv).map_values(
                |t: Seq<char>| (LineKind::Info, t),
            ),
        decreases keys.len() - i,
    {
        let key = &keys[i];
        assert(ks[i as int] == key@);
        assert(ks.subrange(0, i + 1).drop_last() =~= ks.subrange(0, i as int));
        let parts = split_key(key.as_str());
        let host = parts.1;
        let shown = match filter {
            None => {
                assert(fv is None);
                true
            },
            Some(f) => {
                let b = opt_eq(&host, f);
                assert(fv == Some(f@));
                proof {
                    match split_key_spec(key@).1 {
                        Some(h) => {
                            assert(host is Some && host->0@ == h);
                        },
                        None => {
                            assert(host is None);
                        },
                    }
                }
                b
            },
        };
        assert(shown == key_shown(key@, fv));
        let ghost prev = shown_keys(ks.subrange(0, i as int), fv);
        assert(shown_keys(ks.subrange(0, i + 1), fv) == if shown {
            prev.push(display_key_spec(key@))
        } else {
            prev
        });
        let ghost before = out@;
        if shown {
            out.push((LineKind::Info, display_key(key.as_str())));
            assert(lines_view(out@) =~= lines_view(before).push(
                (LineKind::Info, display_key_spec(key@)),
            ));
        }
        assert(lines_view(out@) =~= shown_keys(ks.subrange(0, i + 1), fv).map_values(
            |t: Seq<char>| (LineKind::Info, t),
        ));
        i = i + 1;
    }
    assert(ks.subrange(0, ks.len() as int) =~= ks);
    if out.len() == 0 {
        if let Some(f) = filter {
            let mut m = lit("no token found for host ");
            extend_str(&mut m, f.as_str());
            let ghost before = out@;
            out.push((LineKind::Warn, string_of(&m)));
            assert(lines_view(out@) =~= lines_view(before).push(
                (LineKind::Warn, "no token found for host "@ + f@),
            ));
        }
    }
    out
}


/// The usage error of `token remove`, if any (checked before the store is read).
pub open spec fn remove_usage_spec(a: TokenArgsV) -> Option<Seq<char>> {
    if a.flags.contains("all"@) && a.values.contains_key("host"@) {
        Some("options --host and --all cannot be used together"@)
    } else if a.positionals.len() == 0 && !a.flags.contains("all"@) {
        Some("usage: vbumpp token remove <name>"@)
    } else {
        None
    }
}

fn has_flag(a: &TokenArgs, name: &str) -> (r: bool)
    ensures
        r == a.view().flags.contains(name@),
{
    let mut i: usize = 0;
    while i < a.flags.len()
        invariant
            i <= a.flags@.len(),
            forall|k: int| 0 <= k < i ==> texts(a.flags@)[k] != name@,
        decreases a.flags.len() - i,
    {
        if str_eq(a.flags[i].as_str(), name) {
            assert(texts(a.flags@)[i as int] == name@);
            return true;
        }
        i = i + 1;
    }
    false
}

/// The usage error of `token remove` (see `remove_usage_spec`).
pub fn remove_usage(scanned: &TokenArgs) -> (r: Option<String>)
    ensures
        match remove_usage_spec(scanned.view()) {
            Some(m) => r is Some && r->0@ == m,
            None => r is None,
        },
{
    let all = has_flag(scanned, "all");
    if all && scanned.values.contains_key("host") {
        return Some(string_of(&lit("options --host and --all cannot be used together")));
    }
    if scanned.positionals.len() == 0 && !all {
        return Some(string_of(&lit("usage: vbumpp token remove <name>")));
    }
    None
}

/// Which stored keys a removal takes.
pub enum Select {
    /// Every key.
    All,
    /// The provider-level key and every host-scoped key of the provider.
    Provider(Seq<char>),
    /// Exactly this key.
    Exact(Seq<char>),
}

pub open spec fn selected(key: Seq<char>, sel: Select) -> bool {
    match sel {
        Select::All => true,
        Select::Provider(p) => split_key_spec(key).0 == p,
        Select::Exact(k) => key == k,
    }
}

/// The selected keys, in table order.
pub open spec fn select_keys(keys: Seq<Seq<char>>, sel: Select) -> Seq<Seq<char>>
    decreases keys.len(),
{
    if keys.len() == 0 {
        Seq::empty()
    } else {
        let rest = select_keys(keys.drop_last(), sel);
        if selected(keys.last(), sel) {
            rest.push(keys.last())
        } else {
            rest
        }
    }
}

/// What `token remove` does once the store is read.
pub enum RemoveTargets {
    /// An error (exit status 1).
    Fail(String),
    /// Nothing to remove: the warning (exit status 0).
    Nothing(String),
    /// The keys to remove, in table order.
    Remove(Vec<String>),
}

pub enum RemoveTargetsV {
    Fail(Seq<char>),
    Nothing(Seq<char>),
    Remove(Seq<Seq<char>>),
}

impl RemoveTargets {
    pub open spec fn view(&self) -> RemoveTargetsV {
        match self {
            RemoveTargets::Fail(m) => RemoveTargetsV::Fail(m@),
            RemoveTargets::Nothing(m) => RemoveTargetsV::Nothing(m@),
            RemoveTargets::Remove(v) => RemoveTargetsV::Remove(texts(v@)),
        }
    }
}

/// The selection with its empty case: an empty `--all` selection warns.
pub open spec fn finish_select(a: TokenArgsV, keys: Seq<Seq<char>>, sel: Select) -> RemoveTargetsV {
    let t = select_keys(keys, sel);
    if t.len() > 0 {
        RemoveTargetsV::Remove(t)
    } else if a.positionals.len() > 0 {
        RemoveTargetsV::Nothing("no token found for "@ + a.positionals[0])
    } else {
        RemoveTargetsV::Nothing("no tokens configured"@)
    }
}

/// The targets of `token remove` for the stored keys `keys` (table `m`):
/// `--all` with a name takes the provider's keys, `--all` alone every key,
/// `--host` the gitlab host-scoped key, else the named key; a missing key or
/// an empty selection is a warning.
pub open spec fn remove_targets_spec(
    a: TokenArgsV,
    keys: Seq<Seq<char>>,
    m: Map<Seq<char>, Seq<char>>,
) -> RemoveTargetsV {
    if a.flags.contains("all"@) {
        if a.positionals.len() > 0 {
            finish_select(a, keys, Select::Provider(a.positionals[0]))
        } else {
            finish_select(a, keys, Select::All)
        }
    } else if a.values.contains_key("host"@) {
        match gitlab_scoped_spec(a.positionals[0], a.values["host"@]) {
            Err(msg) => RemoveTargetsV::Fail(msg),
            Ok(key) => if !m.contains_key(key) {
                RemoveTargetsV::Nothing("no token found for "@ + display_key_spec(key))
            } else {
                finish_select(a, keys, Select::Exact(key))
            },
        }
    } else if !m.contains_key(a.positionals[0]) {
        RemoveTargetsV::Nothing("no token found for "@ + a.positionals[0])
    } else {
        finish_select(a, keys, Select::Exact(a.positionals[0]))
    }
}

fn select(keys: &Vec<String>, all: bool, who: &String) -> (r: Vec<String>)
    ensures
        texts(r@) == select_keys(
            texts(keys@),
            if all {
                Select::All
            } else {
                Select::Provider(who@)
            },
        ),
{
    let ghost ks = texts(keys@);
    let ghost sel = if all { Select::All } else { Select::Provider(who@) };
    let mut out: Vec<String> = Vec::new();
    let mut i: usize = 0;
    while i < keys.len()
        invariant
            i <= keys@.len(),
            ks == texts(keys@),
            sel == (if all { Select::All } else { Select::Provider(who@) }),
            texts(out@) == select_keys(ks.subrange(0, i as int), sel),
        decreases keys.len() - i,
    {
        let key = &keys[i];
        assert(ks[i as int] == key@);
        assert(ks.subrange(0, i + 1).drop_last() =~= ks.subrange(0, i as int));
        let take = if all {
            true
        } else {
            let (p, _) = split_key(key.as_str());
            str_eq(p.as_str(), who.as_str())
        };
        let ghost before = out@;
        if take {
            out.push(key.clone());
            assert(texts(out@) =~= texts(before).push(key@));
        }
        i = i + 1;
    }
    assert(ks.subrange(0, ks.len() as int) =~= ks);
    out
}

fn select_exact(keys: &Vec<String>, key: &String) -> (r: Vec<String>)
    ensures
        texts(r@) == select_keys(texts(keys@), Select::Exact(key@)),
{
    let ghost ks = texts(keys@);
    let mut out: Vec<String> = Vec::new();
    let mut i: usize = 0;
    while i < keys.len()
        invariant
            i <= keys@.len(),
            ks == texts(keys@),
            texts(out@) == select_keys(ks.subrange(0, i as int), Select::Exact(key@)),
        decreases keys.len() - i,
    {
        let k = &keys[i];
        assert(ks[i as int] == k@);
        assert(ks.subrange(0, i + 1).drop_last() =~= ks.subrange(0, i as int));
        let ghost before = out@;
        if str_eq(k.as_str(), key.as_str()) {
            out.push(k.clone());
            assert(texts(out@) =~= texts(before).push(k@));
        }
        i = i + 1;
    }
    assert(ks.subrange(0, ks.len() as int) =~= ks);
    out
}

fn finish(scanned: &TokenArgs, t: Vec<String>) -> (r: RemoveTargets)
    ensures
        texts(t@).len() > 0 ==> r.view() == RemoveTargetsV::Remove(texts(t@)),
        texts(t@).len() == 0 && scanned.view().positionals.len() > 0 ==> r.view()
            == RemoveTargetsV::Nothing("no token found for "@ + scanned.view().positionals[0]),
        texts(t@).len() == 0 && scanned.view().positionals.len() == 0 ==> r.view()
            == RemoveTargetsV::Nothing("no tokens configured"@),
{
    if t.len() > 0 {
        RemoveTargets::Remove(t)
    } else if scanned.positionals.len() > 0 {
        let mut m = lit("no token found for ");
        extend_str(&mut m, scanned.positionals[0].as_str());
        assert(scanned.view().positionals[0] == scanned.positionals@[0]@);
        RemoveTargets::Nothing(string_of(&m))
    } else {
        RemoveTargets::Nothing(string_of(&lit("no tokens configured")))
    }
}

/// The targets of `token remove` (see `remove_targets_spec`), for arguments
/// that passed `remove_usage`.
pub fn remove_targets(scanned: &TokenArgs, tokens: &StrMap) -> (r: RemoveTargets)
    requires
        remove_usage_spec(scanned.view()) is None,
    ensures
        r.view() == remove_targets_spec(scanned.view(), tokens.key_order(), tokens@),
{
    let keys = tokens.keys();
    let all = has_flag(scanned, "all");
    if all {
        if scanned.positionals.len() > 0 {
            assert(scanned.view().positionals[0] == scanned.positionals@[0]@);
            let t = select(&keys, false, &scanned.positionals[0]);
            return finish(scanned, t);
        } else {
            let empty = String::new();
            let t = select(&keys, true, &empty);
            return finish(scanned, t);
        }
    }
    let name = &scanned.positionals[0];
    assert(scanned.view().positionals[0] == name@);
    match scanned.values.get("host") {
        Some(host) => match gitlab_scoped_key(name, &host) {
            Err(msg) => RemoveTargets::Fail(msg),
            Ok(key) => {
                if !tokens.contains_key(key.as_str()) {
                    let mut m = lit("no token found for ");
                    let d = display_key(key.as_str());
                    extend_str(&mut m, d.as_str());
                    RemoveTargets::Nothing(string_of(&m))
                } else {
                    let t = select_exact(&keys, &key);
                    finish(scanned, t)
                }
            },
        },
        None => {
            if !tokens.contains_key(name.as_str()) {
                let mut m = lit("no token found for ");
                extend_str(&mut m, name.as_str());
                RemoveTargets::Nothing(string_of(&m))
            } else {
                let t = select_exact(&keys, name);
                finish(scanned, t)
            }
        },
    }
}

/// The actions of `vbumpp token`.
#[derive(Debug, Clone, Copy, PartialEq, Eq, Structural)]
pub enum TokenAction {
    /// `set`: store a token.
    Save,
    List,
    Remove,
}

/// The usage line of `vbumpp token`.
pub open spec fn token_usage_spec() -> Seq<char> {
    "usage: vbumpp token <action> [name] (action: set / list / remove)"@
}

/// The action named by the first argument: the usage error when there is
/// none, an error for an unknown one.
pub open spec fn token_action_spec(args: Seq<Seq<char>>) -> Result<TokenAction, Seq<char>> {
    if args.len() == 0 {
        Err(token_usage_spec())
    } else if args[0] == "set"@ {
        Ok(TokenAction::Save)
    } else if args[0] == "list"@ {
        Ok(TokenAction::List)
    } else if args[0] == "remove"@ {
        Ok(TokenAction::Remove)
    } else {
        Err("unknown action: "@ + args[0] + " (expected set / list / remove)"@)
    }
}

/// The action of a `vbumpp token` invocation (see `token_action_spec`).
pub fn token_action(args: &[String]) -> (r: Result<TokenAction, String>)
    ensures
        match token_action_spec(texts(args@)) {
            Ok(a) => r == Ok::<TokenAction, String>(a),
            Err(m) => r matches Err(x) && x@ == m,
        },
{
    if args.len() == 0 {
        return Err(owned("usage: vbumpp token <action> [name] (action: set / list / remove)"));
    }
    let a = args[0].as_str();
    assert(texts(args@)[0] == a@);
    if str_eq(a, "set") {
        Ok(TokenAction::Save)
    } else if str_eq(a, "list") {
        Ok(TokenAction::List)
    } else if str_eq(a, "remove") {
        Ok(TokenAction::Remove)
    } else {
        let mut m = owned("unknown action: ");
        push_str(&mut m, a);
        push_str(&mut m, " (expected set / list / remove)");
        Err(m)
    }
}

/// The lines that list the keys a removal takes (friendly forms), under a
/// heading that says whether it is a dry run.
pub open spec fn remove_list_spec(keys: Seq<Seq<char>>, dry_run: bool) -> Seq<(LineKind, Seq<char>)> {
    seq![
        (LineKind::Info, if dry_run {
            "tokens to remove (dry run — no changes made):"@
        } else {
            "tokens to remove:"@
        }),
    ] + keys.map_values(|k: Seq<char>| (LineKind::Info, "  "@ + crate::token::display_key_spec(k)))
}

/// The lines that list the keys a removal takes.
pub fn remove_list_lines(keys: &Vec<String>, dry_run: bool) -> (r: Vec<(LineKind, String)>)
    ensures
        lines_view(r@) == remove_list_spec(texts(keys@), dry_run),
{
    let mut out: Vec<(LineKind, String)> = Vec::new();
    if dry_run {
        out.push((LineKind::Info, owned("tokens to remove (dry run — no changes made):")));
    } else {
        out.push((LineKind::Info, owned("tokens to remove:")));
    }
    let ghost h = lines_view(out@);
    let ghost kv = texts(keys@);
    let mut i: usize = 0;
    while i < keys.len()
        invariant
            i <= keys@.len(),
            kv == texts(keys@),
            lines_view(out@) == h + kv.subrange(0, i as int).map_values(
                |k: Seq<char>| (LineKind::Info, "  "@ + crate::token::display_key_spec(k)),
            ),
        decreases keys.len() - i,
    {
        let mut line = owned("  ");
        push_str(&mut line, display_key(keys[i].as_str()).as_str());
        let ghost before = lines_view(out@);
        out.push((LineKind::Info, line));
        assert(kv[i as int] == keys@[i as int]@);
        assert(lines_view(out@) =~= before.push((LineKind::Info, line@)));
        assert(kv.subrange(0, i + 1).map_values(|k: Seq<char>| (LineKind::Info, "  "@ + crate::token::display_key_spec(k)))
            =~= kv.subrange(0, i as int).map_values(
            |k: Seq<char>| (LineKind::Info, "  "@ + crate::token::display_key_spec(k)),
        ).push((LineKind::Info, line@)));
        i = i + 1;
    }
    assert(kv.subrange(0, kv.len() as int) =~= kv);
    out
}

/// The line once a token was saved.
pub fn saved_message(shown: &str) -> (r: String)
    ensures
        r@ == shown@ + " token saved (encrypted)"@,
{
    let mut m = owned(shown);
    push_str(&mut m, " token saved (encrypted)");
    m
}

/// The line once a token was removed: its key's friendly form.
pub fn removed_message(key: &str) -> (r: String)
    ensures
        r@ == crate::token::display_key_spec(key@) + " token removed"@,
{
    let mut m = display_key(key);
    push_str(&mut m, " token removed");
    m
}

/// What a typed token answer gives: the token without white space at either
/// end; an error when nothing is left.
pub fn entered_token(input: &str) -> (r: Result<String, TokenError>)
    ensures
        match r {
            Ok(t) => crate::text::trim_spec(input@).len() > 0 && t@ == crate::text::trim_spec(input@),
            Err(e) => crate::text::trim_spec(input@).len() == 0 && e is Prompt && e.message_view()
                == "token must not be empty"@,
        },
{
    let t = crate::text::str_trim(input);
    if t.unicode_len() == 0 {
        Err(TokenError::Prompt { message: crate::text::owned("token must not be empty") })
    } else {
        Ok(t)
    }
}

/// The next step of `token remove` once the keys are listed.
#[derive(Debug, PartialEq, Eq)]
pub enum RemoveStep {
    /// Stop here (a dry run, or a declined confirmation).
    Stop,
    /// Ask for confirmation first.
    Confirm,
    /// Remove the listed keys.
    Remove,
}

/// The step after listing: a dry run stops, `--yes` removes, otherwise
/// confirmation is asked.
pub open spec fn remove_step_spec(a: TokenArgsV) -> RemoveStep {
    if a.flags.contains("dry-run"@) {
        RemoveStep::Stop
    } else if a.flags.contains("yes"@) {
        RemoveStep::Remove
    } else {
        RemoveStep::Confirm
    }
}

/// After listing: a dry run stops, `--yes` removes, otherwise confirmation
/// is asked.
pub fn remove_next(scanned: &TokenArgs) -> (r: RemoveStep)
    ensures
        r == remove_step_spec(scanned.view()),
{
    if has_flag(scanned, "dry-run") {
        RemoveStep::Stop
    } else if has_flag(scanned, "yes") {
        RemoveStep::Remove
    } else {
        RemoveStep::Confirm
    }
}

/// A confirmed removal goes on; a declined one stops.
pub fn after_confirm(answer: bool) -> (r: RemoveStep)
    ensures
        r == (if answer { RemoveStep::Remove } else { RemoveStep::Stop }),
{
    if answer {
        RemoveStep::Remove
    } else {
        RemoveStep::Stop
    }
}

/// A dry run of `token remove` neither asks nor removes: whatever the store
/// holds and whether or not `--yes` is given, the targets are listed under
/// the dry-run heading, one line each, and the next step is to stop.
pub proof fn law_dry_run_removal_changes_nothing(a: TokenArgsV, keys: Seq<Seq<char>>)
    requires
        a.flags.contains("dry-run"@),
    ensures
        remove_step_spec(a) == RemoveStep::Stop,
        remove_list_spec(keys, a.flags.contains("dry-run"@))[0] == (
            LineKind::Info,
            "tokens to remove (dry run — no changes made):"@,
        ),
        remove_list_spec(keys, a.flags.contains("dry-run"@)).len() == keys.len() + 1,
{
}

/// The confirmation question of `token remove`.
pub fn remove_question() -> (r: String)
    ensures
        r@ == "Remove the listed tokens?"@,
{
    owned("Remove the listed tokens?")
}

/// The warning when a removal is declined.
pub fn remove_declined_message() -> (r: String)
    ensures
        r@ == "canceled"@,
{
    owned("canceled")
}

} // verus!
