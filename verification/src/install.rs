//! Which JavaScript package manager a project uses: from the working
//! directory up, each directory is asked in turn for a lock file, then for
//! the `packageManager` field of its `package.json`, then for its
//! `devEngines.packageManager` declaration; a name that is not known falls
//! through to the next directory.

use vstd::prelude::*;
use crate::json::{get_member, obj_get, Json};
use crate::text::{chars_of, owned, split_on, split_on_exec, str_eq, string_of};

verus! {

/// What one directory offers: the lock files of the known list that exist
/// there, and its `package.json` (parsed; `None` when absent or unreadable).
#[derive(Debug)]
pub struct DirFacts {
    pub lock_files: Vec<String>,
    pub package_json: Option<Json>,
}

/// The lock files and their package managers; a more specific one first.
pub open spec fn locks() -> Seq<(Seq<char>, Seq<char>)> {
    seq![
        ("aube-lock.yaml"@, "aube"@),
        ("aube-workspace.yaml"@, "aube"@),
        ("bun.lock"@, "bun"@),
        ("bun.lockb"@, "bun"@),
        ("deno.lock"@, "deno"@),
        ("nub.lock"@, "nub"@),
        ("pnpm-lock.yaml"@, "pnpm"@),
        ("pnpm-workspace.yaml"@, "pnpm"@),
        ("yarn.lock"@, "yarn"@),
        ("package-lock.json"@, "npm"@),
        ("npm-shrinkwrap.json"@, "npm"@),
    ]
}

/// The known package managers.
pub open spec fn agents() -> Seq<Seq<char>> {
    seq!["npm"@, "yarn"@, "pnpm"@, "bun"@, "deno"@, "nub"@, "aube"@]
}

/// The lock-file names, in the order they are looked for.
pub fn lock_names() -> (r: Vec<&'static str>)
    ensures
        r@.map_values(|s: &str| s@) == locks().map_values(|p: (Seq<char>, Seq<char>)| p.0),
{
    let r = vec![
        "aube-lock.yaml",
        "aube-workspace.yaml",
        "bun.lock",
        "bun.lockb",
        "deno.lock",
        "nub.lock",
        "pnpm-lock.yaml",
        "pnpm-workspace.yaml",
        "yarn.lock",
        "package-lock.json",
        "npm-shrinkwrap.json",
    ];
    assert(r@.map_values(|s: &str| s@) =~= locks().map_values(|p: (Seq<char>, Seq<char>)| p.0));
    r
}

fn lock_table() -> (r: Vec<(&'static str, &'static str)>)
    ensures
        r@.map_values(|p: (&str, &str)| (p.0@, p.1@)) == locks(),
{
    let r = vec![
        ("aube-lock.yaml", "aube"),
        ("aube-workspace.yaml", "aube"),
        ("bun.lock", "bun"),
        ("bun.lockb", "bun"),
        ("deno.lock", "deno"),
        ("nub.lock", "nub"),
        ("pnpm-lock.yaml", "pnpm"),
        ("pnpm-workspace.yaml", "pnpm"),
        ("yarn.lock", "yarn"),
        ("package-lock.json", "npm"),
        ("npm-shrinkwrap.json", "npm"),
    ];
    assert(r@.map_values(|p: (&str, &str)| (p.0@, p.1@)) =~= locks());
    r
}

/// The package manager of the first lock file (in the list's order) that
/// the directory has.
pub open spec fn lock_agent(t: Seq<(Seq<char>, Seq<char>)>, present: Seq<Seq<char>>) -> Option<Seq<char>>
    decreases t.len(),
{
    if t.len() == 0 {
        None
    } else if present.contains(t[0].0) {
        Some(t[0].1)
    } else {
        lock_agent(t.drop_first(), present)
    }
}

/// The name, when it is a known package manager.
pub open spec fn known_agent_spec(name: Seq<char>) -> Option<Seq<char>> {
    if agents().contains(name) {
        Some(name)
    } else {
        None
    }
}

/// The `packageManager` field (`<name>@<version>`), by its name part.
pub open spec fn field_agent(root: Seq<(String, Json)>) -> Option<Seq<char>> {
    match obj_get(root, "packageManager"@) {
        Some(Json::Str(s)) => known_agent_spec(split_on(s@, '@')[0]),
        _ => None,
    }
}

/// The `devEngines.packageManager` declaration: one object, by its `name`.
pub open spec fn engines_agent(root: Seq<(String, Json)>) -> Option<Seq<char>> {
    match obj_get(root, "devEngines"@) {
        Some(Json::Object(de)) => match obj_get(de@, "packageManager"@) {
            Some(Json::Object(pm)) => match obj_get(pm@, "name"@) {
                Some(Json::Str(n)) => known_agent_spec(n@),
                _ => None,
            },
            _ => None,
        },
        _ => None,
    }
}

/// What one directory says: its lock files, else its `package.json`.
pub open spec fn dir_agent(d: DirFacts) -> Option<Seq<char>> {
    match lock_agent(locks(), crate::cli::parse::texts(d.lock_files@)) {
        Some(a) => Some(a),
        None => match d.package_json {
            Some(Json::Object(root)) => match field_agent(root@) {
                Some(a) => Some(a),
                None => engines_agent(root@),
            },
            _ => None,
        },
    }
}

/// The first directory (working directory first) that names a package manager.
pub open spec fn detect_spec(dirs: Seq<DirFacts>) -> Option<Seq<char>>
    decreases dirs.len(),
{
    if dirs.len() == 0 {
        None
    } else {
        match dir_agent(dirs[0]) {
            Some(a) => Some(a),
            None => detect_spec(dirs.drop_first()),
        }
    }
}

/// The package manager could not be found.
#[derive(Debug)]
pub struct PmError {
    pub message: String,
}

pub open spec fn pm_error_message() -> Seq<char> {
    "Could not detect package manager, failed to run npm install"@
}

/// The name, when it is a known package manager.
pub fn known_agent(name: &str) -> (r: Option<&'static str>)
    ensures
        match known_agent_spec(name@) {
            Some(a) => r is Some && r->0@ == a,
            None => r is None,
        },
{
    let names = vec!["npm", "yarn", "pnpm", "bun", "deno", "nub", "aube"];
    assert(names@.map_values(|s: &str| s@) =~= agents());
    let mut i: usize = 0;
    while i < names.len()
        invariant
            i <= names@.len(),
            names@.map_values(|s: &str| s@) == agents(),
            forall|k: int| 0 <= k < i ==> agents()[k] != name@,
        decreases names.len() - i,
    {
        if str_eq(names[i], name) {
            assert(agents()[i as int] == name@);
            return Some(names[i]);
        }
        i = i + 1;
    }
    assert(!agents().contains(name@));
    None
}

fn listed(v: &Vec<String>, s: &str) -> (r: bool)
    ensures
        r == crate::cli::parse::texts(v@).contains(s@),
{
    let mut i: usize = 0;
    while i < v.len()
        invariant
            i <= v@.len(),
            forall|k: int| 0 <= k < i ==> crate::cli::parse::texts(v@)[k] != s@,
        decreases v.len() - i,
    {
        if str_eq(v[i].as_str(), s) {
            assert(crate::cli::parse::texts(v@)[i as int] == s@);
            return true;
        }
        i = i + 1;
    }
    false
}

fn lock_agent_exec(present: &Vec<String>) -> (r: Option<&'static str>)
    ensures
        match lock_agent(locks(), crate::cli::parse::texts(present@)) {
            Some(a) => r is Some && r->0@ == a,
            None => r is None,
        },
{
    let t = lock_table();
    let ghost tv = t@.map_values(|p: (&str, &str)| (p.0@, p.1@));
    let ghost pv = crate::cli::parse::texts(present@);
    let mut i: usize = 0;
    assert(tv.subrange(0, tv.len() as int) =~= tv);
    while i < t.len()
        invariant
            i <= t@.len(),
            tv == t@.map_values(|p: (&str, &str)| (p.0@, p.1@)),
            tv == locks(),
            pv == crate::cli::parse::texts(present@),
            lock_agent(tv, pv) == lock_agent(tv.subrange(i as int, tv.len() as int), pv),
        decreases t.len() - i,
    {
        let ghost rest = tv.subrange(i as int, tv.len() as int);
        assert(rest.drop_first() =~= tv.subrange(i + 1, tv.len() as int));
        assert(rest[0] == (t@[i as int].0@, t@[i as int].1@));
        if listed(present, t[i].0) {
            return Some(t[i].1);
        }
        i = i + 1;
    }
    None
}

fn field_agent_exec(root: &Vec<(String, Json)>) -> (r: Option<&'static str>)
    ensures
        match field_agent(root@) {
            Some(a) => r is Some && r->0@ == a,
            None => r is None,
        },
{
    proof {
        reveal_strlit("packageManager");
    }
    match get_member(root, "packageManager") {
        Some(Json::Str(s)) => {
            let parts = split_on_exec(&chars_of(s.as_str()), '@');
            proof {
                crate::text::lemma_split_on_nonempty(s@, '@');
            }
            assert(parts@.map_values(|x: Vec<char>| x@)[0] == parts@[0]@);
            let first = string_of(&parts[0]);
            known_agent(first.as_str())
        },
        _ => None,
    }
}

fn engines_agent_exec(root: &Vec<(String, Json)>) -> (r: Option<&'static str>)
    ensures
        match engines_agent(root@) {
            Some(a) => r is Some && r->0@ == a,
            None => r is None,
        },
{
    match get_member(root, "devEngines") {
        Some(Json::Object(de)) => match get_member(de, "packageManager") {
            Some(Json::Object(pm)) => match get_member(pm, "name") {
                Some(Json::Str(n)) => known_agent(n.as_str()),
                _ => None,
            },
            _ => None,
        },
        _ => None,
    }
}

fn dir_agent_exec(d: &DirFacts) -> (r: Option<&'static str>)
    ensures
        match dir_agent(*d) {
            Some(a) => r is Some && r->0@ == a,
            None => r is None,
        },
{
    match lock_agent_exec(&d.lock_files) {
        Some(a) => Some(a),
        None => match &d.package_json {
            Some(Json::Object(root)) => match field_agent_exec(root) {
                Some(a) => Some(a),
                None => engines_agent_exec(root),
            },
            _ => None,
        },
    }
}

/// The package manager of the project: the first directory, from the
/// working directory up, whose lock files or `package.json` name a known one.
pub fn detect_package_manager(dirs: &Vec<DirFacts>) -> (r: Result<&'static str, PmError>)
    ensures
        match detect_spec(dirs@) {
            Some(a) => r is Ok && r->Ok_0@ == a,
            None => r is Err && r->Err_0.message@ == pm_error_message(),
        },
{
    let mut i: usize = 0;
    assert(dirs@.subrange(0, dirs@.len() as int) =~= dirs@);
    while i < dirs.len()
        invariant
            i <= dirs@.len(),
            detect_spec(dirs@) == detect_spec(dirs@.subrange(i as int, dirs@.len() as int)),
        decreases dirs.len() - i,
    {
        let ghost rest = dirs@.subrange(i as int, dirs@.len() as int);
        assert(rest.drop_first() =~= dirs@.subrange(i + 1, dirs@.len() as int));
        assert(rest[0] == dirs@[i as int]);
        match dir_agent_exec(&dirs[i]) {
            Some(a) => return Ok(a),
            None => {},
        }
        i = i + 1;
    }
    Err(PmError { message: owned("Could not detect package manager, failed to run npm install") })
}

/// The install invocation: the detected package manager with `install`.
pub fn install(dirs: &Vec<DirFacts>) -> (r: Result<(&'static str, Vec<String>), PmError>)
    ensures
        match detect_spec(dirs@) {
            Some(a) => r is Ok && r->Ok_0.0@ == a && crate::cli::parse::texts(r->Ok_0.1@) == seq!["install"@],
            None => r is Err && r->Err_0.message@ == pm_error_message(),
        },
{
    match detect_package_manager(dirs) {
        Ok(pm) => {
            let mut args: Vec<String> = Vec::new();
            args.push(owned("install"));
            assert(crate::cli::parse::texts(args@) =~= seq!["install"@]);
            Ok((pm, args))
        },
        Err(e) => Err(e),
    }
}


/// A lock file names the package manager that writes it: when the first
/// directory's only lock file is a known one, the project's package manager
/// is that file's (`pnpm-lock.yaml` pnpm, `yarn.lock` yarn,
/// `package-lock.json` npm, `bun.lock` bun, ...), whatever the directories
/// above hold and whatever `package.json` says.
pub proof fn law_lock_file_names_its_writer(dirs: Seq<DirFacts>, l: Seq<char>)
    requires
        dirs.len() > 0,
        crate::cli::parse::texts(dirs[0].lock_files@) == seq![l],
    ensures
        l == "pnpm-lock.yaml"@ ==> detect_spec(dirs) == Some("pnpm"@),
        l == "pnpm-workspace.yaml"@ ==> detect_spec(dirs) == Some("pnpm"@),
        l == "yarn.lock"@ ==> detect_spec(dirs) == Some("yarn"@),
        l == "package-lock.json"@ ==> detect_spec(dirs) == Some("npm"@),
        l == "npm-shrinkwrap.json"@ ==> detect_spec(dirs) == Some("npm"@),
        l == "bun.lock"@ ==> detect_spec(dirs) == Some("bun"@),
        l == "bun.lockb"@ ==> detect_spec(dirs) == Some("bun"@),
        l == "deno.lock"@ ==> detect_spec(dirs) == Some("deno"@),
        l == "nub.lock"@ ==> detect_spec(dirs) == Some("nub"@),
        l == "aube-lock.yaml"@ ==> detect_spec(dirs) == Some("aube"@),
        l == "aube-workspace.yaml"@ ==> detect_spec(dirs) == Some("aube"@),
{
    reveal_strlit("aube-lock.yaml");
    reveal_strlit("aube-workspace.yaml");
    reveal_strlit("bun.lock");
    reveal_strlit("bun.lockb");
    reveal_strlit("deno.lock");
    reveal_strlit("nub.lock");
    reveal_strlit("pnpm-lock.yaml");
    reveal_strlit("pnpm-workspace.yaml");
    reveal_strlit("yarn.lock");
    reveal_strlit("package-lock.json");
    reveal_strlit("npm-shrinkwrap.json");
    let present = seq![l];
    assert forall|x: Seq<char>| #[trigger] present.contains(x) <==> x == l by {
        if x == l {
            assert(present[0] == x);
        }
    }
    lemma_lock_agent_first(locks(), l, 0);
    assert(locks().subrange(0, locks().len() as int) =~= locks());
    reveal_with_fuel(first_writer, 12);
    if l == "aube-lock.yaml"@ {
        assert(first_writer(locks(), l, 0) == Some("aube"@));
    }
    if l == "aube-workspace.yaml"@ {
        assert(locks()[0].0.len() != l.len());
        assert(first_writer(locks(), l, 0) == Some("aube"@));
    }
    if l == "bun.lock"@ {
        assert(locks()[0].0.len() != l.len());
        assert(locks()[1].0.len() != l.len());
        assert(first_writer(locks(), l, 0) == Some("bun"@));
    }
    if l == "bun.lockb"@ {
        assert(locks()[0].0.len() != l.len());
        assert(locks()[1].0.len() != l.len());
        assert(locks()[2].0.len() != l.len());
        assert(first_writer(locks(), l, 0) == Some("bun"@));
    }
    if l == "deno.lock"@ {
        assert(locks()[0].0.len() != l.len());
        assert(locks()[1].0.len() != l.len());
        assert(locks()[2].0.len() != l.len());
        assert(locks()[3].0[0] != l[0]);
        assert(first_writer(locks(), l, 0) == Some("deno"@));
    }
    if l == "nub.lock"@ {
        assert(locks()[0].0.len() != l.len());
        assert(locks()[1].0.len() != l.len());
        assert(locks()[2].0[0] != l[0]);
        assert(locks()[3].0.len() != l.len());
        assert(locks()[4].0.len() != l.len());
        assert(first_writer(locks(), l, 0) == Some("nub"@));
    }
    if l == "pnpm-lock.yaml"@ {
        assert(locks()[0].0[0] != l[0]);
        assert(locks()[1].0.len() != l.len());
        assert(locks()[2].0.len() != l.len());
        assert(locks()[3].0.len() != l.len());
        assert(locks()[4].0.len() != l.len());
        assert(locks()[5].0.len() != l.len());
        assert(first_writer(locks(), l, 0) == Some("pnpm"@));
    }
    if l == "pnpm-workspace.yaml"@ {
        assert(locks()[0].0.len() != l.len());
        assert(locks()[1].0[0] != l[0]);
        assert(locks()[2].0.len() != l.len());
        assert(locks()[3].0.len() != l.len());
        assert(locks()[4].0.len() != l.len());
        assert(locks()[5].0.len() != l.len());
        assert(locks()[6].0.len() != l.len());
        assert(first_writer(locks(), l, 0) == Some("pnpm"@));
    }
    if l == "yarn.lock"@ {
        assert(locks()[0].0.len() != l.len());
        assert(locks()[1].0.len() != l.len());
        assert(locks()[2].0.len() != l.len());
        assert(locks()[3].0[0] != l[0]);
        assert(locks()[4].0[0] != l[0]);
        assert(locks()[5].0.len() != l.len());
        assert(locks()[6].0.len() != l.len());
        assert(locks()[7].0.len() != l.len());
        assert(first_writer(locks(), l, 0) == Some("yarn"@));
    }
    if l == "package-lock.json"@ {
        assert(locks()[0].0.len() != l.len());
        assert(locks()[1].0.len() != l.len());
        assert(locks()[2].0.len() != l.len());
        assert(locks()[3].0.len() != l.len());
        assert(locks()[4].0.len() != l.len());
        assert(locks()[5].0.len() != l.len());
        assert(locks()[6].0.len() != l.len());
        assert(locks()[7].0.len() != l.len());
        assert(locks()[8].0.len() != l.len());
        assert(first_writer(locks(), l, 0) == Some("npm"@));
    }
    if l == "npm-shrinkwrap.json"@ {
        assert(locks()[0].0.len() != l.len());
        assert(locks()[1].0[0] != l[0]);
        assert(locks()[2].0.len() != l.len());
        assert(locks()[3].0.len() != l.len());
        assert(locks()[4].0.len() != l.len());
        assert(locks()[5].0.len() != l.len());
        assert(locks()[6].0.len() != l.len());
        assert(locks()[7].0[0] != l[0]);
        assert(locks()[8].0.len() != l.len());
        assert(locks()[9].0.len() != l.len());
        assert(first_writer(locks(), l, 0) == Some("npm"@));
    }
}

/// The package manager of the first entry from `i` on whose lock file is
/// the only one present.
proof fn lemma_lock_agent_first(t: Seq<(Seq<char>, Seq<char>)>, l: Seq<char>, i: int)
    requires
        0 <= i <= t.len(),
        forall|x: Seq<char>| #[trigger] seq![l].contains(x) <==> x == l,
    ensures
        lock_agent(t.subrange(i, t.len() as int), seq![l]) == first_writer(t, l, i),
    decreases t.len() - i,
{
    let s = t.subrange(i, t.len() as int);
    if i < t.len() {
        assert(s.drop_first() =~= t.subrange(i + 1, t.len() as int));
        assert(s[0] == t[i]);
        lemma_lock_agent_first(t, l, i + 1);
    }
}

/// The package manager of the first entry from `i` on whose lock file is `l`.
spec fn first_writer(t: Seq<(Seq<char>, Seq<char>)>, l: Seq<char>, i: int) -> Option<Seq<char>>
    decreases t.len() - i,
{
    if i < 0 || i >= t.len() {
        None
    } else if t[i].0 == l {
        Some(t[i].1)
    } else {
        first_writer(t, l, i + 1)
    }
}

} // verus!
