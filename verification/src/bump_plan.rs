//! What a bump dry run shows: the plan of a bump (verdict per file, versions,
//! files to write, commands, git actions, changelog, platform release) and
//! the console lines that present it.

use vstd::prelude::*;
use crate::bump::FileVerdict;
use crate::cli::release::{plan_lines_spec, release_plan_lines};
use crate::cli::token::{lines_view, LineKind};
use crate::display::{display_path, path};
use crate::release::ReleasePlan;
use crate::cli::parse::texts;
use crate::config::str_is;
use crate::json::{get_member, obj_get, Json, JsonObject};
use crate::order::{lemma_lex_irreflexive, lemma_lex_total, lemma_lex_transitive, lex_le, lex_less, lex_lt};
use crate::text::{join_seq, owned, push_str, str_eq, string_of};

verus! {

/// The plan of a bump, as a dry run finds it.
#[derive(Debug)]
pub struct BumpPlan {
    /// The verdict on each version file (shown path, verdict).
    pub verdicts: Vec<(String, FileVerdict)>,
    pub current_version: String,
    /// Where the current version came from (`user` for a configured one).
    pub current_version_source: String,
    pub new_version: String,
    /// The files that would be written.
    pub writes: Vec<String>,
    /// The `execute` command, as configured.
    pub execute: Option<String>,
    /// The install commands.
    pub installs: Vec<String>,
    /// The scripts by slot (`preversion`, `version`, `postversion`).
    pub scripts: Vec<(String, String)>,
    /// The commit message, when committing.
    pub commit_message: Option<String>,
    /// The tag name, when tagging.
    pub tag_name: Option<String>,
    /// The pushes, in order.
    pub pushes: Vec<String>,
    /// The release notes; `None` when there is no earlier tag.
    pub changelog: Option<String>,
    /// The platform release, when a platform is given.
    pub release: Option<ReleasePlan>,
}

pub open spec fn info(s: Seq<char>) -> (LineKind, Seq<char>) {
    (LineKind::Info, s)
}

/// The line of one file's verdict.
pub open spec fn verdict_line(file: Seq<char>, v: FileVerdict, new_version: Seq<char>) -> Seq<char> {
    match v {
        FileVerdict::Updated => file + ": update → "@ + new_version,
        FileVerdict::UpToDate => file + ": up-to-date"@,
        FileVerdict::Missing => file + ": missing"@,
    }
}

pub open spec fn opt_lines(o: Option<String>, head: Seq<char>) -> Seq<(LineKind, Seq<char>)> {
    match o {
        Some(x) => seq![info(head + x@)],
        None => Seq::empty(),
    }
}

pub open spec fn verdicts_part(p: BumpPlan) -> Seq<(LineKind, Seq<char>)> {
    seq![info("bump plan (dry run — no changes made)"@)] + p.verdicts@.map_values(
        |v: (String, FileVerdict)| info(verdict_line(v.0@, v.1, p.new_version@)),
    ) + seq![
        info("current version: "@ + p.current_version@ + " (source: "@ + p.current_version_source@ + ")"@),
        info("new version: "@ + p.new_version@),
    ]
}

pub open spec fn writes_part(p: BumpPlan, cwd: Seq<char>) -> Seq<(LineKind, Seq<char>)> {
    if p.writes@.len() > 0 {
        seq![info("files to write:"@)] + p.writes@.map_values(|w: String| info("  "@ + display_path(cwd, w@)))
    } else {
        Seq::empty()
    }
}

pub open spec fn commands_part(p: BumpPlan) -> Seq<(LineKind, Seq<char>)> {
    (if p.scripts@.len() > 0 || p.installs@.len() > 0 || p.execute is Some {
        seq![info("commands to run:"@)]
    } else {
        Seq::empty()
    }) + p.scripts@.map_values(|s: (String, String)| info("  "@ + s.0@ + ": "@ + s.1@)) + p.installs@.map_values(
        |i: String| info("  install: "@ + i@),
    ) + opt_lines(p.execute, "  execute: "@)
}

pub open spec fn git_part(p: BumpPlan) -> Seq<(LineKind, Seq<char>)> {
    (if p.commit_message is Some || p.tag_name is Some || p.pushes@.len() > 0 {
        seq![info("git actions:"@)]
    } else {
        Seq::empty()
    }) + opt_lines(p.commit_message, "  commit: "@) + opt_lines(p.tag_name, "  tag: "@) + p.pushes@.map_values(
        |x: String| info("  "@ + x@),
    )
}

pub open spec fn tail_part(p: BumpPlan) -> Seq<(LineKind, Seq<char>)> {
    (match p.changelog {
        Some(md) => seq![info("changelog preview:"@), (LineKind::Plain, md@)],
        None => seq![info("changelog: skipped (no previous git tag)"@)],
    }) + match p.release {
        Some(r) => plan_lines_spec(r),
        None => Seq::empty(),
    }
}

/// The lines of a bump plan, in order: the heading; each file's verdict; the
/// current version and its source; the new version; the files to write
/// (shown from `cwd`); the commands; the git actions; the changelog preview
/// or why it is skipped; the platform release.
pub open spec fn bump_plan_lines_spec(p: BumpPlan, cwd: Seq<char>) -> Seq<(LineKind, Seq<char>)> {
    verdicts_part(p) + writes_part(p, cwd) + commands_part(p) + git_part(p) + tail_part(p)
}

fn info_line(head: &str, tail: &str) -> (r: (LineKind, String))
    ensures
        r.0 == LineKind::Info,
        r.1@ == head@ + tail@,
{
    let mut s = owned(head);
    push_str(&mut s, tail);
    (LineKind::Info, s)
}

fn push_lines(out: &mut Vec<(LineKind, String)>, more: Vec<(LineKind, String)>)
    ensures
        lines_view(final(out)@) == lines_view(old(out)@) + lines_view(more@),
{
    let ghost o0 = lines_view(out@);
    let ghost m = lines_view(more@);
    let mut more = more;
    let mut tail: Vec<(LineKind, String)> = Vec::new();
    while more.len() > 0
        invariant
            lines_view(more@) + lines_view(tail@) == m,
        decreases more.len(),
    {
        let x = more.pop().unwrap();
        let ghost before = lines_view(tail@);
        tail.insert(0, x);
        assert(lines_view(tail@) =~= seq![(x.0, x.1@)] + before);
        assert(lines_view(more@) + lines_view(tail@) =~= m);
    }
    assert(lines_view(tail@) =~= m);
    while tail.len() > 0
        invariant
            lines_view(out@) + lines_view(tail@) == o0 + m,
        decreases tail.len(),
    {
        let x = tail.remove(0);
        let ghost before = lines_view(out@);
        out.push(x);
        assert(lines_view(out@) =~= before.push((x.0, x.1@)));
        assert(lines_view(out@) + lines_view(tail@) =~= o0 + m);
    }
    assert(lines_view(out@) =~= o0 + m);
}

fn head_lines(plan: &BumpPlan) -> (r: Vec<(LineKind, String)>)
    ensures
        lines_view(r@) == verdicts_part(*plan),
{
    let mut out: Vec<(LineKind, String)> = Vec::new();
    out.push((LineKind::Info, owned("bump plan (dry run — no changes made)")));
    let ghost h = lines_view(out@);
    let mut i: usize = 0;
    while i < plan.verdicts.len()
        invariant
            i <= plan.verdicts@.len(),
            lines_view(out@) == h + plan.verdicts@.subrange(0, i as int).map_values(
                |v: (String, FileVerdict)| info(verdict_line(v.0@, v.1, plan.new_version@)),
            ),
        decreases plan.verdicts.len() - i,
    {
        let file = plan.verdicts[i].0.as_str();
        let line = match plan.verdicts[i].1 {
            FileVerdict::Updated => {
                let mut s = owned(file);
                push_str(&mut s, ": update → ");
                push_str(&mut s, plan.new_version.as_str());
                s
            },
            FileVerdict::UpToDate => {
                let mut s = owned(file);
                push_str(&mut s, ": up-to-date");
                s
            },
            FileVerdict::Missing => {
                let mut s = owned(file);
                push_str(&mut s, ": missing");
                s
            },
        };
        let ghost before = lines_view(out@);
        out.push((LineKind::Info, line));
        assert(lines_view(out@) =~= before.push((LineKind::Info, line@)));
        assert(plan.verdicts@.subrange(0, i + 1).map_values(
            |v: (String, FileVerdict)| info(verdict_line(v.0@, v.1, plan.new_version@)),
        ) =~= plan.verdicts@.subrange(0, i as int).map_values(
            |v: (String, FileVerdict)| info(verdict_line(v.0@, v.1, plan.new_version@)),
        ).push(info(line@)));
        i = i + 1;
    }
    assert(plan.verdicts@.subrange(0, plan.verdicts@.len() as int) =~= plan.verdicts@);
    let mut cur = owned("current version: ");
    let ghost hv = h;
    push_str(&mut cur, plan.current_version.as_str());
    push_str(&mut cur, " (source: ");
    push_str(&mut cur, plan.current_version_source.as_str());
    push_str(&mut cur, ")");
    let ghost mid = lines_view(out@);
    out.push((LineKind::Info, cur));
    let l = info_line("new version: ", plan.new_version.as_str());
    out.push(l);
    assert(lines_view(out@) =~= mid + seq![info(cur@), info(l.1@)]);
    assert(lines_view(out@) =~= verdicts_part(*plan));
    out
}

fn write_lines(plan: &BumpPlan, cwd: &str) -> (r: Vec<(LineKind, String)>)
    ensures
        lines_view(r@) == writes_part(*plan, cwd@),
{
    let mut out: Vec<(LineKind, String)> = Vec::new();
    if plan.writes.len() > 0 {
        out.push((LineKind::Info, owned("files to write:")));
        let mut i: usize = 0;
        while i < plan.writes.len()
            invariant
                i <= plan.writes@.len(),
                lines_view(out@) == seq![info("files to write:"@)] + plan.writes@.subrange(0, i as int).map_values(
                    |w: String| info("  "@ + display_path(cwd@, w@)),
                ),
            decreases plan.writes.len() - i,
        {
            let shown = path(cwd, plan.writes[i].as_str());
            let l = info_line("  ", shown.as_str());
            let ghost before = lines_view(out@);
            out.push(l);
            assert(lines_view(out@) =~= before.push((l.0, l.1@)));
            assert(plan.writes@.subrange(0, i + 1).map_values(|w: String| info("  "@ + display_path(cwd@, w@)))
                =~= plan.writes@.subrange(0, i as int).map_values(|w: String| info("  "@ + display_path(cwd@, w@))).push(
                info("  "@ + display_path(cwd@, plan.writes@[i as int]@)),
            ));
            i = i + 1;
        }
        assert(plan.writes@.subrange(0, plan.writes@.len() as int) =~= plan.writes@);
    }
    out
}

fn command_lines(plan: &BumpPlan) -> (r: Vec<(LineKind, String)>)
    ensures
        lines_view(r@) == commands_part(*plan),
{
    let mut out: Vec<(LineKind, String)> = Vec::new();
    if plan.scripts.len() > 0 || plan.installs.len() > 0 || plan.execute.is_some() {
        out.push((LineKind::Info, owned("commands to run:")));
    }
    let ghost h = lines_view(out@);
    let mut i: usize = 0;
    while i < plan.scripts.len()
        invariant
            i <= plan.scripts@.len(),
            lines_view(out@) == h + plan.scripts@.subrange(0, i as int).map_values(
                |s: (String, String)| info("  "@ + s.0@ + ": "@ + s.1@),
            ),
        decreases plan.scripts.len() - i,
    {
        let mut s = owned("  ");
        push_str(&mut s, plan.scripts[i].0.as_str());
        push_str(&mut s, ": ");
        push_str(&mut s, plan.scripts[i].1.as_str());
        let ghost before = lines_view(out@);
        out.push((LineKind::Info, s));
        assert(lines_view(out@) =~= before.push((LineKind::Info, s@)));
        assert(plan.scripts@.subrange(0, i + 1).map_values(|s: (String, String)| info("  "@ + s.0@ + ": "@ + s.1@))
            =~= plan.scripts@.subrange(0, i as int).map_values(|s: (String, String)| info("  "@ + s.0@ + ": "@ + s.1@)).push(
            info(s@),
        ));
        i = i + 1;
    }
    assert(plan.scripts@.subrange(0, plan.scripts@.len() as int) =~= plan.scripts@);
    let ghost h2 = lines_view(out@);
    let mut j: usize = 0;
    while j < plan.installs.len()
        invariant
            j <= plan.installs@.len(),
            lines_view(out@) == h2 + plan.installs@.subrange(0, j as int).map_values(|i: String| info("  install: "@ + i@)),
        decreases plan.installs.len() - j,
    {
        let l = info_line("  install: ", plan.installs[j].as_str());
        let ghost before = lines_view(out@);
        out.push(l);
        assert(lines_view(out@) =~= before.push((l.0, l.1@)));
        assert(plan.installs@.subrange(0, j + 1).map_values(|i: String| info("  install: "@ + i@)) =~= plan.installs@.subrange(
            0,
            j as int,
        ).map_values(|i: String| info("  install: "@ + i@)).push(info(l.1@)));
        j = j + 1;
    }
    assert(plan.installs@.subrange(0, plan.installs@.len() as int) =~= plan.installs@);
    let ghost h3 = lines_view(out@);
    match &plan.execute {
        Some(e) => {
            let l = info_line("  execute: ", e.as_str());
            out.push(l);
            assert(lines_view(out@) =~= h3.push(info(l.1@)));
        },
        None => {},
    }
    assert(lines_view(out@) =~= h3 + opt_lines(plan.execute, "  execute: "@));
    assert(lines_view(out@) =~= commands_part(*plan));
    out
}

fn git_lines(plan: &BumpPlan) -> (r: Vec<(LineKind, String)>)
    ensures
        lines_view(r@) == git_part(*plan),
{
    let mut out: Vec<(LineKind, String)> = Vec::new();
    if plan.commit_message.is_some() || plan.tag_name.is_some() || plan.pushes.len() > 0 {
        out.push((LineKind::Info, owned("git actions:")));
    }
    match &plan.commit_message {
        Some(m) => out.push(info_line("  commit: ", m.as_str())),
        None => {},
    }
    match &plan.tag_name {
        Some(t) => out.push(info_line("  tag: ", t.as_str())),
        None => {},
    }
    let ghost h = lines_view(out@);
    let mut i: usize = 0;
    while i < plan.pushes.len()
        invariant
            i <= plan.pushes@.len(),
            lines_view(out@) == h + plan.pushes@.subrange(0, i as int).map_values(|x: String| info("  "@ + x@)),
        decreases plan.pushes.len() - i,
    {
        let l = info_line("  ", plan.pushes[i].as_str());
        let ghost before = lines_view(out@);
        out.push(l);
        assert(lines_view(out@) =~= before.push((l.0, l.1@)));
        assert(plan.pushes@.subrange(0, i + 1).map_values(|x: String| info("  "@ + x@)) =~= plan.pushes@.subrange(
            0,
            i as int,
        ).map_values(|x: String| info("  "@ + x@)).push(info(l.1@)));
        i = i + 1;
    }
    assert(plan.pushes@.subrange(0, plan.pushes@.len() as int) =~= plan.pushes@);
    assert(lines_view(out@) =~= git_part(*plan));
    out
}

/// The lines that show a bump plan; paths are shown from `cwd`.
pub fn bump_plan_lines(plan: &BumpPlan, cwd: &str) -> (r: Vec<(LineKind, String)>)
    ensures
        lines_view(r@) == bump_plan_lines_spec(*plan, cwd@),
{
    let mut out = head_lines(plan);
    push_lines(&mut out, write_lines(plan, cwd));
    push_lines(&mut out, command_lines(plan));
    push_lines(&mut out, git_lines(plan));
    let mut tail: Vec<(LineKind, String)> = Vec::new();
    match &plan.changelog {
        Some(md) => {
            tail.push((LineKind::Info, owned("changelog preview:")));
            tail.push((LineKind::Plain, owned(md.as_str())));
        },
        None => tail.push((LineKind::Info, owned("changelog: skipped (no previous git tag)"))),
    }
    let ghost t0 = lines_view(tail@);
    match &plan.release {
        Some(r) => push_lines(&mut tail, release_plan_lines(r)),
        None => {},
    }
    assert(lines_view(tail@) =~= tail_part(*plan));
    push_lines(&mut out, tail);
    assert(lines_view(out@) =~= bump_plan_lines_spec(*plan, cwd@));
    out
}


/// One command that a dry run caught instead of running.
#[derive(Debug)]
pub struct RecordedRun {
    pub program: String,
    pub args: Vec<String>,
}

/// A caught command: program and arguments.
pub type RunV = (Seq<char>, Seq<Seq<char>>);

pub open spec fn runs_view(v: Seq<RecordedRun>) -> Seq<RunV> {
    v.map_values(|r: RecordedRun| (r.program@, texts(r.args@)))
}

/// A script as the shell runs it: `sh -c <cmd>` or `cmd /d /s /c <cmd>`.
pub open spec fn is_script_shell(r: RunV) -> bool {
    (r.0 == "sh"@ && r.1.len() == 2 && r.1[0] == "-c"@) || (r.0 == "cmd"@ && r.1.len() == 4 && r.1[0] == "/d"@
        && r.1[1] == "/s"@ && r.1[2] == "/c"@)
}

/// An install: `<pm> install` or `cargo check --workspace`.
pub open spec fn is_install(r: RunV) -> bool {
    r.1 == seq!["install"@] || r.1 == seq!["check"@, "--workspace"@]
}

/// The caught commands sorted out: the `execute` text (at most once), the
/// installs as text, the shell scripts' commands, and the rest.
pub struct Sorted {
    pub execute: Option<Seq<char>>,
    pub installs: Seq<Seq<char>>,
    pub shells: Seq<Seq<char>>,
    pub others: Seq<RunV>,
}

/// The commands `runs` sorted out in order; `program` is the first word of
/// the `execute` setting `text`.
pub open spec fn sort_runs(runs: Seq<RunV>, text: Option<Seq<char>>, program: Option<Seq<char>>) -> Sorted
    decreases runs.len(),
{
    if runs.len() == 0 {
        Sorted { execute: None, installs: Seq::empty(), shells: Seq::empty(), others: Seq::empty() }
    } else {
        let st = sort_runs(runs.drop_last(), text, program);
        let r = runs.last();
        if is_script_shell(r) {
            Sorted { shells: st.shells.push(r.1.last()), ..st }
        } else if program == Some(r.0) && st.execute is None {
            Sorted {
                execute: Some(
                    match text {
                        Some(t) => t,
                        None => Seq::empty(),
                    },
                ),
                ..st
            }
        } else if is_install(r) {
            Sorted { installs: st.installs.push(r.0 + " "@ + join_seq(r.1, " "@)), ..st }
        } else {
            Sorted { others: st.others.push(r), ..st }
        }
    }
}

/// The configured scripts that ran, slot by slot: each takes (and removes)
/// the first caught shell command equal to it.
pub open spec fn match_scripts(config: Seq<(Seq<char>, Seq<char>)>, shells: Seq<Seq<char>>) -> Seq<(Seq<char>, Seq<char>)>
    decreases config.len(),
{
    if config.len() == 0 {
        Seq::empty()
    } else {
        let c = config[0];
        let k = shells.index_of_first(c.1);
        match k {
            Some(i) => seq![c] + match_scripts(config.drop_first(), shells.remove(i)),
            None => match_scripts(config.drop_first(), shells),
        }
    }
}

/// The phase of a script slot: `preversion`, `version`, `postversion`.
pub open spec fn slot_rank(slot: Seq<char>) -> int {
    if slot == "preversion"@ {
        0
    } else if slot == "version"@ {
        1
    } else if slot == "postversion"@ {
        2
    } else {
        3
    }
}

/// Slots in strictly rising phases, all past `lo`.
pub open spec fn slots_rising(s: Seq<(Seq<char>, Seq<char>)>, lo: int) -> bool {
    &&& forall|i: int, j: int| 0 <= i < j < s.len() ==> slot_rank(#[trigger] s[i].0) < slot_rank(#[trigger] s[j].0)
    &&& forall|i: int| 0 <= i < s.len() ==> slot_rank(#[trigger] s[i].0) > lo
}

proof fn lemma_match_scripts_rising(config: Seq<(Seq<char>, Seq<char>)>, shells: Seq<Seq<char>>, lo: int)
    requires
        slots_rising(config, lo),
    ensures
        slots_rising(match_scripts(config, shells), lo),
    decreases config.len(),
{
    if config.len() > 0 {
        let c = config[0];
        let rest = config.drop_first();
        assert(slots_rising(rest, slot_rank(c.0))) by {
            assert forall|i: int| 0 <= i < rest.len() implies slot_rank(#[trigger] rest[i].0) > slot_rank(c.0) by {
                assert(rest[i] == config[i + 1]);
            }
            assert forall|i: int, j: int| 0 <= i < j < rest.len() implies slot_rank(#[trigger] rest[i].0) < slot_rank(
                #[trigger] rest[j].0,
            ) by {
                assert(rest[i] == config[i + 1] && rest[j] == config[j + 1]);
            }
        }
        match shells.index_of_first(c.1) {
            Some(k) => {
                lemma_match_scripts_rising(rest, shells.remove(k), slot_rank(c.0));
                let m = match_scripts(rest, shells.remove(k));
                let out = seq![c] + m;
                assert forall|i: int, j: int| 0 <= i < j < out.len() implies slot_rank(#[trigger] out[i].0) < slot_rank(
                    #[trigger] out[j].0,
                ) by {
                    if i == 0 {
                        assert(out[j] == m[j - 1]);
                    } else {
                        assert(out[i] == m[i - 1] && out[j] == m[j - 1]);
                    }
                }
                assert forall|i: int| 0 <= i < out.len() implies slot_rank(#[trigger] out[i].0) > lo by {
                    if i > 0 {
                        assert(out[i] == m[i - 1]);
                    }
                }
            },
            None => {
                lemma_match_scripts_rising(rest, shells, slot_rank(c.0));
            },
        }
    }
}

/// The scripts of a plan come in the order of their phases, each slot at
/// most once: `preversion`, then `version`, then `postversion`.
pub proof fn law_plan_scripts_in_phase_order(merged: Seq<(String, Json)>, shells: Seq<Seq<char>>)
    ensures
        forall|i: int, j: int|
            0 <= i < j < match_scripts(scripts_config_spec(merged), shells).len() ==> slot_rank(
                #[trigger] match_scripts(scripts_config_spec(merged), shells)[i].0,
            ) < slot_rank(#[trigger] match_scripts(scripts_config_spec(merged), shells)[j].0),
{
    reveal_strlit("preversion");
    reveal_strlit("version");
    reveal_strlit("postversion");
    assert("preversion"@.len() == 10 && "version"@.len() == 7 && "postversion"@.len() == 11);
    let cfg = scripts_config_spec(merged);
    assert(slots_rising(cfg, -1)) by {
        match obj_get(merged, "scripts"@) {
            Some(Json::Object(sc)) => {
                let a = slot_script(sc@, "preversion"@);
                let b = slot_script(sc@, "version"@);
                let c = slot_script(sc@, "postversion"@);
                assert forall|i: int| 0 <= i < cfg.len() implies slot_rank(#[trigger] cfg[i].0) > -1 by {}
                assert forall|i: int, j: int| 0 <= i < j < cfg.len() implies slot_rank(#[trigger] cfg[i].0) < slot_rank(
                    #[trigger] cfg[j].0,
                ) by {
                    let ab = a + b;
                    assert(cfg == ab + c);
                    if j < ab.len() {
                        assert(cfg[j] == ab[j]);
                        assert(cfg[i] == ab[i]);
                        if j < a.len() {
                            assert(ab[j] == a[j] && ab[i] == a[i]);
                        } else if i < a.len() {
                            assert(ab[j] == b[j - a.len()] && ab[i] == a[i]);
                        } else {
                            assert(ab[j] == b[j - a.len()] && ab[i] == b[i - a.len()]);
                        }
                    } else {
                        assert(cfg[j] == c[j - ab.len()]);
                        if i < ab.len() {
                            assert(cfg[i] == ab[i]);
                            if i < a.len() {
                                assert(ab[i] == a[i]);
                            } else {
                                assert(ab[i] == b[i - a.len()]);
                            }
                        } else {
                            assert(cfg[i] == c[i - ab.len()]);
                        }
                    }
                }
            },
            _ => {},
        }
    }
    lemma_match_scripts_rising(cfg, shells, -1);
}

/// The pushes among the other commands: `git push …` as `git <args>`.
pub open spec fn pushes_of(others: Seq<RunV>) -> Seq<Seq<char>>
    decreases others.len(),
{
    if others.len() == 0 {
        Seq::empty()
    } else {
        let r = others.last();
        let rest = pushes_of(others.drop_last());
        if r.0 == "git"@ && r.1.len() > 0 && r.1[0] == "push"@ {
            rest.push("git "@ + join_seq(r.1, " "@))
        } else {
            rest
        }
    }
}

/// The configured scripts, in slot order (`preversion`, `version`,
/// `postversion`), those that are strings.
pub open spec fn scripts_config_spec(merged: Seq<(String, Json)>) -> Seq<(Seq<char>, Seq<char>)> {
    match obj_get(merged, "scripts"@) {
        Some(Json::Object(s)) => slot_script(s@, "preversion"@) + slot_script(s@, "version"@) + slot_script(
            s@,
            "postversion"@,
        ),
        _ => Seq::empty(),
    }
}

pub open spec fn slot_script(s: Seq<(String, Json)>, slot: Seq<char>) -> Seq<(Seq<char>, Seq<char>)> {
    match obj_get(s, slot) {
        Some(Json::Str(c)) => seq![(slot, c@)],
        _ => Seq::empty(),
    }
}

/// The `execute` setting, when a non-empty string.
pub open spec fn execute_text_spec(merged: Seq<(String, Json)>) -> Option<Seq<char>> {
    match obj_get(merged, "execute"@) {
        Some(Json::Str(t)) => if t@.len() > 0 {
            Some(t@)
        } else {
            None
        },
        _ => None,
    }
}

/// The first word of the `execute` setting, as the shell-words split gives it.
pub open spec fn execute_program_spec(merged: Seq<(String, Json)>) -> Option<Seq<char>> {
    match execute_text_spec(merged) {
        Some(t) => match crate::bump::shell_split(t) {
            Ok(w) => if w.len() > 0 {
                Some(w[0])
            } else {
                None
            },
            Err(_) => None,
        },
        None => None,
    }
}

/// The caught commands of a bump, sorted out for its plan.
#[derive(Debug)]
pub struct PlanCommands {
    pub execute: Option<String>,
    pub installs: Vec<String>,
    pub scripts: Vec<(String, String)>,
    pub pushes: Vec<String>,
}

pub open spec fn pairs_view(v: Seq<(String, String)>) -> Seq<(Seq<char>, Seq<char>)> {
    v.map_values(|p: (String, String)| (p.0@, p.1@))
}

fn slot_script_exec(s: &JsonObject, slot: &str, out: &mut Vec<(String, String)>)
    ensures
        pairs_view(final(out)@) == pairs_view(old(out)@) + slot_script(s@, slot@),
{
    match get_member(s, slot) {
        Some(Json::Str(c)) => {
            let ghost before = pairs_view(out@);
            out.push((owned(slot), owned(c.as_str())));
            assert(pairs_view(out@) =~= before.push((slot@, c@)));
        },
        _ => {},
    }
}

fn scripts_config(merged: &JsonObject) -> (r: Vec<(String, String)>)
    ensures
        pairs_view(r@) == scripts_config_spec(merged@),
{
    let mut out: Vec<(String, String)> = Vec::new();
    proof {
        reveal_strlit("scripts");
    }
    match get_member(merged, "scripts") {
        Some(Json::Object(s)) => {
            slot_script_exec(s, "preversion", &mut out);
            slot_script_exec(s, "version", &mut out);
            slot_script_exec(s, "postversion", &mut out);
        },
        _ => {},
    }
    assert(pairs_view(out@) =~= scripts_config_spec(merged@));
    out
}

fn execute_text(merged: &JsonObject) -> (r: Option<String>)
    ensures
        match r {
            Some(t) => execute_text_spec(merged@) == Some(t@),
            None => execute_text_spec(merged@) is None,
        },
{
    match get_member(merged, "execute") {
        Some(Json::Str(t)) => if t.as_str().unicode_len() > 0 {
            Some(owned(t.as_str()))
        } else {
            None
        },
        _ => None,
    }
}

fn args_are(args: &Vec<String>, want: &Vec<&str>) -> (r: bool)
    ensures
        r == (texts(args@) == want@.map_values(|s: &str| s@)),
{
    if args.len() != want.len() {
        assert(texts(args@).len() != want@.map_values(|s: &str| s@).len());
        return false;
    }
    let mut i: usize = 0;
    while i < args.len()
        invariant
            i <= args@.len(),
            args@.len() == want@.len(),
            forall|k: int| 0 <= k < i ==> texts(args@)[k] == want@.map_values(|s: &str| s@)[k],
        decreases args.len() - i,
    {
        if !str_eq(args[i].as_str(), want[i]) {
            assert(texts(args@)[i as int] != want@.map_values(|s: &str| s@)[i as int]);
            return false;
        }
        i = i + 1;
    }
    assert(texts(args@) =~= want@.map_values(|s: &str| s@));
    true
}

fn join_args(args: &Vec<String>) -> (r: String)
    ensures
        r@ == join_seq(texts(args@), " "@),
{
    let mut v: Vec<Vec<char>> = Vec::new();
    let mut i: usize = 0;
    while i < args.len()
        invariant
            i <= args@.len(),
            v@.map_values(|x: Vec<char>| x@) == texts(args@).subrange(0, i as int),
        decreases args.len() - i,
    {
        let ghost before = v@.map_values(|x: Vec<char>| x@);
        v.push(crate::text::chars_of(args[i].as_str()));
        assert(v@.map_values(|x: Vec<char>| x@) =~= before.push(args@[i as int]@));
        assert(texts(args@).subrange(0, i + 1) =~= texts(args@).subrange(0, i as int).push(args@[i as int]@));
        i = i + 1;
    }
    assert(texts(args@).subrange(0, args@.len() as int) =~= texts(args@));
    string_of(&crate::text::join_vecs(&v, " "))
}

fn is_shell_exec(r: &RecordedRun) -> (b: bool)
    ensures
        b == is_script_shell((r.program@, texts(r.args@))),
{
    let sh = str_eq(r.program.as_str(), "sh") && r.args.len() == 2 && str_eq(r.args[0].as_str(), "-c");
    let cmd = str_eq(r.program.as_str(), "cmd") && r.args.len() == 4 && str_eq(r.args[0].as_str(), "/d")
        && str_eq(r.args[1].as_str(), "/s") && str_eq(r.args[2].as_str(), "/c");
    sh || cmd
}


fn first_equal(v: &Vec<String>, x: &String) -> (r: Option<usize>)
    ensures
        r matches Some(k) ==> texts(v@).index_of_first(x@) == Some(k as int) && k < v@.len(),
        r is None ==> texts(v@).index_of_first(x@) is None,
{
    proof {
        texts(v@).index_of_first_ensures(x@);
    }
    let mut i: usize = 0;
    while i < v.len()
        invariant
            i <= v@.len(),
            forall|j: int| 0 <= j < i ==> texts(v@)[j] != x@,
        decreases v.len() - i,
    {
        if str_eq(v[i].as_str(), x.as_str()) {
            assert(texts(v@)[i as int] == x@);
            proof {
                texts(v@).index_of_first_ensures(x@);
            }
            return Some(i);
        }
        i = i + 1;
    }
    assert(!texts(v@).contains(x@));
    proof {
        texts(v@).index_of_first_ensures(x@);
    }
    None
}

fn match_scripts_exec(config: &Vec<(String, String)>, shells: Vec<String>) -> (r: Vec<(String, String)>)
    ensures
        pairs_view(r@) == match_scripts(pairs_view(config@), texts(shells@)),
{
    let ghost cv = pairs_view(config@);
    let ghost goal = match_scripts(cv, texts(shells@));
    let mut shells = shells;
    let mut out: Vec<(String, String)> = Vec::new();
    let mut i: usize = 0;
    assert(cv.subrange(0, cv.len() as int) =~= cv);
    while i < config.len()
        invariant
            i <= config@.len(),
            cv == pairs_view(config@),
            pairs_view(out@) + match_scripts(cv.subrange(i as int, cv.len() as int), texts(shells@)) == goal,
        decreases config.len() - i,
    {
        let ghost rest = cv.subrange(i as int, cv.len() as int);
        let ghost sv = texts(shells@);
        assert(rest.drop_first() =~= cv.subrange(i + 1, cv.len() as int));
        assert(rest[0] == (config@[i as int].0@, config@[i as int].1@));
        match first_equal(&shells, &config[i].1) {
            Some(k) => {
                shells.remove(k);
                assert(texts(shells@) =~= sv.remove(k as int));
                let ghost before = pairs_view(out@);
                out.push((owned(config[i].0.as_str()), owned(config[i].1.as_str())));
                assert(pairs_view(out@) =~= before.push(rest[0]));
                assert(match_scripts(rest, sv) == seq![rest[0]] + match_scripts(rest.drop_first(), sv.remove(k as int)));
                assert(pairs_view(out@) + match_scripts(cv.subrange(i + 1, cv.len() as int), texts(shells@)) =~= before + (
                seq![rest[0]] + match_scripts(rest.drop_first(), sv.remove(k as int))));
            },
            None => {},
        }
        i = i + 1;
    }
    assert(cv.subrange(cv.len() as int, cv.len() as int) =~= Seq::<(Seq<char>, Seq<char>)>::empty());
    assert(pairs_view(out@) =~= goal);
    out
}

/// The caught commands sorted out for the plan: the `execute` command (the
/// first one whose program is the first word of the `execute` setting), the
/// installs, the configured scripts that ran (slot order), and the pushes.
pub fn sort_commands(runs: &Vec<RecordedRun>, merged: &JsonObject) -> (r: PlanCommands)
    ensures
        ({
            let st = sort_runs(runs_view(runs@), execute_text_spec(merged@), execute_program_spec(merged@));
            &&& match r.execute {
                Some(x) => st.execute == Some(x@),
                None => st.execute is None,
            }
            &&& texts(r.installs@) == st.installs
            &&& pairs_view(r.scripts@) == match_scripts(scripts_config_spec(merged@), st.shells)
            &&& texts(r.pushes@) == pushes_of(st.others)
        }),
{
    let text = execute_text(merged);
    let program: Option<String> = match &text {
        Some(t) => match crate::bump::split_words(t.as_str()) {
            Ok(w) => if w.len() > 0 {
                Some(owned(w[0].as_str()))
            } else {
                None
            },
            Err(_) => None,
        },
        None => None,
    };
    let ghost tv = execute_text_spec(merged@);
    let ghost pv = execute_program_spec(merged@);
    assert(match program {
        Some(p) => pv == Some(p@),
        None => pv is None,
    });
    let ghost rv = runs_view(runs@);
    let mut execute: Option<String> = None;
    let mut installs: Vec<String> = Vec::new();
    let mut shells: Vec<String> = Vec::new();
    let mut pushes: Vec<String> = Vec::new();
    let mut i: usize = 0;
    while i < runs.len()
        invariant
            i <= runs@.len(),
            rv == runs_view(runs@),
            match program {
                Some(p) => pv == Some(p@),
                None => pv is None,
            },
            match text {
                Some(t) => tv == Some(t@),
                None => tv is None,
            },
            ({
                let st = sort_runs(rv.subrange(0, i as int), tv, pv);
                &&& match execute {
                    Some(x) => st.execute == Some(x@),
                    None => st.execute is None,
                }
                &&& texts(installs@) == st.installs
                &&& texts(shells@) == st.shells
                &&& texts(pushes@) == pushes_of(st.others)
            }),
        decreases runs.len() - i,
    {
        let ghost pre = rv.subrange(0, i + 1);
        assert(pre.drop_last() =~= rv.subrange(0, i as int));
        assert(pre.last() == (runs@[i as int].program@, texts(runs@[i as int].args@)));
        let ghost st = sort_runs(rv.subrange(0, i as int), tv, pv);
        let r = &runs[i];
        let prog_hit = match &program {
            Some(p) => str_eq(p.as_str(), r.program.as_str()),
            None => false,
        };
        let mut want_install: Vec<&str> = Vec::new();
        want_install.push("install");
        let mut want_check: Vec<&str> = Vec::new();
        want_check.push("check");
        want_check.push("--workspace");
        assert(want_install@.map_values(|s: &str| s@) =~= seq!["install"@]);
        assert(want_check@.map_values(|s: &str| s@) =~= seq!["check"@, "--workspace"@]);
        if is_shell_exec(r) {
            let ghost before = texts(shells@);
            shells.push(owned(r.args[r.args.len() - 1].as_str()));
            assert(texts(shells@) =~= before.push(texts(r.args@).last()));
        } else if prog_hit && execute.is_none() {
            execute = Some(match &text {
                Some(t) => owned(t.as_str()),
                None => String::new(),
            });
        } else if args_are(&r.args, &want_install) || args_are(&r.args, &want_check) {
            let mut line = owned(r.program.as_str());
            push_str(&mut line, " ");
            push_str(&mut line, join_args(&r.args).as_str());
            let ghost before = texts(installs@);
            installs.push(line);
            assert(texts(installs@) =~= before.push(r.program@ + " "@ + join_seq(texts(r.args@), " "@)));
        } else {
            let ghost others2 = st.others.push((r.program@, texts(r.args@)));
            assert(others2.drop_last() =~= st.others);
            if str_eq(r.program.as_str(), "git") && r.args.len() > 0 && str_eq(r.args[0].as_str(), "push") {
                let mut line = owned("git ");
                push_str(&mut line, join_args(&r.args).as_str());
                let ghost before = texts(pushes@);
                pushes.push(line);
                assert(texts(pushes@) =~= before.push("git "@ + join_seq(texts(r.args@), " "@)));
            }
        }
        i = i + 1;
    }
    assert(rv.subrange(0, runs@.len() as int) =~= rv);
    let config = scripts_config(merged);
    let scripts = match_scripts_exec(&config, shells);
    PlanCommands { execute, installs, scripts, pushes }
}

pub open spec fn verdicts_view(v: Seq<(String, FileVerdict)>) -> Seq<(Seq<char>, FileVerdict)> {
    v.map_values(|p: (String, FileVerdict)| (p.0@, p.1))
}

/// The paths in ascending order.
pub open spec fn keys_sorted(s: Seq<(Seq<char>, FileVerdict)>) -> bool {
    forall|i: int, j: int| 0 <= i < j < s.len() ==> lex_le(#[trigger] s[i].0, #[trigger] s[j].0)
}

/// Whether a verdict is for the path `k`.
pub open spec fn path_is(k: Seq<char>) -> spec_fn((Seq<char>, FileVerdict)) -> bool {
    |p: (Seq<char>, FileVerdict)| p.0 == k
}

/// The verdicts for the path `k`, in their order.
pub open spec fn with_path(s: Seq<(Seq<char>, FileVerdict)>, k: Seq<char>) -> Seq<(Seq<char>, FileVerdict)> {
    s.filter(path_is(k))
}

/// Inserting `xv` before every verdict of another path appends it to the
/// verdicts of its own path and leaves those of the other paths alone.
proof fn lemma_insert_with_path(
    before: Seq<(Seq<char>, FileVerdict)>,
    j: int,
    xv: (Seq<char>, FileVerdict),
    k: Seq<char>,
)
    requires
        0 <= j <= before.len(),
        forall|i: int| j <= i < before.len() ==> #[trigger] before[i].0 != xv.0,
    ensures
        with_path(before.insert(j, xv), k) == if k == xv.0 {
            with_path(before, k).push(xv)
        } else {
            with_path(before, k)
        },
{
    let f = path_is(k);
    let a = before.take(j);
    let b = before.skip(j);
    let e = Seq::<(Seq<char>, FileVerdict)>::empty();
    assert(before.insert(j, xv) =~= (a + seq![xv]) + b);
    assert(before =~= a + b);
    Seq::filter_distributes_over_add(a + seq![xv], b, f);
    Seq::filter_distributes_over_add(a, seq![xv], f);
    Seq::filter_distributes_over_add(a, b, f);
    assert(seq![xv] =~= e.push(xv));
    e.lemma_filter_push(xv, f);
    e.lemma_all_neg_filter_empty(f);
    assert(e.filter(f) =~= e);
    if k == xv.0 {
        assert(b.all(|p: (Seq<char>, FileVerdict)| !f(p))) by {
            assert forall|i: int| 0 <= i < b.len() implies !f(#[trigger] b[i]) by {
                assert(b[i] == before[j + i]);
            }
        }
        b.lemma_all_neg_filter_empty(f);
        assert(b.filter(f) =~= e);
        assert(with_path(before.insert(j, xv), k) =~= with_path(before, k).push(xv));
    } else {
        assert(with_path(before.insert(j, xv), k) =~= with_path(before, k));
    }
}

#[verifier::spinoff_prover]
#[verifier::rlimit(50)]
fn insert_verdict(out: &mut Vec<(String, FileVerdict)>, x: (String, FileVerdict))
    requires
        keys_sorted(verdicts_view(old(out)@)),
    ensures
        keys_sorted(verdicts_view(final(out)@)),
        verdicts_view(final(out)@).to_multiset() == verdicts_view(old(out)@).to_multiset().insert((x.0@, x.1)),
        forall|k: Seq<char>| #[trigger] with_path(verdicts_view(final(out)@), k) == if k == x.0@ {
            with_path(verdicts_view(old(out)@), k).push((x.0@, x.1))
        } else {
            with_path(verdicts_view(old(out)@), k)
        },
{
    let mut j: usize = 0;
    while j < out.len() && !lex_less(x.0.as_str(), out[j].0.as_str())
        invariant
            j <= out@.len(),
            forall|k: int| 0 <= k < j ==> lex_le(#[trigger] verdicts_view(out@)[k].0, x.0@),
        decreases out.len() - j,
    {
        proof {
            lemma_lex_total(x.0@, verdicts_view(out@)[j as int].0);
        }
        j = j + 1;
    }
    let ghost before = verdicts_view(out@);
    let ghost xv = (x.0@, x.1);
    out.insert(j, x);
    proof {
        let after = verdicts_view(out@);
        assert(after =~= before.insert(j as int, xv));
        before.insert_ensures(j as int, xv);
        assert forall|a: int, b: int| 0 <= a < b < after.len() implies lex_le(
            #[trigger] after[a].0,
            #[trigger] after[b].0,
        ) by {
            if a < j && b < j {
                assert(after[a] == before[a] && after[b] == before[b]);
            } else if a < j && b == j {
            } else if a < j && b > j {
                assert(after[a] == before[a] && after[b] == before[b - 1]);
                if before[a].0 != before[b - 1].0 {
                    assert(lex_le(before[a].0, before[b - 1].0));
                }
            } else if a == j {
                assert(after[b] == before[b - 1]);
                if b - 1 == j as int {
                    lemma_lex_total(xv.0, before[b - 1].0);
                } else {
                    assert(lex_le(before[j as int].0, before[b - 1].0));
                    lemma_lex_total(xv.0, before[j as int].0);
                    if lex_lt(xv.0, before[j as int].0) && lex_lt(before[j as int].0, before[b - 1].0) {
                        lemma_lex_transitive(xv.0, before[j as int].0, before[b - 1].0);
                    }
                }
            } else {
                assert(after[a] == before[a - 1] && after[b] == before[b - 1]);
            }
        }
        vstd::seq_lib::to_multiset_insert(before, j as int, xv);
        assert forall|i: int| j <= i < before.len() implies #[trigger] before[i].0 != xv.0 by {
            assert(lex_lt(xv.0, before[j as int].0));
            if i > j {
                assert(lex_le(before[j as int].0, before[i].0));
                if before[j as int].0 != before[i].0 {
                    lemma_lex_transitive(xv.0, before[j as int].0, before[i].0);
                }
            }
            lemma_lex_irreflexive(xv.0);
        }
        assert forall|k: Seq<char>| #[trigger] with_path(after, k) == if k == xv.0 {
            with_path(before, k).push(xv)
        } else {
            with_path(before, k)
        } by {
            lemma_insert_with_path(before, j as int, xv, k);
        }
    }
}

/// Each file's verdict, the file shown from `cwd`.
pub open spec fn shown_verdicts(cwd: Seq<char>, v: Seq<(String, FileVerdict)>) -> Seq<(Seq<char>, FileVerdict)> {
    v.map_values(|p: (String, FileVerdict)| (display_path(cwd, p.0@), p.1))
}

/// The verdicts of the plan: each file shown from `cwd`, in ascending order
/// of the shown path; verdicts for one shown path keep their order.
pub fn plan_verdicts(cwd: &str, verdicts: &Vec<(String, FileVerdict)>) -> (r: Vec<(String, FileVerdict)>)
    ensures
        keys_sorted(verdicts_view(r@)),
        verdicts_view(r@).to_multiset() == shown_verdicts(cwd@, verdicts@).to_multiset(),
        forall|k: Seq<char>| #[trigger] with_path(verdicts_view(r@), k) == with_path(shown_verdicts(cwd@, verdicts@), k),
{
    let ghost o = shown_verdicts(cwd@, verdicts@);
    let mut out: Vec<(String, FileVerdict)> = Vec::new();
    let mut i: usize = 0;
    assert(verdicts_view(out@) =~= o.subrange(0, 0));
    while i < verdicts.len()
        invariant
            i <= verdicts@.len(),
            o == shown_verdicts(cwd@, verdicts@),
            keys_sorted(verdicts_view(out@)),
            verdicts_view(out@).to_multiset() == o.subrange(0, i as int).to_multiset(),
            forall|k: Seq<char>| #[trigger] with_path(verdicts_view(out@), k) == with_path(o.subrange(0, i as int), k),
        decreases verdicts.len() - i,
    {
        let shown = path(cwd, verdicts[i].0.as_str());
        let x = (shown, verdicts[i].1);
        proof {
            assert(o[i as int] == (x.0@, x.1));
            assert(o.subrange(0, i + 1) =~= o.subrange(0, i as int).push((x.0@, x.1)));
            vstd::seq_lib::to_multiset_build(o.subrange(0, i as int), (x.0@, x.1));
            assert forall|k: Seq<char>| #[trigger] with_path(o.subrange(0, i + 1), k) == if k == x.0@ {
                with_path(o.subrange(0, i as int), k).push((x.0@, x.1))
            } else {
                with_path(o.subrange(0, i as int), k)
            } by {
                o.subrange(0, i as int).lemma_filter_push((x.0@, x.1), path_is(k));
            }
        }
        insert_verdict(&mut out, x);
        i = i + 1;
    }
    assert(o.subrange(0, o.len() as int) =~= o);
    out
}

/// What a dry run of a bump recorded and found: the commands it would run
/// and the files it would write (in the order asked), the verdict on each
/// version file (by path), the versions, git texts, notes and release plan.
#[derive(Debug)]
pub struct BumpDryRun {
    pub runs: Vec<RecordedRun>,
    pub writes: Vec<String>,
    pub verdicts: Vec<(String, FileVerdict)>,
    pub current_version: String,
    pub current_version_source: String,
    pub new_version: String,
    pub commit_message: Option<String>,
    pub tag_name: Option<String>,
    pub changelog: Option<String>,
    pub release: Option<ReleasePlan>,
}

/// The plan of a bump from what its dry run recorded (`merged`: the merged
/// configuration, which tells the commands apart; `cwd`: the directory the
/// verdicts are shown from): the files to write in path order, each place
/// once (the first path that names it); the
/// verdicts shown from `cwd`, sorted by path (one path's verdicts keep their
/// order); the commands sorted into `execute`, installs, the scripts by
/// slot and the pushes; the rest as recorded.
pub fn assemble_bump_plan(cwd: &str, merged: &JsonObject, run: BumpDryRun) -> (r: BumpPlan)
    ensures
        crate::path_order::paths_sorted(texts(r.writes@)),
        crate::path_order::all_first(texts(run.writes@), run.writes@.len() as int, texts(r.writes@)),
        crate::path_order::covers(texts(run.writes@), run.writes@.len() as int, texts(r.writes@)),
        keys_sorted(verdicts_view(r.verdicts@)),
        verdicts_view(r.verdicts@).to_multiset() == shown_verdicts(cwd@, run.verdicts@).to_multiset(),
        forall|k: Seq<char>| #[trigger] with_path(verdicts_view(r.verdicts@), k) == with_path(shown_verdicts(cwd@, run.verdicts@), k),
        ({
            let st = sort_runs(runs_view(run.runs@), execute_text_spec(merged@), execute_program_spec(merged@));
            &&& match r.execute {
                Some(x) => st.execute == Some(x@),
                None => st.execute is None,
            }
            &&& texts(r.installs@) == st.installs
            &&& pairs_view(r.scripts@) == match_scripts(scripts_config_spec(merged@), st.shells)
            &&& texts(r.pushes@) == pushes_of(st.others)
        }),
        r.current_version == run.current_version,
        r.current_version_source == run.current_version_source,
        r.new_version == run.new_version,
        r.commit_message == run.commit_message,
        r.tag_name == run.tag_name,
        r.changelog == run.changelog,
        r.release == run.release,
{
    let commands = sort_commands(&run.runs, merged);
    let verdicts = plan_verdicts(cwd, &run.verdicts);
    let writes = crate::path_order::sort_dedup_paths(&run.writes);
    BumpPlan {
        verdicts,
        current_version: run.current_version,
        current_version_source: run.current_version_source,
        new_version: run.new_version,
        writes,
        execute: commands.execute,
        installs: commands.installs,
        scripts: commands.scripts,
        commit_message: run.commit_message,
        tag_name: run.tag_name,
        pushes: commands.pushes,
        changelog: run.changelog,
        release: run.release,
    }
}

} // verus!
