//! The order of a bump's steps: `preversion`, the version files, install,
//! `execute`, `version`, commit, tag, `postversion`, push; each present only
//! when the options ask for it.

use vstd::prelude::*;
use crate::bump::{commit_input_view, normalize_git, normalized, opt_str_view, opt_view, tag_input_view, BumpOptions};
use crate::cli::parse::texts;
use crate::text::{chars_of, owned, push_str, split_on, split_on_exec};

verus! {

/// One step of a bump, in the order they run.
#[derive(Debug)]
pub enum BumpStep {
    /// A configured script, run through the shell: its slot and command.
    Script { slot: &'static str, command: String },
    /// The version files are updated.
    UpdateFiles,
    /// The ecosystems' installs (only when some file was updated).
    Install,
    /// The `execute` command (split into words when it runs).
    Execute(String),
    /// The git commit.
    Commit,
    /// The git tag.
    Tag,
    /// The git push (with the tags when tagging).
    Push,
}

pub enum StepV {
    Script(Seq<char>, Seq<char>),
    UpdateFiles,
    Install,
    Execute(Seq<char>),
    Commit,
    Tag,
    Push,
}

impl BumpStep {
    pub open spec fn view(&self) -> StepV {
        match self {
            BumpStep::Script { slot, command } => StepV::Script(slot@, command@),
            BumpStep::UpdateFiles => StepV::UpdateFiles,
            BumpStep::Install => StepV::Install,
            BumpStep::Execute(c) => StepV::Execute(c@),
            BumpStep::Commit => StepV::Commit,
            BumpStep::Tag => StepV::Tag,
            BumpStep::Push => StepV::Push,
        }
    }
}

pub open spec fn steps_view(v: Seq<BumpStep>) -> Seq<StepV> {
    v.map_values(|s: BumpStep| s.view())
}

/// The script step of a slot, when scripts run and the slot has one.
pub open spec fn script_step(ignore: bool, command: Option<Seq<char>>, slot: Seq<char>) -> Seq<StepV> {
    match command {
        Some(c) => if ignore {
            Seq::empty()
        } else {
            seq![StepV::Script(slot, c)]
        },
        None => Seq::empty(),
    }
}

pub open spec fn when(b: bool, s: StepV) -> Seq<StepV> {
    if b {
        seq![s]
    } else {
        Seq::empty()
    }
}

/// The steps of a bump with these options, in order.
pub open spec fn steps_spec(o: BumpOptions) -> Seq<StepV> {
    let (_, c, t) = normalized(opt_str_view(o.preid), commit_input_view(o.commit), tag_input_view(o.tag), o.push);
    let (pre, ver, post) = match o.scripts {
        Some(s) => (opt_view(s.preversion), opt_view(s.version), opt_view(s.postversion)),
        None => (None, None, None),
    };
    script_step(o.ignore_scripts, pre, "preversion"@) + seq![StepV::UpdateFiles] + when(o.install, StepV::Install)
        + match o.execute {
        Some(e) => seq![StepV::Execute(e@)],
        None => Seq::empty(),
    } + script_step(o.ignore_scripts, ver, "version"@) + when(c is Some, StepV::Commit) + when(t is Some, StepV::Tag)
        + script_step(o.ignore_scripts, post, "postversion"@) + when(o.push, StepV::Push)
}

/// With `ignoreScripts` no script step runs, whatever scripts are configured.
pub proof fn law_ignore_scripts_runs_none(o: BumpOptions)
    requires
        o.ignore_scripts,
    ensures
        forall|i: int| 0 <= i < steps_spec(o).len() ==> !(#[trigger] steps_spec(o)[i] is Script),
{
    let (pre, ver, post) = match o.scripts {
        Some(s) => (opt_view(s.preversion), opt_view(s.version), opt_view(s.postversion)),
        None => (None, None, None),
    };
    assert(script_step(true, pre, "preversion"@) =~= Seq::<StepV>::empty());
    assert(script_step(true, ver, "version"@) =~= Seq::<StepV>::empty());
    assert(script_step(true, post, "postversion"@) =~= Seq::<StepV>::empty());
}

/// The phase a step runs in: `preversion`, the files, install, `execute`,
/// `version`, commit, tag, `postversion`, push.
pub open spec fn phase(s: StepV) -> int {
    match s {
        StepV::Script(slot, _) => if slot == "preversion"@ {
            0
        } else if slot == "version"@ {
            4
        } else {
            7
        },
        StepV::UpdateFiles => 1,
        StepV::Install => 2,
        StepV::Execute(_) => 3,
        StepV::Commit => 5,
        StepV::Tag => 6,
        StepV::Push => 8,
    }
}

/// Steps in strictly rising phases, none past `p`.
pub open spec fn phases_up_to(s: Seq<StepV>, p: int) -> bool {
    &&& forall|i: int, j: int| 0 <= i < j < s.len() ==> phase(#[trigger] s[i]) < phase(#[trigger] s[j])
    &&& forall|i: int| 0 <= i < s.len() ==> phase(#[trigger] s[i]) <= p
}

proof fn lemma_phases_append(s: Seq<StepV>, t: Seq<StepV>, p: int, q: int)
    requires
        phases_up_to(s, p),
        t.len() <= 1,
        forall|i: int| 0 <= i < t.len() ==> phase(#[trigger] t[i]) == q,
        p < q,
    ensures
        phases_up_to(s + t, q),
{
    assert forall|i: int, j: int| 0 <= i < j < (s + t).len() implies phase(#[trigger] (s + t)[i]) < phase(
        #[trigger] (s + t)[j],
    ) by {
        if j >= s.len() {
            assert((s + t)[j] == t[j - s.len()]);
        }
    }
    assert forall|i: int| 0 <= i < (s + t).len() implies phase(#[trigger] (s + t)[i]) <= q by {
        if i >= s.len() {
            assert((s + t)[i] == t[i - s.len()]);
        }
    }
}

/// A bump's steps run in the order of their phases, each phase at most once:
/// `preversion` before the version files are updated, `version` after them
/// and before the commit, `postversion` after the commit and tag and before
/// the push.
pub proof fn law_steps_in_phase_order(o: BumpOptions)
    ensures
        forall|i: int, j: int|
            0 <= i < j < steps_spec(o).len() ==> phase(#[trigger] steps_spec(o)[i]) < phase(#[trigger] steps_spec(o)[j]),
{
    reveal_strlit("preversion");
    reveal_strlit("version");
    reveal_strlit("postversion");
    assert("preversion"@.len() == 10 && "version"@.len() == 7 && "postversion"@.len() == 11);
    assert("version"@ != "preversion"@ && "postversion"@ != "preversion"@ && "postversion"@ != "version"@);
    let (_, c, t) = normalized(opt_str_view(o.preid), commit_input_view(o.commit), tag_input_view(o.tag), o.push);
    let (pre, ver, post) = match o.scripts {
        Some(s) => (opt_view(s.preversion), opt_view(s.version), opt_view(s.postversion)),
        None => (None, None, None),
    };
    let ex = match o.execute {
        Some(e) => seq![StepV::Execute(e@)],
        None => Seq::<StepV>::empty(),
    };
    let s0 = script_step(o.ignore_scripts, pre, "preversion"@);
    assert(phases_up_to(s0, 0));
    let s1 = s0 + seq![StepV::UpdateFiles];
    lemma_phases_append(s0, seq![StepV::UpdateFiles], 0, 1);
    let s2 = s1 + when(o.install, StepV::Install);
    lemma_phases_append(s1, when(o.install, StepV::Install), 1, 2);
    let s3 = s2 + ex;
    lemma_phases_append(s2, ex, 2, 3);
    let s4 = s3 + script_step(o.ignore_scripts, ver, "version"@);
    lemma_phases_append(s3, script_step(o.ignore_scripts, ver, "version"@), 3, 4);
    let s5 = s4 + when(c is Some, StepV::Commit);
    lemma_phases_append(s4, when(c is Some, StepV::Commit), 4, 5);
    let s6 = s5 + when(t is Some, StepV::Tag);
    lemma_phases_append(s5, when(t is Some, StepV::Tag), 5, 6);
    let s7 = s6 + script_step(o.ignore_scripts, post, "postversion"@);
    lemma_phases_append(s6, script_step(o.ignore_scripts, post, "postversion"@), 6, 7);
    let s8 = s7 + when(o.push, StepV::Push);
    lemma_phases_append(s7, when(o.push, StepV::Push), 7, 8);
    assert(s8 == steps_spec(o));
}

fn push_script(out: &mut Vec<BumpStep>, ignore: bool, command: &Option<String>, slot: &'static str)
    ensures
        steps_view(final(out)@) == steps_view(old(out)@) + script_step(ignore, opt_view(*command), slot@),
{
    let ghost before = steps_view(out@);
    match command {
        Some(c) => {
            if !ignore {
                out.push(BumpStep::Script { slot, command: owned(c.as_str()) });
                assert(steps_view(out@) =~= before.push(StepV::Script(slot@, c@)));
            } else {
                assert(steps_view(out@) =~= before);
            }
        },
        None => {
            assert(steps_view(out@) =~= before);
        },
    }
}

/// The steps a bump with these options runs, in order.
#[verifier::rlimit(50)]
pub fn bump_steps(options: &BumpOptions) -> (r: Vec<BumpStep>)
    ensures
        steps_view(r@) == steps_spec(*options),
{
    let git = normalize_git(options);
    let none: Option<String> = None;
    let (pre, ver, post) = match &options.scripts {
        Some(s) => (&s.preversion, &s.version, &s.postversion),
        None => (&none, &none, &none),
    };
    let ghost cts = normalized(
        opt_str_view(options.preid),
        commit_input_view(options.commit),
        tag_input_view(options.tag),
        options.push,
    );
    proof {
        reveal_strlit("preversion");
        reveal_strlit("version");
        reveal_strlit("postversion");
    }
    let mut out: Vec<BumpStep> = Vec::new();
    push_script(&mut out, options.ignore_scripts, pre, "preversion");
    let ghost a = steps_view(out@);
    out.push(BumpStep::UpdateFiles);
    if options.install {
        out.push(BumpStep::Install);
    }
    match options.execute {
        Some(e) => out.push(BumpStep::Execute(owned(e))),
        None => {},
    }
    let ghost b = steps_view(out@);
    assert(b =~= a + seq![StepV::UpdateFiles] + when(options.install, StepV::Install) + match options.execute {
        Some(e) => seq![StepV::Execute(e@)],
        None => Seq::<StepV>::empty(),
    });
    push_script(&mut out, options.ignore_scripts, ver, "version");
    let ghost c = steps_view(out@);
    if git.commit.is_some() {
        out.push(BumpStep::Commit);
    }
    if git.tag.is_some() {
        out.push(BumpStep::Tag);
    }
    let ghost d = steps_view(out@);
    assert(d =~= c + when(cts.1 is Some, StepV::Commit) + when(cts.2 is Some, StepV::Tag));
    push_script(&mut out, options.ignore_scripts, post, "postversion");
    let ghost e = steps_view(out@);
    if options.push {
        out.push(BumpStep::Push);
    }
    assert(steps_view(out@) =~= e + when(options.push, StepV::Push));
    assert(steps_view(out@) =~= steps_spec(*options));
    out
}

/// Where a bump run stands: its steps, how many were started, whether the
/// version files step updated some file, and whether the run is over
/// (finished or aborted).
#[derive(Debug)]
pub struct BumpRun {
    pub steps: Vec<BumpStep>,
    pub next: usize,
    pub files_updated: bool,
    pub done: bool,
}

/// What happened since the last action.
#[derive(Debug)]
pub enum BumpEvent {
    /// The run begins.
    Start,
    /// The step asked for last succeeded.
    StepDone,
    /// The version files step succeeded; whether it updated some file.
    FilesDone(bool),
    /// The step asked for last failed (a script that exited non-zero, a
    /// failed write, git or install): its message.
    StepFailed(String),
}

/// What the runner does next.
#[derive(Debug, PartialEq, Eq)]
pub enum BumpAction {
    /// Perform the step at this index of the run's steps.
    Run(usize),
    /// Stop the bump with this error; nothing more is done.
    Abort(String),
    /// Every step succeeded.
    Finish,
    /// The run is over: nothing to do.
    Nothing,
}

pub enum BumpActionV {
    Run(nat),
    Abort(Seq<char>),
    Finish,
    Nothing,
}

impl BumpAction {
    pub open spec fn view(&self) -> BumpActionV {
        match self {
            BumpAction::Run(i) => BumpActionV::Run(*i as nat),
            BumpAction::Abort(m) => BumpActionV::Abort(m@),
            BumpAction::Finish => BumpActionV::Finish,
            BumpAction::Nothing => BumpActionV::Nothing,
        }
    }
}

pub enum BumpEventV {
    Start,
    StepDone,
    FilesDone(bool),
    StepFailed(Seq<char>),
}

impl BumpEvent {
    pub open spec fn view(&self) -> BumpEventV {
        match self {
            BumpEvent::Start => BumpEventV::Start,
            BumpEvent::StepDone => BumpEventV::StepDone,
            BumpEvent::FilesDone(b) => BumpEventV::FilesDone(*b),
            BumpEvent::StepFailed(m) => BumpEventV::StepFailed(m@),
        }
    }
}

/// A run's state: its steps, how many were started, whether some file was
/// updated, whether it is over.
pub struct RunV {
    pub steps: Seq<StepV>,
    pub next: nat,
    pub files_updated: bool,
    pub done: bool,
}

impl BumpRun {
    pub open spec fn view(&self) -> RunV {
        RunV { steps: steps_view(self.steps@), next: self.next as nat, files_updated: self.files_updated, done: self.done }
    }
}

/// The first step to run from index `n`: the install step is passed over
/// when no file was updated.
pub open spec fn next_index(steps: Seq<StepV>, n: nat, files_updated: bool) -> nat {
    if n < steps.len() && steps[n as int] is Install && !files_updated {
        n + 1
    } else {
        n
    }
}

/// One transition: an over run does nothing; a failure aborts and ends the
/// run; otherwise (noting whether the files step updated some file) the next
/// step is run, the install step only when some file was updated, or the run
/// finishes when none is left.
pub open spec fn bump_next_spec(s: RunV, e: BumpEventV) -> (RunV, BumpActionV) {
    if s.done {
        (s, BumpActionV::Nothing)
    } else {
        match e {
            BumpEventV::StepFailed(m) => (RunV { done: true, ..s }, BumpActionV::Abort(m)),
            _ => {
                let fu = match e {
                    BumpEventV::FilesDone(b) => b,
                    _ => s.files_updated,
                };
                let n = next_index(s.steps, s.next, fu);
                if n < s.steps.len() {
                    (RunV { next: n + 1, files_updated: fu, ..s }, BumpActionV::Run(n))
                } else {
                    (RunV { next: n, files_updated: fu, done: true, ..s }, BumpActionV::Finish)
                }
            },
        }
    }
}

/// A new run of these steps.
pub fn start_run(steps: Vec<BumpStep>) -> (r: BumpRun)
    ensures
        r.steps@ == steps@,
        r@ == (RunV { steps: steps_view(steps@), next: 0, files_updated: false, done: false }),
{
    BumpRun { steps, next: 0, files_updated: false, done: false }
}

/// The runner's next action after `event` (see `bump_next_spec`).
pub fn bump_next(run: &mut BumpRun, event: BumpEvent) -> (a: BumpAction)
    requires
        old(run).next <= old(run).steps@.len(),
    ensures
        (final(run)@, a@) == bump_next_spec(old(run)@, event@),
        final(run).steps@ == old(run).steps@,
        final(run).next <= final(run).steps@.len(),
{
    if run.done {
        return BumpAction::Nothing;
    }
    match event {
        BumpEvent::StepFailed(m) => {
            run.done = true;
            BumpAction::Abort(m)
        },
        BumpEvent::FilesDone(b) => {
            run.files_updated = b;
            advance(run)
        },
        _ => advance(run),
    }
}

fn advance(run: &mut BumpRun) -> (a: BumpAction)
    requires
        old(run).next <= old(run).steps@.len(),
        !old(run).done,
    ensures
        final(run).steps@ == old(run).steps@,
        final(run).next <= final(run).steps@.len(),
        ({
            let s = old(run)@;
            let n = next_index(s.steps, s.next, s.files_updated);
            if n < s.steps.len() {
                final(run)@ == (RunV { next: n + 1, ..s }) && a@ == BumpActionV::Run(n)
            } else {
                final(run)@ == (RunV { next: n, done: true, ..s }) && a@ == BumpActionV::Finish
            }
        }),
{
    let mut n = run.next;
    if n < run.steps.len() {
        let skip = match &run.steps[n] {
            BumpStep::Install => !run.files_updated,
            _ => false,
        };
        if skip {
            n = n + 1;
        }
    }
    if n < run.steps.len() {
        run.next = n + 1;
        BumpAction::Run(n)
    } else {
        run.next = n;
        run.done = true;
        BumpAction::Finish
    }
}

/// A failed step stops the bump at once: the run aborts with the step's
/// message and is over, and an over run never asks for another step.
pub proof fn law_step_failure_stops(s: RunV, e: BumpEventV, later: BumpEventV)
    requires
        e is StepFailed,
    ensures
        bump_next_spec(s, e).0.done,
        !s.done ==> bump_next_spec(s, e).1 == BumpActionV::Abort(e->StepFailed_0),
        bump_next_spec(bump_next_spec(s, e).0, later).1 is Nothing,
        bump_next_spec(bump_next_spec(s, e).0, later).0 == bump_next_spec(s, e).0,
{
}

/// Without failures the steps run one by one, in their order: the action is
/// the next step, unless that is the install step and no file was updated.
pub proof fn law_steps_run_in_order(s: RunV, e: BumpEventV)
    requires
        !s.done,
        !(e is StepFailed),
        s.next < s.steps.len(),
        !(s.steps[s.next as int] is Install),
    ensures
        bump_next_spec(s, e).1 == BumpActionV::Run(s.next),
        bump_next_spec(s, e).0.next == s.next + 1,
{
}

/// The install step runs only when the version files step updated some
/// file: with no file updated it is never the step asked for (for steps
/// that hold no two install steps in a row, as a bump's steps never do).
pub proof fn law_install_only_after_updates(s: RunV, e: BumpEventV)
    requires
        forall|i: int| 0 <= i < s.steps.len() - 1 && #[trigger] s.steps[i] is Install ==> !(s.steps[i + 1] is Install),
        match e {
            BumpEventV::FilesDone(b) => !b,
            BumpEventV::StepFailed(_) => true,
            _ => !s.files_updated,
        },
    ensures
        bump_next_spec(s, e).1 matches BumpActionV::Run(i) ==> !(s.steps[i as int] is Install),
{
}

/// How a script runs through the system shell: `sh -c <command>`, or on
/// Windows `cmd /d /s /c <command>`.
pub fn script_command(command: &str, windows: bool) -> (r: (String, Vec<String>))
    ensures
        windows ==> r.0@ == "cmd"@ && texts(r.1@) == seq!["/d"@, "/s"@, "/c"@, command@],
        !windows ==> r.0@ == "sh"@ && texts(r.1@) == seq!["-c"@, command@],
{
    if windows {
        let args = vec![owned("/d"), owned("/s"), owned("/c"), owned(command)];
        assert(texts(args@) =~= seq!["/d"@, "/s"@, "/c"@, command@]);
        (owned("cmd"), args)
    } else {
        let args = vec![owned("-c"), owned(command)];
        assert(texts(args@) =~= seq!["-c"@, command@]);
        (owned("sh"), args)
    }
}

/// A labelled line when the value is there.
pub open spec fn opt_line(label: Seq<char>, v: Option<Seq<char>>) -> Seq<Seq<char>> {
    match v {
        Some(x) => seq![label + x],
        None => Seq::empty(),
    }
}

/// A line when the flag is set.
pub open spec fn flag_line(b: bool, line: Seq<char>) -> Seq<Seq<char>> {
    if b {
        seq![line]
    } else {
        Seq::empty()
    }
}

/// The summary shown before a bump is confirmed: a blank line, the files,
/// the commit message and tag name (as formatted for the new version), the
/// `execute` command, push and install, a blank line, the two versions and
/// a blank line.
pub open spec fn summary_spec(
    o: BumpOptions,
    commit: Option<Seq<char>>,
    tag: Option<Seq<char>>,
    current: Seq<char>,
    new: Seq<char>,
) -> Seq<Seq<char>> {
    seq![Seq::<char>::empty()] + texts(o.files@).map_values(|f: Seq<char>| "   files "@ + f) + opt_line("  commit "@, commit)
        + opt_line("     tag "@, tag) + opt_line(" execute "@, opt_str_view(o.execute)) + flag_line(o.push, "    push yes"@)
        + flag_line(o.install, " install yes"@) + seq![Seq::<char>::empty(), "    from "@ + current, "      to "@ + new, Seq::<char>::empty()]
}

fn labelled(label: &str, v: &str) -> (r: String)
    ensures
        r@ == label@ + v@,
{
    let mut line = owned(label);
    push_str(&mut line, v);
    line
}

fn push_opt_line(out: &mut Vec<String>, label: &str, v: Option<&str>)
    ensures
        texts(final(out)@) == texts(old(out)@) + opt_line(label@, opt_str_view(v)),
{
    let ghost before = texts(out@);
    match v {
        Some(x) => {
            out.push(labelled(label, x));
            assert(texts(out@) =~= before + opt_line(label@, opt_str_view(v)));
        },
        None => {
            assert(texts(out@) =~= before + opt_line(label@, opt_str_view(v)));
        },
    }
}

fn push_flag_line(out: &mut Vec<String>, b: bool, line: &str)
    ensures
        texts(final(out)@) == texts(old(out)@) + flag_line(b, line@),
{
    let ghost before = texts(out@);
    if b {
        out.push(owned(line));
    }
    assert(texts(out@) =~= before + flag_line(b, line@));
}

/// The lines of the summary shown before a bump is confirmed (`commit` and
/// `tag` are the message and tag name already formatted for the new version).
pub fn summary_lines(
    options: &BumpOptions,
    commit: Option<&str>,
    tag: Option<&str>,
    current_version: &str,
    new_version: &str,
) -> (r: Vec<String>)
    ensures
        texts(r@) == summary_spec(*options, opt_str_view(commit), opt_str_view(tag), current_version@, new_version@),
{
    let mut out: Vec<String> = Vec::new();
    out.push(String::new());
    let ghost head = texts(out@);
    let ghost fv = texts(options.files@);
    let mut i: usize = 0;
    while i < options.files.len()
        invariant
            i <= options.files@.len(),
            fv == texts(options.files@),
            texts(out@) == head + fv.subrange(0, i as int).map_values(|f: Seq<char>| "   files "@ + f),
        decreases options.files.len() - i,
    {
        let ghost before = texts(out@);
        out.push(labelled("   files ", options.files[i].as_str()));
        assert(fv.subrange(0, i + 1).map_values(|f: Seq<char>| "   files "@ + f) =~= fv.subrange(0, i as int).map_values(
            |f: Seq<char>| "   files "@ + f,
        ).push("   files "@ + fv[i as int]));
        assert(texts(out@) =~= before.push("   files "@ + fv[i as int]));
        i = i + 1;
    }
    assert(fv.subrange(0, fv.len() as int) =~= fv);
    push_opt_line(&mut out, "  commit ", commit);
    push_opt_line(&mut out, "     tag ", tag);
    push_opt_line(&mut out, " execute ", options.execute);
    push_flag_line(&mut out, options.push, "    push yes");
    push_flag_line(&mut out, options.install, " install yes");
    let ghost mid = texts(out@);
    out.push(String::new());
    out.push(labelled("    from ", current_version));
    out.push(labelled("      to ", new_version));
    out.push(String::new());
    assert(texts(out@) =~= mid + seq![
        Seq::<char>::empty(),
        "    from "@ + current_version@,
        "      to "@ + new_version@,
        Seq::<char>::empty(),
    ]);
    assert(head =~= seq![Seq::<char>::empty()]);
    out
}

/// The directories whose files are never collected by a pattern.
pub open spec fn ignored_dirs() -> Seq<Seq<char>> {
    seq![".git"@, "node_modules"@, "bower_components"@, "__tests__"@, "fixtures"@, "fixture"@]
}

/// A path lies in an ignored directory: one of its `/`-separated parts is one.
pub open spec fn in_ignored_dir_spec(path: Seq<char>) -> bool {
    exists|i: int| 0 <= i < split_on(path, '/').len() && ignored_dirs().contains(#[trigger] split_on(path, '/')[i])
}

/// Whether a (relative, `/`-separated) path lies in an ignored directory.
pub fn in_ignored_dir(path: &str) -> (r: bool)
    ensures
        r == in_ignored_dir_spec(path@),
{
    let parts = split_on_exec(&chars_of(path), '/');
    let ghost pv = parts@.map_values(|x: Vec<char>| x@);
    let names = vec![".git", "node_modules", "bower_components", "__tests__", "fixtures", "fixture"];
    assert(names@.map_values(|s: &str| s@) =~= ignored_dirs());
    let mut i: usize = 0;
    while i < parts.len()
        invariant
            i <= parts@.len(),
            pv == parts@.map_values(|x: Vec<char>| x@),
            pv == split_on(path@, '/'),
            names@.map_values(|s: &str| s@) == ignored_dirs(),
            forall|k: int| 0 <= k < i ==> !ignored_dirs().contains(#[trigger] pv[k]),
        decreases parts.len() - i,
    {
        let mut j: usize = 0;
        while j < names.len()
            invariant
                j <= names@.len(),
                i < parts@.len(),
                pv == parts@.map_values(|x: Vec<char>| x@),
                pv == split_on(path@, '/'),
                names@.map_values(|s: &str| s@) == ignored_dirs(),
                forall|k: int| 0 <= k < j ==> ignored_dirs()[k] != pv[i as int],
            decreases names.len() - j,
        {
            if crate::text::chars_eq(&parts[i], &chars_of(names[j])) {
                assert(ignored_dirs()[j as int] == pv[i as int]);
                assert(ignored_dirs().contains(pv[i as int]));
                assert(ignored_dirs().contains(split_on(path@, '/')[i as int]));
                return true;
            }
            j = j + 1;
        }
        assert(!ignored_dirs().contains(pv[i as int]));
        i = i + 1;
    }
    assert forall|k: int| 0 <= k < split_on(path@, '/').len() implies !ignored_dirs().contains(
        #[trigger] split_on(path@, '/')[k],
    ) by {
        assert(pv[k] == split_on(path@, '/')[k]);
    }
    false
}

/// The files of a bump: those the patterns found, less those git ignores,
/// with the explicitly named ones added; sorted, each once.
pub fn collect_files(globbed: Vec<String>, ignored: Option<Vec<String>>, explicit: Vec<String>) -> (r: Vec<String>)
    ensures
        crate::order::strictly_sorted(texts(r@)),
        forall|f: Seq<char>| #[trigger] texts(r@).contains(f) <==> (texts(globbed@).contains(f) && !(match ignored {
            Some(ig) => texts(ig@).contains(f),
            None => false,
        })) || texts(explicit@).contains(f),
{
    let ghost gv = texts(globbed@);
    let ghost ev = texts(explicit@);
    let ghost igv: Seq<Seq<char>> = match &ignored {
        Some(ig) => texts(ig@),
        None => Seq::empty(),
    };
    let mut kept: Vec<String> = Vec::new();
    let mut i: usize = 0;
    while i < globbed.len()
        invariant
            i <= globbed@.len(),
            gv == texts(globbed@),
            igv == match ignored {
                Some(ig) => texts(ig@),
                None => Seq::<Seq<char>>::empty(),
            },
            forall|f: Seq<char>| #[trigger] texts(kept@).contains(f) <==> (gv.subrange(0, i as int).contains(f)
                && !igv.contains(f)),
        decreases globbed.len() - i,
    {
        let g = &globbed[i];
        let drop = match &ignored {
            Some(ig) => listed(ig, g),
            None => false,
        };
        let ghost before = texts(kept@);
        if !drop {
            kept.push(owned(g.as_str()));
        }
        proof {
            let after = texts(kept@);
            let pre = gv.subrange(0, i + 1);
            assert(pre =~= gv.subrange(0, i as int).push(g@));
            if !drop {
                assert(after =~= before.push(g@));
            }
            assert forall|f: Seq<char>| #[trigger] after.contains(f) <==> (pre.contains(f) && !igv.contains(f)) by {
                if after.contains(f) {
                    let k = choose|k: int| 0 <= k < after.len() && after[k] == f;
                    if k < before.len() {
                        assert(before[k] == f);
                        assert(before.contains(f));
                        let m = choose|m: int| 0 <= m < i && gv.subrange(0, i as int)[m] == f;
                        assert(pre[m] == f);
                    } else {
                        assert(pre[i as int] == f);
                    }
                }
                if pre.contains(f) && !igv.contains(f) {
                    let m = choose|m: int| 0 <= m < i + 1 && pre[m] == f;
                    if m < i {
                        assert(gv.subrange(0, i as int)[m] == f);
                        assert(before.contains(f));
                        let k = choose|k: int| 0 <= k < before.len() && before[k] == f;
                        assert(after[k] == f);
                    } else {
                        assert(after[after.len() - 1] == f);
                    }
                }
            }
        }
        i = i + 1;
    }
    assert(gv.subrange(0, gv.len() as int) =~= gv);
    let ghost kv = texts(kept@);
    let mut all = kept;
    let mut j: usize = 0;
    while j < explicit.len()
        invariant
            j <= explicit@.len(),
            ev == texts(explicit@),
            texts(all@) == kv + ev.subrange(0, j as int),
        decreases explicit.len() - j,
    {
        let ghost before = texts(all@);
        all.push(owned(explicit[j].as_str()));
        assert(ev[j as int] == explicit@[j as int]@);
        assert(texts(all@) =~= before.push(ev[j as int]));
        assert(ev.subrange(0, j + 1) =~= ev.subrange(0, j as int).push(ev[j as int]));
        j = j + 1;
    }
    assert(ev.subrange(0, ev.len() as int) =~= ev);
    let ghost av = texts(all@);
    let r = crate::order::sort_dedup_strings(all);
    proof {
        assert forall|f: Seq<char>| #[trigger] texts(r@).contains(f) <==> (gv.contains(f) && !igv.contains(f))
            || ev.contains(f) by {
            assert(texts(r@).to_set().contains(f) == av.to_set().contains(f));
            if av.contains(f) {
                let k = choose|k: int| 0 <= k < av.len() && av[k] == f;
                if k < kv.len() {
                    assert(kv[k] == f);
                    assert(kv.contains(f));
                } else {
                    assert(ev[k - kv.len()] == f);
                }
            }
            if ev.contains(f) {
                let k = choose|k: int| 0 <= k < ev.len() && ev[k] == f;
                assert(av[kv.len() + k] == f);
            }
            if gv.contains(f) && !igv.contains(f) {
                assert(kv.contains(f));
                let k = choose|k: int| 0 <= k < kv.len() && kv[k] == f;
                assert(av[k] == f);
            }
        }
    }
    r
}

fn listed(v: &Vec<String>, s: &String) -> (r: bool)
    ensures
        r == texts(v@).contains(s@),
{
    let mut i: usize = 0;
    while i < v.len()
        invariant
            i <= v@.len(),
            forall|k: int| 0 <= k < i ==> texts(v@)[k] != s@,
        decreases v.len() - i,
    {
        if crate::text::str_eq(v[i].as_str(), s.as_str()) {
            assert(texts(v@)[i as int] == s@);
            return true;
        }
        i = i + 1;
    }
    false
}


/// A path with a part equal to `.git`, `node_modules`, `bower_components`,
/// `__tests__`, `fixtures` or `fixture` lies in an ignored directory, and a
/// path lies in one only through such a part.
pub proof fn law_ignored_dirs(path: Seq<char>)
    ensures
        in_ignored_dir_spec(path) <==> exists|i: int|
            0 <= i < split_on(path, '/').len() && {
                let p = #[trigger] split_on(path, '/')[i];
                p == ".git"@ || p == "node_modules"@ || p == "bower_components"@ || p == "__tests__"@ || p
                    == "fixtures"@ || p == "fixture"@
            },
{
    let parts = split_on(path, '/');
    let names = ignored_dirs();
    assert forall|p: Seq<char>| #[trigger] names.contains(p) <==> (p == ".git"@ || p == "node_modules"@ || p
        == "bower_components"@ || p == "__tests__"@ || p == "fixtures"@ || p == "fixture"@) by {
        if p == ".git"@ { assert(names[0] == p); }
        if p == "node_modules"@ { assert(names[1] == p); }
        if p == "bower_components"@ { assert(names[2] == p); }
        if p == "__tests__"@ { assert(names[3] == p); }
        if p == "fixtures"@ { assert(names[4] == p); }
        if p == "fixture"@ { assert(names[5] == p); }
    }
}

} // verus!
