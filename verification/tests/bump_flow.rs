use vbumpp_core::bump_flow::{bump_next, script_command, start_run, BumpAction, BumpEvent, BumpStep};
use vbumpp_core::bump::{execute_command, is_glob, normalize_git, BumpError, BumpOptions, CommitInput, FileVerdict, TagInput};
use vbumpp_core::bump_plan::{assemble_bump_plan, bump_plan_lines, plan_verdicts, sort_commands, BumpDryRun, BumpPlan, RecordedRun};
use vbumpp_core::cli::token::LineKind;
use vbumpp_core::display::{path, posix};
use vbumpp_core::exec::{failed, output_failed, spawn_failed, ExecError};
use vbumpp_core::install::{detect_package_manager, install, known_agent, DirFacts};
use vbumpp_core::json::Json;
use vbumpp_core::orchestrate::{config_str, is_interactive, OrchestrateError};
use vbumpp_core::progress::ProgressEvent;
use vbumpp_core::version_text::{update_text, TextUpdate};
use vbumpp_core::path_order::sort_dedup_paths;

fn sv(v: &[&str]) -> Vec<String> {
    v.iter().map(|s| s.to_string()).collect()
}

fn merged_from(pairs: Vec<(&str, Json)>) -> Vec<(String, Json)> {
    pairs.into_iter().map(|(k, v)| (k.to_string(), v)).collect()
}

#[test]
fn execute_is_split_into_words() {
    let (p, a) = execute_command("npm run build -- --flag 'a b'").unwrap();
    assert_eq!(p, "npm");
    assert_eq!(a, sv(&["run", "build", "--", "--flag", "a b"]));
    match execute_command("   ") {
        Err(BumpError::Exec { message }) => assert_eq!(message, "execute command is empty"),
        other => panic!("unexpected {:?}", other),
    }
    match execute_command("echo 'open") {
        Err(BumpError::Exec { message }) => assert!(message.starts_with("failed to parse execute command: ")),
        other => panic!("unexpected {:?}", other),
    }
}

fn options<'a>() -> BumpOptions<'a> {
    BumpOptions {
        release: None,
        files: vec![],
        recursive: false,
        commit: None,
        tag: None,
        push: false,
        sign: false,
        all: false,
        skip_hooks: false,
        confirm: false,
        ignore_scripts: false,
        install: false,
        execute: None,
        scripts: None,
        preid: None,
        current_version: None,
    }
}

#[test]
fn git_settings_are_normalized() {
    let mut o = options();
    let g = normalize_git(&o);
    assert_eq!(g.preid, "beta");
    assert!(g.commit.is_none() && g.tag.is_none());
    o.tag = Some(TagInput::Bool(true));
    let g = normalize_git(&o);
    assert_eq!(g.tag, Some("v"));
    assert_eq!(g.commit.map(|c| c.message), Some("chore: release v"));
    o.tag = None;
    o.push = true;
    o.commit = Some(CommitInput::Message("release %s"));
    let g = normalize_git(&o);
    assert_eq!(g.commit.map(|c| c.message), Some("release %s"));
}

#[test]
fn glob_patterns() {
    assert!(is_glob("packages/*/package.json"));
    assert!(is_glob("a?.json"));
    assert!(!is_glob("Cargo.toml"));
}

#[test]
fn caught_commands_are_sorted_out() {
    let runs = vec![
        RecordedRun { program: "sh".to_string(), args: sv(&["-c", "npm test"]) },
        RecordedRun { program: "pnpm".to_string(), args: sv(&["install"]) },
        RecordedRun { program: "npm".to_string(), args: sv(&["run", "build"]) },
        RecordedRun { program: "git".to_string(), args: sv(&["commit", "-m", "x"]) },
        RecordedRun { program: "git".to_string(), args: sv(&["push"]) },
        RecordedRun { program: "git".to_string(), args: sv(&["push", "--tags"]) },
        RecordedRun { program: "cmd".to_string(), args: sv(&["/d", "/s", "/c", "echo post"]) },
    ];
    let merged = merged_from(vec![
        ("execute", Json::Str("npm run build".to_string())),
        (
            "scripts",
            Json::Object(merged_from(vec![
                ("postversion", Json::Str("echo post".to_string())),
                ("preversion", Json::Str("npm test".to_string())),
                ("version", Json::Str("never ran".to_string())),
            ])),
        ),
    ]);
    let c = sort_commands(&runs, &merged);
    assert_eq!(c.execute, Some("npm run build".to_string()));
    assert_eq!(c.installs, sv(&["pnpm install"]));
    assert_eq!(
        c.scripts,
        vec![
            ("preversion".to_string(), "npm test".to_string()),
            ("postversion".to_string(), "echo post".to_string()),
        ]
    );
    assert_eq!(c.pushes, sv(&["git push", "git push --tags"]));
}

#[test]
fn verdicts_are_shown_relative_and_sorted() {
    let v = vec![
        ("/p/z.json".to_string(), FileVerdict::Updated),
        ("/p/a/Cargo.toml".to_string(), FileVerdict::UpToDate),
        ("/elsewhere/x".to_string(), FileVerdict::Missing),
    ];
    let r = plan_verdicts("/p", &v);
    assert_eq!(
        r,
        vec![
            ("/elsewhere/x".to_string(), FileVerdict::Missing),
            ("a/Cargo.toml".to_string(), FileVerdict::UpToDate),
            ("z.json".to_string(), FileVerdict::Updated),
        ]
    );
}

#[test]
fn plan_lines_of_a_bump() {
    let plan = BumpPlan {
        verdicts: vec![("package.json".to_string(), FileVerdict::Updated), ("x.txt".to_string(), FileVerdict::Missing)],
        current_version: "1.0.0".to_string(),
        current_version_source: "package.json".to_string(),
        new_version: "1.1.0".to_string(),
        writes: sv(&["/p/package.json", "/p/CHANGELOG.md"]),
        execute: None,
        installs: vec![],
        scripts: vec![],
        commit_message: Some("chore: release v1.1.0".to_string()),
        tag_name: Some("v1.1.0".to_string()),
        pushes: sv(&["git push"]),
        changelog: None,
        release: None,
    };
    let lines = bump_plan_lines(&plan, "/p");
    let texts: Vec<String> = lines.iter().map(|(_, t)| t.clone()).collect();
    assert_eq!(
        texts,
        sv(&[
            "bump plan (dry run — no changes made)",
            "package.json: update → 1.1.0",
            "x.txt: missing",
            "current version: 1.0.0 (source: package.json)",
            "new version: 1.1.0",
            "files to write:",
            "  package.json",
            "  CHANGELOG.md",
            "git actions:",
            "  commit: chore: release v1.1.0",
            "  tag: v1.1.0",
            "  git push",
            "changelog: skipped (no previous git tag)",
        ])
    );
    assert!(lines.iter().all(|(k, _)| *k == LineKind::Info));
}

#[test]
fn package_manager_detection() {
    let root_pkg = Json::Object(vec![(
        "packageManager".to_string(),
        Json::Str("pnpm@9.1.0".to_string()),
    )]);
    let dirs = vec![
        DirFacts { lock_files: vec![], package_json: None },
        DirFacts { lock_files: sv(&["package-lock.json", "yarn.lock"]), package_json: None },
    ];
    assert_eq!(detect_package_manager(&dirs).unwrap(), "yarn");
    let dirs = vec![DirFacts { lock_files: vec![], package_json: Some(root_pkg) }];
    assert_eq!(detect_package_manager(&dirs).unwrap(), "pnpm");
    let engines = Json::Object(vec![
        ("packageManager".to_string(), Json::Str("corepack-thing@1".to_string())),
        (
            "devEngines".to_string(),
            Json::Object(vec![(
                "packageManager".to_string(),
                Json::Object(vec![("name".to_string(), Json::Str("bun".to_string()))]),
            )]),
        ),
    ]);
    let dirs = vec![DirFacts { lock_files: vec![], package_json: Some(engines) }];
    assert_eq!(install(&dirs).unwrap(), ("bun", sv(&["install"])));
    let none: Vec<DirFacts> = vec![];
    let e = detect_package_manager(&none).unwrap_err();
    assert_eq!(e.message, "Could not detect package manager, failed to run npm install");
    assert_eq!(known_agent("deno"), Some("deno"));
    assert_eq!(known_agent("pip"), None);
}

#[test]
fn text_files_get_the_new_version() {
    match update_text("version 1.2.3 and v1.2.3, not 11.2.3 or 1.2.30", "1.2.3", "1.3.0") {
        TextUpdate::Updated(t) => assert_eq!(t, "version 1.3.0 and v1.3.0, not 11.2.3 or 1.2.30"),
        other => panic!("unexpected {:?}", other),
    }
    assert!(matches!(update_text("nothing here", "1.2.3", "1.3.0"), TextUpdate::Skipped));
}

#[test]
fn exec_error_messages() {
    match failed("git", &sv(&["tag", "v1"]), 128, "  fatal: exists \n") {
        ExecError::Failed { message } => assert_eq!(message, "git tag v1 exited with code 128:\nfatal: exists"),
        other => panic!("unexpected {:?}", other),
    }
    match failed("x", &vec![], -1, "") {
        ExecError::Failed { message } => assert_eq!(message, "x  exited with code -1:\n"),
        other => panic!("unexpected {:?}", other),
    }
    match spawn_failed("nope", &sv(&["a"]), "not found") {
        ExecError::Spawn { message } => assert_eq!(message, "failed to execute nope a: not found"),
        other => panic!("unexpected {:?}", other),
    }
    assert_eq!(output_failed("git", "broken pipe").message(), "failed to read output of git: broken pipe");
}

#[test]
fn string_settings_and_interaction() {
    assert!(matches!(config_str(None, "preid"), Ok(None)));
    assert!(matches!(config_str(Some("rc"), "preid"), Ok(Some(x)) if x == "rc"));
    match config_str(Some(""), "release") {
        Err(OrchestrateError::Config { message }) => assert_eq!(
            message,
            "config key \"release\" must be a non-empty string — fix the value or remove the key"
        ),
        other => panic!("unexpected {:?}", other),
    }
    assert!(is_interactive(None));
    assert!(is_interactive(Some("prompt")));
    assert!(!is_interactive(Some("minor")));
}

#[test]
fn display_paths() {
    assert_eq!(path("/p", "/p/a/b.json"), "a/b.json");
    assert_eq!(path("/p", "/p"), ".");
    assert_eq!(path("/p", "/q/x"), "/q/x");
    assert_eq!(posix("a\\b\\c.json"), "a/b/c.json");
    assert_eq!(ProgressEvent::GitTag.as_str(), "git tag");
}

#[test]
fn verdicts_of_one_path_keep_their_order() {
    let v = vec![
        ("/p/b".to_string(), FileVerdict::Missing),
        ("/p/a".to_string(), FileVerdict::Updated),
        ("/p/b".to_string(), FileVerdict::Updated),
        ("/p/a".to_string(), FileVerdict::UpToDate),
    ];
    assert_eq!(
        plan_verdicts("/p", &v),
        vec![
            ("a".to_string(), FileVerdict::Updated),
            ("a".to_string(), FileVerdict::UpToDate),
            ("b".to_string(), FileVerdict::Missing),
            ("b".to_string(), FileVerdict::Updated),
        ]
    );
}

#[test]
fn a_failed_step_stops_the_run() {
    let mut run = start_run(vec![BumpStep::UpdateFiles, BumpStep::Commit, BumpStep::Push]);
    assert_eq!(bump_next(&mut run, BumpEvent::Start), BumpAction::Run(0));
    assert_eq!(bump_next(&mut run, BumpEvent::StepDone), BumpAction::Run(1));
    assert_eq!(bump_next(&mut run, BumpEvent::StepFailed("script exited 1".to_string())), BumpAction::Abort("script exited 1".to_string()));
    assert_eq!(bump_next(&mut run, BumpEvent::StepDone), BumpAction::Nothing);
    let mut ok = start_run(vec![BumpStep::UpdateFiles]);
    assert_eq!(bump_next(&mut ok, BumpEvent::Start), BumpAction::Run(0));
    assert_eq!(bump_next(&mut ok, BumpEvent::StepDone), BumpAction::Finish);
}

#[test]
fn scripts_run_through_the_shell() {
    assert_eq!(script_command("pnpm build", false), ("sh".to_string(), vec!["-c".to_string(), "pnpm build".to_string()]));
    assert_eq!(
        script_command("pnpm build", true),
        ("cmd".to_string(), vec!["/d".to_string(), "/s".to_string(), "/c".to_string(), "pnpm build".to_string()])
    );
}

#[test]
fn dry_run_is_assembled_into_a_plan() {
    let run = BumpDryRun {
        runs: vec![
            RecordedRun { program: "sh".to_string(), args: sv(&["-c", "npm test"]) },
            RecordedRun { program: "git".to_string(), args: sv(&["push"]) },
        ],
        writes: sv(&["/p/package.json", "/p/CHANGELOG.md", "/p/package.json"]),
        verdicts: vec![
            ("/p/z.json".to_string(), FileVerdict::Updated),
            ("/p/a.json".to_string(), FileVerdict::UpToDate),
        ],
        current_version: "1.0.0".to_string(),
        current_version_source: "package.json".to_string(),
        new_version: "1.1.0".to_string(),
        commit_message: Some("chore: release v1.1.0".to_string()),
        tag_name: Some("v1.1.0".to_string()),
        changelog: None,
        release: None,
    };
    let merged = merged_from(vec![(
        "scripts",
        Json::Object(merged_from(vec![("preversion", Json::Str("npm test".to_string()))])),
    )]);
    let plan = assemble_bump_plan("/p", &merged, run);
    assert_eq!(plan.writes, sv(&["/p/CHANGELOG.md", "/p/package.json"]));
    assert_eq!(
        plan.verdicts,
        vec![("a.json".to_string(), FileVerdict::UpToDate), ("z.json".to_string(), FileVerdict::Updated)]
    );
    assert_eq!(plan.scripts, vec![("preversion".to_string(), "npm test".to_string())]);
    assert_eq!(plan.pushes, sv(&["git push"]));
    assert_eq!(plan.execute, None);
    assert_eq!(plan.new_version, "1.1.0");
}

#[test]
fn install_runs_only_after_an_update() {
    let steps = || vec![BumpStep::UpdateFiles, BumpStep::Install, BumpStep::Commit];
    let mut run = start_run(steps());
    assert_eq!(bump_next(&mut run, BumpEvent::Start), BumpAction::Run(0));
    assert_eq!(bump_next(&mut run, BumpEvent::FilesDone(false)), BumpAction::Run(2));
    let mut run = start_run(steps());
    assert_eq!(bump_next(&mut run, BumpEvent::Start), BumpAction::Run(0));
    assert_eq!(bump_next(&mut run, BumpEvent::FilesDone(true)), BumpAction::Run(1));
}

#[test]
fn files_to_write_come_in_path_order_each_place_once() {
    let paths = sv(&["/p/a-b/x.json", "/p/a/x.json", "/p//a/x.json", "/p/./a/x.json/", "/p/a/x.json"]);
    assert_eq!(sort_dedup_paths(&paths), sv(&["/p/a/x.json", "/p/a-b/x.json"]));
    assert_eq!(sort_dedup_paths(&sv(&["b", "./b", "/b", "../b", "a/b", "a"])), sv(&["/b", "./b", "../b", "a", "a/b", "b"]));
    assert_eq!(sort_dedup_paths(&sv(&[])), sv(&[]));
}

#[test]
fn version_dots_match_only_dots() {
    match update_text("1x2x3 stays, 1.2.3 moves", "1.2.3", "2.0.0") {
        TextUpdate::Updated(t) => assert_eq!(t, "1x2x3 stays, 2.0.0 moves"),
        other => panic!("unexpected {:?}", other),
    }
    assert!(matches!(update_text("1x2x3 only", "1.2.3", "2.0.0"), TextUpdate::Skipped));
}
