use vbumpp_core::bump::{BumpOptions, CommitInput, Scripts, TagInput};
use vbumpp_core::bump_flow::{bump_steps, collect_files, in_ignored_dir, summary_lines, BumpStep};
use vbumpp_core::cargo_version::{is_cargo_manifest, plan_manifest, read_version, CargoError, CargoPlan, LockFile};

const MANIFEST: &str = "[package]\nname = \"demo\"\nversion = \"1.0.0\" # keep\n\n[dependencies]\nserde = { version = \"1.0.0\" }\n";
const LOCK: &str = "version = 4\n\n[[package]]\nname = \"demo\"\nversion = \"1.0.0\"\n\n[[package]]\nname = \"serde\"\nversion = \"1.0.0\"\nsource = \"registry+https://github.com/rust-lang/crates.io-index\"\n";

fn lock(text: &str) -> Option<LockFile> {
    Some(LockFile { text: text.to_string(), shown: "Cargo.lock".to_string() })
}

#[test]
fn manifest_names() {
    assert!(is_cargo_manifest("Cargo.toml"));
    assert!(is_cargo_manifest(" cargo.TOML "));
    assert!(!is_cargo_manifest("Cargo.lock"));
}

#[test]
fn manifest_versions_are_read() {
    assert_eq!(read_version(MANIFEST), Some("1.0.0".to_string()));
    assert_eq!(read_version("[workspace.package]\nversion = \"2.1.0\"\n"), Some("2.1.0".to_string()));
    assert_eq!(read_version("[package]\nversion.workspace = true\n"), None);
    assert_eq!(read_version("not = [toml"), None);
}

#[test]
fn package_version_and_lock_move_together() {
    match plan_manifest(MANIFEST, "Cargo.toml", "1.0.0", "1.1.0", lock(LOCK)).unwrap() {
        CargoPlan::Updated { manifest, lock } => {
            assert_eq!(
                manifest,
                "[package]\nname = \"demo\"\nversion = \"1.1.0\" # keep\n\n[dependencies]\nserde = { version = \"1.0.0\" }\n"
            );
            let lock = lock.unwrap();
            assert!(lock.contains("name = \"demo\"\nversion = \"1.1.0\""));
            assert!(lock.contains("name = \"serde\"\nversion = \"1.0.0\""));
        }
        CargoPlan::Skipped => panic!("expected an update"),
    }
}

#[test]
fn nothing_to_do_at_the_new_version() {
    assert!(matches!(plan_manifest(MANIFEST, "Cargo.toml", "0.9.0", "1.0.0", None), Ok(CargoPlan::Skipped)));
    assert!(matches!(
        plan_manifest("[package]\nversion.workspace = true\n", "m/Cargo.toml", "1.0.0", "1.1.0", None),
        Ok(CargoPlan::Skipped)
    ));
}

#[test]
fn lock_drift_and_missing_entries_refuse() {
    match plan_manifest(MANIFEST, "Cargo.toml", "0.9.0", "1.1.0", lock(LOCK)) {
        Err(CargoError::Lock { message }) => assert_eq!(
            message,
            "Cargo.lock has crate \"demo\" at a version other than the Cargo.toml current version 0.9.0 (version drift)"
        ),
        other => panic!("unexpected {:?}", other),
    }
    let other = "[[package]]\nname = \"x\"\nversion = \"1.0.0\"\n";
    match plan_manifest(MANIFEST, "Cargo.toml", "1.0.0", "1.1.0", lock(other)) {
        Err(CargoError::Lock { message }) => assert_eq!(message, "Cargo.lock has no [[package]] entry for crate \"demo\""),
        other => panic!("unexpected {:?}", other),
    }
    match plan_manifest("[package]\nversion = \"1.0.0\"\n", "a/Cargo.toml", "1.0.0", "1.1.0", None) {
        Err(CargoError::Lock { message }) => {
            assert_eq!(message, "a/Cargo.toml has no [package] name field; cannot sync Cargo.lock by crate name")
        }
        other => panic!("unexpected {:?}", other),
    }
    assert!(matches!(plan_manifest("[package", "Cargo.toml", "1", "2", None), Err(CargoError::Parse { .. })));
}

#[test]
fn workspace_root_moves_members() {
    let root = "[workspace]\nmembers = [\"a\"]\n\n[workspace.package]\nversion = \"1.0.0\"\n";
    match plan_manifest(root, "Cargo.toml", "1.0.0", "2.0.0", lock(LOCK)).unwrap() {
        CargoPlan::Updated { manifest, lock } => {
            assert!(manifest.contains("[workspace.package]\nversion = \"2.0.0\""));
            let lock = lock.unwrap();
            assert!(lock.contains("name = \"demo\"\nversion = \"2.0.0\""));
            assert!(lock.contains("name = \"serde\"\nversion = \"1.0.0\""));
        }
        CargoPlan::Skipped => panic!("expected an update"),
    }
    match plan_manifest(root, "Cargo.toml", "3.0.0", "4.0.0", lock(LOCK)) {
        Err(CargoError::Lock { message }) => {
            assert_eq!(message, "Cargo.lock has no workspace member entry at version 3.0.0 (version drift)")
        }
        other => panic!("unexpected {:?}", other),
    }
}

fn options<'a>() -> BumpOptions<'a> {
    BumpOptions {
        release: None,
        files: vec![],
        recursive: false,
        commit: None,
        tag: None,
        push: false,
        sign: false,
        all: false,
        skip_hooks: false,
        confirm: false,
        ignore_scripts: false,
        install: false,
        execute: None,
        scripts: None,
        preid: None,
        current_version: None,
    }
}

fn names(steps: &[BumpStep]) -> Vec<String> {
    steps
        .iter()
        .map(|s| match s {
            BumpStep::Script { slot, command } => format!("{slot}:{command}"),
            BumpStep::UpdateFiles => "files".to_string(),
            BumpStep::Install => "install".to_string(),
            BumpStep::Execute(c) => format!("execute:{c}"),
            BumpStep::Commit => "commit".to_string(),
            BumpStep::Tag => "tag".to_string(),
            BumpStep::Push => "push".to_string(),
        })
        .collect()
}

#[test]
fn steps_run_in_the_lifecycle_order() {
    let mut o = options();
    o.scripts = Some(Scripts {
        preversion: Some("npm test".to_string()),
        version: None,
        postversion: Some("echo done".to_string()),
    });
    o.install = true;
    o.execute = Some("npm run build");
    o.tag = Some(TagInput::Bool(true));
    o.push = true;
    assert_eq!(
        names(&bump_steps(&o)),
        vec!["preversion:npm test", "files", "install", "execute:npm run build", "commit", "tag", "postversion:echo done", "push"]
    );
    o.ignore_scripts = true;
    o.tag = None;
    o.push = false;
    o.commit = Some(CommitInput::Bool(false));
    assert_eq!(names(&bump_steps(&o)), vec!["files", "install", "execute:npm run build"]);
}

#[test]
fn collected_files() {
    let sv = |v: &[&str]| v.iter().map(|s| s.to_string()).collect::<Vec<_>>();
    let r = collect_files(
        sv(&["b/package.json", "a/package.json", "target/package/Cargo.toml", "a/package.json"]),
        Some(sv(&["target/package/Cargo.toml"])),
        sv(&["VERSION", "b/package.json"]),
    );
    assert_eq!(r, sv(&["VERSION", "a/package.json", "b/package.json"]));
    assert!(in_ignored_dir("packages/x/node_modules/y/package.json"));
    assert!(!in_ignored_dir("packages/fixtures-like/package.json"));
}

#[test]
fn summary_before_confirming() {
    let mut o = options();
    o.files = vec!["package.json".to_string(), "Cargo.toml".to_string()];
    o.push = true;
    o.execute = Some("make");
    let lines = summary_lines(&o, Some("chore: release v1.1.0"), None, "1.0.0", "1.1.0");
    assert_eq!(
        lines,
        vec![
            "",
            "   files package.json",
            "   files Cargo.toml",
            "  commit chore: release v1.1.0",
            " execute make",
            "    push yes",
            "",
            "    from 1.0.0",
            "      to 1.1.0",
            "",
        ]
    );
}

#[test]
fn every_workspace_member_in_the_lock_moves() {
    let root = "[workspace]\nmembers = [\"a\", \"b\"]\n\n[workspace.package]\nversion = \"1.0.0\"\n";
    let lock_text = "version = 4\n\n[[package]]\nname = \"a\"\nversion = \"1.0.0\"  # a\n\n[[package]]\nname = \"b\"\nversion = \"1.0.0\"\n\n[[package]]\nname = \"c\"\nversion = \"0.5.0\"\n\n[[package]]\nname = \"serde\"\nversion = \"1.0.0\"\nsource = \"registry+https://github.com/rust-lang/crates.io-index\"\n";
    match plan_manifest(root, "Cargo.toml", "1.0.0", "1.2.0", lock(lock_text)).unwrap() {
        CargoPlan::Updated { lock, .. } => assert_eq!(
            lock.unwrap(),
            "version = 4\n\n[[package]]\nname = \"a\"\nversion = \"1.2.0\"  # a\n\n[[package]]\nname = \"b\"\nversion = \"1.2.0\"\n\n[[package]]\nname = \"c\"\nversion = \"0.5.0\"\n\n[[package]]\nname = \"serde\"\nversion = \"1.0.0\"\nsource = \"registry+https://github.com/rust-lang/crates.io-index\"\n"
        ),
        CargoPlan::Skipped => panic!("expected an update"),
    }
}
