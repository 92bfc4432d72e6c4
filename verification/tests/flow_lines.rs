use vbumpp_core::bump::{BumpOptions, CommitInput, FileVerdict, Progress, TagInput};
use vbumpp_core::bump::event_file;
use vbumpp_core::json::Json;
use vbumpp_core::orchestrate::{changelog_success_line, release_success_line};
use vbumpp_core::progress::{format_line, ProgressEvent};
use vbumpp_core::release::{create_with_host, finish_post, gitlab_release_call, HttpResponse, Provider, ReleaseError, ReleasePayload};
use vbumpp_core::shape::{BoolOrString, BumpConfig, ScriptsSection};

fn strip_colors(s: &str) -> String {
    s.replace("\u{1b}[32m", "").replace("\u{1b}[34m", "").replace("\u{1b}[0m", "")
}

#[test]
fn progress_lines() {
    let l = format_line(ProgressEvent::FileUpdated, None, "1.2.0", Some("/p/package.json"), "/p");
    assert_eq!(strip_colors(&l), "✔ Updated package.json to 1.2.0");
    let l = format_line(ProgressEvent::FileSkipped, None, "1.2.0", Some("/p/a/Cargo.toml"), "/p");
    assert_eq!(strip_colors(&l), "ℹ a/Cargo.toml did not need to be updated");
    let l = format_line(ProgressEvent::Script, Some("npm test"), "1.2.0", None, "/p");
    assert_eq!(strip_colors(&l), "✔ Run npm test");
    let l = format_line(ProgressEvent::GitTag, None, "1.2.0", None, "/p");
    assert_eq!(strip_colors(&l), "ℹ Git tag");
    assert_eq!(strip_colors(&changelog_success_line("CHANGELOG.md")), "✔ Update CHANGELOG.md success");
    assert_eq!(strip_colors(&release_success_line(Provider::Gitee, "1.2.0")), "✔ [Gitee] add release v1.2.0 success");
}

#[test]
fn event_files() {
    let updated = vec!["/p/a.json".to_string(), "/p/b.json".to_string()];
    let skipped: Vec<String> = vec![];
    let p = Progress {
        event: ProgressEvent::FileUpdated,
        script: None,
        release: None,
        current_version: "1.0.0",
        new_version: "1.1.0",
        commit: None,
        tag: None,
        updated_files: &updated,
        skipped_files: &skipped,
    };
    assert_eq!(event_file(&p), Some("/p/b.json"));
    let q = Progress { event: ProgressEvent::FileSkipped, ..p };
    assert_eq!(event_file(&q), None);
}

#[test]
fn gitlab_release_in_two_steps() {
    let get = create_with_host("https://gitlab.example.com", "tok", Some("group/my repo")).unwrap();
    assert_eq!(get.method, "GET");
    assert_eq!(get.url, "https://gitlab.example.com/api/v4/projects/group%2Fmy+repo");
    assert_eq!(get.headers, vec![("PRIVATE-TOKEN".to_string(), "tok".to_string())]);
    let found = Ok(HttpResponse { status: 200, body: "{\"id\": 42, \"name\": \"x\"}".to_string() });
    let post = gitlab_release_call("https://gitlab.example.com", "tok", "2.0.0", "notes", found).unwrap();
    assert_eq!(post.method, "POST");
    assert_eq!(post.url, "https://gitlab.example.com/api/v4/projects/42/releases");
    match post.payload {
        Some(ReleasePayload::Gitlab { name, tag_name, description }) => {
            assert_eq!((name.as_str(), tag_name.as_str(), description.as_str()), ("2.0.0", "v2.0.0", "notes"));
        }
        other => panic!("unexpected {:?}", other),
    }
    let no_id = Ok(HttpResponse { status: 200, body: "{\"name\": \"x\"}".to_string() });
    match gitlab_release_call("https://g", "tok", "2.0.0", "n", no_id) {
        Err(ReleaseError::Http { message }) => assert_eq!(message, "cannot resolve the gitlab project id"),
        other => panic!("unexpected {:?}", other),
    }
    let bad = Ok(HttpResponse { status: 200, body: "not json".to_string() });
    match gitlab_release_call("https://g", "tok", "2.0.0", "n", bad) {
        Err(ReleaseError::Http { message }) => {
            assert!(message.starts_with("gitlab [open api] error : failed to parse project info: json: "))
        }
        other => panic!("unexpected {:?}", other),
    }
    let denied = Ok(HttpResponse { status: 401, body: "{\"message\":\"401 Unauthorized tok\"}".to_string() });
    match gitlab_release_call("https://g", "tok", "2.0.0", "n", denied) {
        Err(ReleaseError::Http { message }) => assert_eq!(message, "Gitlab [open api] error : [401] 401 Unauthorized [redacted]"),
        other => panic!("unexpected {:?}", other),
    }
}

#[test]
fn release_post_outcomes() {
    assert!(finish_post(Provider::Github, "t", Ok(HttpResponse { status: 201, body: String::new() })).is_ok());
    match finish_post(Provider::Github, "sec ret", Err("connection refused for sec+ret".to_string())) {
        Err(ReleaseError::Http { message }) => assert_eq!(message, "Github [open api] error : connection refused for [redacted]"),
        other => panic!("unexpected {:?}", other),
    }
}

fn config() -> BumpConfig {
    BumpConfig {
        schema: None,
        all: Some(true),
        changelog: None,
        commit: Some(BoolOrString::Str(String::new())),
        confirm: None,
        current_version: Some(String::new()),
        execute: Some("make".to_string()),
        files: Some(vec!["a.json".to_string()]),
        gitlab: None,
        ignore_scripts: None,
        install: Some(true),
        no_git_check: None,
        skip_hooks: None,
        preid: Some("rc".to_string()),
        push: Some(false),
        recursive: None,
        release: None,
        scripts: Some(ScriptsSection { preversion: Some("lint".to_string()), version: None, postversion: None }),
        sign: None,
        tag: Some(BoolOrString::Str("release-".to_string())),
    }
}

#[test]
fn options_from_typed_configuration() {
    let c = config();
    let o = BumpOptions::from_config(&c, "2.0.0");
    assert_eq!(o.release, Some("2.0.0"));
    assert_eq!(o.files, vec!["a.json".to_string()]);
    assert!(o.all && o.install && !o.push && !o.confirm);
    assert!(o.commit.is_none());
    assert!(matches!(o.tag, Some(TagInput::Name("release-"))));
    assert_eq!(o.execute, Some("make"));
    assert_eq!(o.preid, Some("rc"));
    assert_eq!(o.current_version, None);
    assert_eq!(o.scripts.unwrap().preversion, Some("lint".to_string()));
}

#[test]
fn options_from_merged_configuration() {
    let merged: Vec<(String, Json)> = vec![
        ("commit".to_string(), Json::Str("release %s".to_string())),
        ("tag".to_string(), Json::Bool(true)),
        ("files".to_string(), Json::Array(vec![Json::Str("x.json".to_string()), Json::Bool(true)])),
        ("push".to_string(), Json::Bool(true)),
        ("execute".to_string(), Json::Str(String::new())),
    ];
    let o = BumpOptions::from_merged(&merged, "3.0.0");
    assert_eq!(o.files, vec!["x.json".to_string()]);
    assert!(matches!(o.commit, Some(CommitInput::Message("release %s"))));
    assert!(matches!(o.tag, Some(TagInput::Bool(true))));
    assert!(o.push);
    assert_eq!(o.execute, None);
    let _ = FileVerdict::Missing;
}
