use vbumpp_core::release::{needs_gh_cli, release_next, ReleaseNext, ReleaseStage};
use vbumpp_core::release::repo_info_line;
use vbumpp_core::cli::release::{release_notes, release_plan_lines, release_target};
use vbumpp_core::cli::token::LineKind;
use vbumpp_core::json::Json;
use vbumpp_core::release::{
    assemble_plan, check_status, create_with_base, effective_host, form_encode_str, is_prerelease,
    missing_token_message, resolve_gitlab_host, resolve_owner_repo, resolve_token_sourced, scrub_token,
    HttpResponse, PlannedRequest, Provider, ReleaseError, ReleasePayload, TokenSource,
};
use vbumpp_core::token_store::StrMap;

#[test]
fn provider_names_round_trip() {
    for p in [Provider::Github, Provider::Gitlab, Provider::Gitee, Provider::Gitcode] {
        assert_eq!(Provider::parse(p.name()), Some(p));
    }
    assert_eq!(Provider::parse("bitbucket"), None);
    assert_eq!(Provider::Gitcode.display(), "GitCode");
    assert_eq!(Provider::Github.env_vars(), vec!["GH_TOKEN", "GITHUB_TOKEN"]);
}

#[test]
fn form_encoding_of_a_token() {
    assert_eq!(form_encode_str("a b+c/é*-._"), "a+b%2Bc%2F%C3%A9*-._");
}

#[test]
fn scrub_masks_raw_and_encoded_token() {
    assert_eq!(scrub_token("url?access_token=a+b and a b", "a b"), "url?access_token=[redacted] and [redacted]");
    assert_eq!(scrub_token("keep", ""), "keep");
}

#[test]
fn status_checks_name_the_platform() {
    let ok = HttpResponse { status: 201, body: String::new() };
    assert!(check_status(&ok, Provider::Github).is_ok());
    let not_found = HttpResponse { status: 404, body: "{\"message\":\"Not Found\"}".to_string() };
    match check_status(&not_found, Provider::Gitee) {
        Err(ReleaseError::Http { message }) => assert_eq!(message, "Gitee [open api] error : [404] Not Found"),
        other => panic!("unexpected {:?}", other),
    }
    let empty = HttpResponse { status: 500, body: String::new() };
    match check_status(&empty, Provider::Gitlab) {
        Err(ReleaseError::Http { message }) => assert_eq!(message, "Gitlab [open api] error : [500] Unknown error"),
        other => panic!("unexpected {:?}", other),
    }
    let text = HttpResponse { status: 502, body: "bad gateway".to_string() };
    match check_status(&text, Provider::Github) {
        Err(ReleaseError::Http { message }) => assert_eq!(message, "Github [open api] error : [502] bad gateway"),
        other => panic!("unexpected {:?}", other),
    }
}

#[test]
fn prerelease_follows_beta_or_alpha() {
    assert!(is_prerelease("1.0.0-beta.1"));
    assert!(is_prerelease("2.0.0-alpha"));
    assert!(!is_prerelease("1.0.0-rc.1"));
    assert!(!is_prerelease("1.0.0"));
}

#[test]
fn owner_and_repo_split_at_first_slash() {
    assert_eq!(resolve_owner_repo(Some("o/r/x")).unwrap(), ("o".to_string(), "r/x".to_string()));
    match resolve_owner_repo(None) {
        Err(ReleaseError::Git { message }) => assert_eq!(message, "cannot resolve the remote repository"),
        other => panic!("unexpected {:?}", other),
    }
    assert!(resolve_owner_repo(Some("noslash")).is_err());
}

#[test]
fn gitcode_request_carries_encoded_token() {
    let call = create_with_base("https://api.gitcode.com/api/v5", "t k", "1.2.0-beta.1", "notes", Some("o/r"), "main").unwrap();
    assert_eq!(call.method, "POST");
    assert_eq!(call.url, "https://api.gitcode.com/api/v5/repos/o/r/releases?access_token=t+k");
    match call.payload {
        Some(ReleasePayload::GithubLike { name, tag_name, body, target_commitish, prerelease }) => {
            assert_eq!(name, "1.2.0-beta.1");
            assert_eq!(tag_name, "v1.2.0-beta.1");
            assert_eq!(body, "notes");
            assert_eq!(target_commitish, "main");
            assert!(prerelease);
        }
        other => panic!("unexpected {:?}", other),
    }
}

#[test]
fn token_chain_store_then_env_then_gh() {
    let mut store = StrMap::new();
    let mut env = StrMap::new();
    env.insert("GITHUB_TOKEN".to_string(), "from-env".to_string());
    let r = resolve_token_sourced(Provider::Github, None, &store, &env, Some("  gh-out \n".to_string())).unwrap();
    assert_eq!(r.token, "from-env");
    assert_eq!(r.source.describe(), "environment variable GITHUB_TOKEN");
    store.insert("github".to_string(), "stored".to_string());
    let r = resolve_token_sourced(Provider::Github, None, &store, &env, None).unwrap();
    assert_eq!(r.token, "stored");
    assert_eq!(r.source.describe(), "token store");
    let none = StrMap::new();
    let r = resolve_token_sourced(Provider::Github, None, &none, &none, Some("  gh-out \n".to_string())).unwrap();
    assert_eq!(r.token, "gh-out");
    assert!(resolve_token_sourced(Provider::Gitee, None, &none, &none, Some("x".to_string())).is_none());
}

#[test]
fn gitlab_token_prefers_host_scoped_key() {
    let mut store = StrMap::new();
    store.insert("gitlab".to_string(), "plain".to_string());
    store.insert("gitlab@https://git.example.com".to_string(), "scoped".to_string());
    let none = StrMap::new();
    let r = resolve_token_sourced(Provider::Gitlab, Some("git.example.com/"), &store, &none, None).unwrap();
    assert_eq!(r.token, "scoped");
}

#[test]
fn missing_token_messages() {
    assert_eq!(
        missing_token_message(Provider::Gitlab, Some("https://g.x")),
        "no Gitlab token detected for https://g.x; run vbumpp token set gitlab --host https://g.x to add one"
    );
    assert_eq!(
        missing_token_message(Provider::Github, Some("https://api.github.com")),
        "no Github token detected; run vbumpp token set github to add one"
    );
}

#[test]
fn gitlab_host_overrides_win() {
    let doc = vec![(
        "gitlab".to_string(),
        Json::Object(vec![("host".to_string(), Json::Str("https://file.example".to_string()))]),
    )];
    let over = vec![(
        "gitlab".to_string(),
        Json::Object(vec![("host".to_string(), Json::Str("https://over.example".to_string()))]),
    )];
    assert_eq!(resolve_gitlab_host(Some(&doc), Some(&over)).unwrap(), Some("https://over.example".to_string()));
    assert_eq!(resolve_gitlab_host(Some(&doc), None).unwrap(), Some("https://file.example".to_string()));
    assert_eq!(effective_host(None, None).unwrap(), "https://gitlab.com");
    let bad = vec![("gitlab".to_string(), Json::Str("x".to_string()))];
    match effective_host(Some(&bad), None) {
        Err(ReleaseError::Config { message }) => assert_eq!(message, "gitlab section must be an object"),
        other => panic!("unexpected {:?}", other),
    }
}

#[test]
fn plan_masks_token_and_renders() {
    let requests = vec![PlannedRequest {
        method: "POST",
        url: "https://api.gitcode.com/api/v5/repos/o/r/releases?access_token=secret".to_string(),
    }];
    let resolved = resolve_token_sourced(Provider::Gitcode, None, &StrMap::new(), &{
        let mut e = StrMap::new();
        e.insert("GITCODE_TOKEN".to_string(), "secret".to_string());
        e
    }, None);
    let plan = assemble_plan(Provider::Gitcode, "1.0.0", "notes", Some("o/r"), resolved.as_ref(), requests).unwrap();
    assert_eq!(plan.requests[0].url, "https://api.gitcode.com/api/v5/repos/o/r/releases?access_token=[redacted]");
    assert_eq!(plan.tag_name, "v1.0.0");
    assert!(matches!(plan.token_source, Some(TokenSource::Env(_))));
    let lines = release_plan_lines(&plan);
    assert_eq!(lines[0], (LineKind::Info, "release plan (dry run — no changes made)".to_string()));
    assert_eq!(lines[1], (LineKind::Info, "token source: environment variable GITCODE_TOKEN".to_string()));
    assert_eq!(lines[2], (LineKind::Info, "provider: GitCode".to_string()));
    assert_eq!(lines[4], (LineKind::Info, "repo: o/r".to_string()));
    assert_eq!(lines[8], (LineKind::Plain, "notes".to_string()));
    assert_eq!(
        lines[10],
        (LineKind::Info, "  POST https://api.gitcode.com/api/v5/repos/o/r/releases?access_token=[redacted]".to_string())
    );
}

#[test]
fn release_target_and_notes() {
    let t = release_target("v5.1.0");
    assert_eq!((t.version.as_str(), t.tag.as_str(), t.tag_ref.as_str()), ("5.1.0", "v5.1.0", "refs/tags/v5.1.0"));
    let t = release_target("5.1.0");
    assert_eq!(t.tag, "v5.1.0");
    let content = "## v5.1.0\nnotes\n";
    assert_eq!(release_notes(content, &t, "CHANGELOG.md"), Ok("## v5.1.0\nnotes".to_string()));
    let other = release_target("6.0.0");
    assert_eq!(
        release_notes(content, &other, "CHANGELOG.md"),
        Err("no changelog section found for v6.0.0 in CHANGELOG.md".to_string())
    );
}

#[test]
fn repo_information_line() {
    assert_eq!(repo_info_line(Some("github.com"), Provider::Github), "repo: domain github.com (Github)");
    assert_eq!(repo_info_line(None, Provider::Gitcode), "repo: domain unknown (GitCode)");
}

#[test]
fn scrubbed_text_keeps_no_token() {
    let token = "ghp_Zx9/Q+w";
    let text = format!("a {token} b {} c {token}{token}", "ghp_Zx9%2FQ%2Bw");
    let out = scrub_token(&text, token);
    assert_eq!(out, "a [redacted] b [redacted] c [redacted][redacted]");
    assert!(!out.contains(token));
    assert!(!out.contains("ghp_Zx9%2FQ%2Bw"));
}

#[test]
fn gitlab_release_chain_steps() {
    let repo = Some("o/r");
    let (stage, next) = release_next(Provider::Gitlab, "https://g.x", "tok", "1.2.0", "notes", repo, "main", ReleaseStage::Start, None);
    assert_eq!(stage, ReleaseStage::ProjectAsked);
    match next {
        ReleaseNext::Send(c) => {
            assert_eq!(c.method, "GET");
            assert_eq!(c.url, "https://g.x/api/v4/projects/o%2Fr");
        }
        other => panic!("unexpected {:?}", other),
    }
    let reply = Ok(HttpResponse { status: 200, body: "{\"id\":7}".to_string() });
    let (stage, next) = release_next(Provider::Gitlab, "https://g.x", "tok", "1.2.0", "notes", repo, "main", stage, Some(reply));
    assert_eq!(stage, ReleaseStage::Posted);
    match next {
        ReleaseNext::Send(c) => {
            assert_eq!(c.method, "POST");
            assert_eq!(c.url, "https://g.x/api/v4/projects/7/releases");
        }
        other => panic!("unexpected {:?}", other),
    }
    let done = Ok(HttpResponse { status: 201, body: "{}".to_string() });
    match release_next(Provider::Gitlab, "https://g.x", "tok", "1.2.0", "notes", repo, "main", stage, Some(done)).1 {
        ReleaseNext::Done(Ok(())) => {}
        other => panic!("unexpected {:?}", other),
    }
}

#[test]
fn gh_cli_only_for_github_without_token() {
    let empty = StrMap::new();
    assert!(needs_gh_cli(Provider::Github, None, &empty, &empty));
    assert!(!needs_gh_cli(Provider::Gitee, None, &empty, &empty));
    let mut stored = StrMap::new();
    stored.insert("github".to_string(), "t".to_string());
    assert!(!needs_gh_cli(Provider::Github, None, &stored, &empty));
}
