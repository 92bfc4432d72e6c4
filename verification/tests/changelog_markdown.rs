use vbumpp_core::changelog::{
    changelog_commit_steps, generate_markdown, render_changelog, upsert_changelog_text, CommitAuthor,
    CommitReference, DisplayCommit, ReferenceType, ReleaseRange,
};
use vbumpp_core::changelog_config::{defaults, RepoConfig};
use vbumpp_core::extract::extract_version_section;
use vbumpp_core::gitmoji::convert_gitmoji;
use vbumpp_core::json::Json;

fn commit(
    t: &str,
    scope: &str,
    desc: &str,
    breaking: bool,
    refs: Vec<(ReferenceType, &str)>,
    name: &str,
    email: &str,
) -> DisplayCommit {
    DisplayCommit {
        commit_type: t.to_string(),
        scope: scope.to_string(),
        written_scope: scope.to_string(),
        description: desc.to_string(),
        is_breaking: breaking,
        references: refs
            .into_iter()
            .map(|(ref_type, v)| CommitReference { ref_type, value: v.to_string() })
            .collect(),
        author: CommitAuthor { name: name.to_string(), email: email.to_string() },
    }
}

fn github_config() -> vbumpp_core::changelog_config::ChangelogConfig {
    let mut c = defaults();
    c.repo = Some(RepoConfig {
        provider: Some("github".to_string()),
        domain: Some("github.com".to_string()),
        repo: Some("o/r".to_string()),
    });
    c
}

fn sample_commits() -> Vec<DisplayCommit> {
    vec![
        commit("feat", "api", "add thing", false, vec![(ReferenceType::PullRequest, "#12")], "jane doe", "jane@x.com"),
        commit(
            "fix",
            "",
            "fix bug",
            true,
            vec![(ReferenceType::Hash, "abc1234")],
            "bob",
            "bob@users.noreply.github.com",
        ),
        commit("feat", "", "second :sparkles:", false, vec![], "jane doe", "jane@x.com"),
    ]
}

#[test]
fn markdown_has_every_section_in_order() {
    let config = github_config();
    let range = ReleaseRange { from: "v1.0.0", to: "1.1.0", new_version: Some("1.1.0") };
    let md = generate_markdown(&sample_commits(), &config, &range);
    let expected = "## v1.1.0\n\n[compare changes](https://github.com/o/r/compare/v1.0.0...v1.1.0)\n\n\
### 🚀 Enhancements\n\n- Second ✨ \n- **api:** Add thing ([#12](https://github.com/o/r/pull/12))\n\n\
### 🩹 Fixes\n\n- ⚠️  Fix bug ([abc1234](https://github.com/o/r/commit/abc1234))\n\n\
#### 🚨 Breaking Changes\n\n- ⚠️  Fix bug ([abc1234](https://github.com/o/r/commit/abc1234))\n\n\
### ❤️ Contributors\n\n- Jane Doe\n- Bob";
    assert_eq!(md, expected);
}

#[test]
fn markdown_without_repo_or_new_version() {
    let config = defaults();
    let range = ReleaseRange { from: "v1.0.0", to: "HEAD", new_version: None };
    let commits = vec![commit("docs", "", "readme", false, vec![(ReferenceType::Issue, "#3")], "ann", "a@b.c")];
    let md = generate_markdown(&commits, &config, &range);
    assert_eq!(md, "## v1.0.0...HEAD\n\n\n### 📖 Documentation\n\n- Readme (#3)\n\n### ❤️ Contributors\n\n- Ann");
}

#[test]
fn markdown_shows_emails_when_not_hidden() {
    let mut config = defaults();
    config.hide_author_email = false;
    config.exclude_authors = vec!["bot@".to_string()];
    let range = ReleaseRange { from: "", to: "1.0.0", new_version: Some("1.0.0") };
    let commits = vec![
        commit("feat", "", "a", false, vec![], "ann lee", "ann@users.noreply.github.com"),
        commit("feat", "", "b", false, vec![], "ann lee", "ann@x.org"),
        commit("feat", "", "c", false, vec![], "ci", "bot@x.org"),
        commit("feat", "", "d", false, vec![], "renovate[bot]", "r@x.org"),
    ];
    let md = generate_markdown(&commits, &config, &range);
    assert_eq!(md, "## v1.0.0\n\n\n### 🚀 Enhancements\n\n- D\n- C\n- B\n- A\n\n### ❤️ Contributors\n\n- Ann Lee <ann@x.org>");
}

#[test]
fn bitbucket_compare_link_and_gitlab_refs() {
    let mut config = defaults();
    config.repo = Some(RepoConfig {
        provider: Some("bitbucket".to_string()),
        domain: Some("bitbucket.org".to_string()),
        repo: Some("o/r".to_string()),
    });
    config.no_authors = true;
    let range = ReleaseRange { from: "v1", to: "v2", new_version: None };
    let commits = vec![commit("fix", "", "x", false, vec![(ReferenceType::PullRequest, "#7")], "a", "a@a")];
    let md = generate_markdown(&commits, &config, &range);
    assert_eq!(
        md,
        "## v1...v2\n\n[compare changes](https://bitbucket.org/o/r/branches/compare/v2%0Dv1)\n\n### 🩹 Fixes\n\n- X ([#7](https://bitbucket.org/o/r/pull-requests/7))"
    );
}

#[test]
fn render_filters_types_and_excluded_scopes() {
    let config = defaults();
    let range = ReleaseRange { from: "", to: "2.0.0", new_version: Some("2.0.0") };
    let mut deps = commit("chore", "deps", "bump lib", false, vec![], "a", "a@a");
    deps.written_scope = "deps".to_string();
    let mut deps_breaking = commit("chore", "deps", "drop node 14", true, vec![], "a", "a@a");
    deps_breaking.written_scope = "deps".to_string();
    let unknown = commit("wip", "", "nothing", false, vec![], "a", "a@a");
    let md = render_changelog(vec![deps, deps_breaking, unknown], &config, &range);
    assert_eq!(
        md,
        "## v2.0.0\n\n\n### 🏡 Chore\n\n- **deps:** ⚠️  Drop node 14\n\n#### 🚨 Breaking Changes\n\n- **deps:** ⚠️  Drop node 14\n\n### ❤️ Contributors\n\n- A"
    );
}

#[test]
fn gitmoji_codes_become_emoji_in_any_case() {
    assert_eq!(convert_gitmoji(":Sparkles: x :bug:"), "✨  x 🐛 ");
    assert_eq!(convert_gitmoji("no codes :unknown: here"), "no codes :unknown: here");
}

#[test]
fn extract_finds_the_section_of_a_version() {
    let content = "# Changelog\n\n## v1.1.0\n\nbody\n### sub\nmore\n\n## v1.0.0\nold\n";
    assert_eq!(extract_version_section(content, "1.1.0"), Some("## v1.1.0\n\nbody\n### sub\nmore".to_string()));
    assert_eq!(extract_version_section(content, "1.0.0"), Some("## v1.0.0\nold".to_string()));
    assert_eq!(extract_version_section(content, "2.0.0"), None);
}

#[test]
fn extract_accepts_plain_headings_and_crlf() {
    let content = "## 3.0.0  \r\nnotes\r\n## 2.0.0\r\n";
    assert_eq!(extract_version_section(content, "3.0.0"), Some("## 3.0.0  \nnotes".to_string()));
}

#[test]
fn upsert_inserts_before_first_entry() {
    let existing = "# Changelog\n\n## v1.0.0\n\nold\n".to_string();
    assert_eq!(
        upsert_changelog_text(Some(existing), "## v1.1.0\n\nnew"),
        "# Changelog\n\n## v1.1.0\n\nnew\n\n## v1.0.0\n\nold\n"
    );
}

#[test]
fn upsert_appends_to_a_new_file() {
    assert_eq!(upsert_changelog_text(None, "## v1.0.0"), "# Changelog\n\n\n## v1.0.0\n\n");
}

#[test]
fn commit_steps_follow_the_commit_setting() {
    let config = defaults();
    let on: Vec<(String, Json)> = vec![];
    assert_eq!(
        changelog_commit_steps(&config, &on),
        vec![
            vec!["add".to_string(), "CHANGELOG.md".to_string()],
            vec!["commit".to_string(), "-m".to_string(), "chore: update CHANGELOG.md".to_string()],
        ]
    );
    let off = vec![("commit".to_string(), Json::Bool(false))];
    assert!(changelog_commit_steps(&config, &off).is_empty());
    let empty = vec![("commit".to_string(), Json::Str(String::new()))];
    assert!(changelog_commit_steps(&config, &empty).is_empty());
    let message = vec![("commit".to_string(), Json::Str("release".to_string()))];
    assert_eq!(changelog_commit_steps(&config, &message).len(), 2);
}

#[test]
fn render_is_generate_over_the_shown_commits() {
    let config = defaults();
    let range = ReleaseRange { from: "v1.0.0", to: "v1.1.0", new_version: Some("1.1.0") };
    let mut deps = commit("chore", "deps", "bump lib", false, vec![], "a", "a@a");
    deps.written_scope = "deps".to_string();
    let feat = commit("feat", "", "add thing", false, vec![], "b", "b@b");
    let wip = commit("wip", "", "nothing", false, vec![], "c", "c@c");
    let rendered = render_changelog(vec![deps, feat, wip], &config, &range);
    let shown = commit("feat", "", "add thing", false, vec![], "b", "b@b");
    let generated = generate_markdown(&vec![shown], &config, &range);
    assert_eq!(rendered, generated);
}
