//! The `release` subcommand's decisions: the version and tag it names, the
//! release notes it takes from the changelog, its messages, and the lines of
//! a release plan.

use vstd::prelude::*;
use crate::cli::token::{lines_view, LineKind};
use crate::extract::{extract_spec, extract_version_section};
use crate::release::{
    missing_token_message, missing_token_spec, provider_display, Provider, ReleasePlan, TokenSourceV,
};
use crate::text::{chars_of, owned, push_str, slice_chars, string_of};

verus! {

/// The message when no platform is given to `release`.
pub open spec fn provider_required_spec() -> Seq<char> {
    "option --provider is required for release (expected github / gitlab / gitee / gitcode)"@
}

/// The message when no platform is given to `release`.
pub fn provider_required_message() -> (r: String)
    ensures
        r@ == provider_required_spec(),
{
    owned("option --provider is required for release (expected github / gitlab / gitee / gitcode)")
}

/// The version without a leading `v`.
pub open spec fn bare_version(v: Seq<char>) -> Seq<char> {
    if v.len() > 0 && v[0] == 'v' {
        v.drop_first()
    } else {
        v
    }
}

/// What a `release <version>` run is about: the bare version, its tag
/// `v{version}` and the tag's reference `refs/tags/{tag}`.
#[derive(Debug)]
pub struct ReleaseTarget {
    pub version: String,
    pub tag: String,
    pub tag_ref: String,
}

/// The target of `release <version>`: `5.1.0` and `v5.1.0` name the same.
pub fn release_target(version: &str) -> (r: ReleaseTarget)
    ensures
        r.version@ == bare_version(version@),
        r.tag@ == "v"@ + bare_version(version@),
        r.tag_ref@ == "refs/tags/"@ + r.tag@,
{
    let v = chars_of(version);
    let bare = if v.len() > 0 && v[0] == 'v' {
        assert(v@.subrange(1, v@.len() as int) =~= v@.drop_first());
        slice_chars(&v, 1, v.len())
    } else {
        assert(v@.subrange(0, v@.len() as int) =~= v@);
        slice_chars(&v, 0, v.len())
    };
    let b = string_of(&bare);
    let mut tag = owned("v");
    push_str(&mut tag, b.as_str());
    let mut tag_ref = owned("refs/tags/");
    push_str(&mut tag_ref, tag.as_str());
    ReleaseTarget { version: b, tag, tag_ref }
}

/// The message when the tag does not exist locally.
pub open spec fn tag_missing_spec(tag: Seq<char>) -> Seq<char> {
    "tag "@ + tag + " not found locally — run the bump flow first (release requires an existing tag)"@
}

/// The message when the tag does not exist locally.
pub fn tag_missing_message(tag: &str) -> (r: String)
    ensures
        r@ == tag_missing_spec(tag@),
{
    let mut m = owned("tag ");
    push_str(&mut m, tag);
    push_str(&mut m, " not found locally — run the bump flow first (release requires an existing tag)");
    m
}

/// The release notes: the version's section of the changelog, or the
/// message that it has none.
pub open spec fn notes_spec(content: Seq<char>, t_version: Seq<char>, tag: Seq<char>, output: Seq<char>) -> Result<Seq<char>, Seq<char>> {
    match extract_spec(content, t_version) {
        Some(x) => Ok(x),
        None => Err("no changelog section found for "@ + tag + " in "@ + output),
    }
}

/// The release notes of the target from the changelog text; an error
/// message when the changelog has no section for it.
pub fn release_notes(content: &str, target: &ReleaseTarget, output: &str) -> (r: Result<String, String>)
    ensures
        match notes_spec(content@, target.version@, target.tag@, output@) {
            Ok(x) => r matches Ok(y) && y@ == x,
            Err(m) => r matches Err(y) && y@ == m,
        },
{
    match extract_version_section(content, target.version.as_str()) {
        Some(x) => Ok(x),
        None => {
            let mut m = owned("no changelog section found for ");
            push_str(&mut m, target.tag.as_str());
            push_str(&mut m, " in ");
            push_str(&mut m, output);
            Err(m)
        },
    }
}

/// The line once the release was created.
pub fn release_success_message(provider: Provider, tag: &str) -> (r: String)
    ensures
        r@ == "["@ + provider_display(provider) + "] add release "@ + tag@ + " success"@,
{
    let mut m = owned("[");
    push_str(&mut m, provider.display());
    push_str(&mut m, "] add release ");
    push_str(&mut m, tag);
    push_str(&mut m, " success");
    m
}

/// How a token source is described.
pub open spec fn describe_spec(s: TokenSourceV) -> Seq<char> {
    match s {
        TokenSourceV::Store => "token store"@,
        TokenSourceV::Env(n) => "environment variable "@ + n,
        TokenSourceV::GhCli => "gh CLI (`gh auth token`)"@,
    }
}

pub open spec fn bool_text(b: bool) -> Seq<char> {
    if b {
        "true"@
    } else {
        "false"@
    }
}

/// The lines of a release plan: a heading, the token source (or, as a
/// warning, the missing-token message), the platform, host, repository, tag,
/// prerelease flag, the notes as they are, and each request.
pub open spec fn plan_lines_spec(p: ReleasePlan) -> Seq<(LineKind, Seq<char>)> {
    seq![
        (LineKind::Info, "release plan (dry run — no changes made)"@),
        match p.token_source {
            Some(s) => (LineKind::Info, "token source: "@ + describe_spec(s.view())),
            None => (LineKind::Warn, missing_token_spec(p.provider, Some(p.host@))),
        },
        (LineKind::Info, "provider: "@ + provider_display(p.provider)),
        (LineKind::Info, "host: "@ + p.host@),
        (LineKind::Info, "repo: "@ + p.owner@ + "/"@ + p.repo@),
        (LineKind::Info, "tag_name: "@ + p.tag_name@),
        (LineKind::Info, "prerelease: "@ + bool_text(p.prerelease)),
        (LineKind::Info, "body:"@),
        (LineKind::Plain, p.body@),
        (LineKind::Info, "requests:"@),
    ] + p.requests@.map_values(
        |q: crate::release::PlannedRequest| (LineKind::Info, "  "@ + q.method@ + " "@ + q.url@),
    )
}

fn line(k: LineKind, head: &str, tail: &str) -> (r: (LineKind, String))
    ensures
        r.0 == k,
        r.1@ == head@ + tail@,
{
    let mut s = owned(head);
    push_str(&mut s, tail);
    (k, s)
}

/// The lines that show a release plan.
pub fn release_plan_lines(plan: &ReleasePlan) -> (r: Vec<(LineKind, String)>)
    ensures
        lines_view(r@) == plan_lines_spec(*plan),
{
    let mut out: Vec<(LineKind, String)> = Vec::new();
    out.push((LineKind::Info, owned("release plan (dry run — no changes made)")));
    match &plan.token_source {
        Some(s) => out.push(line(LineKind::Info, "token source: ", s.describe().as_str())),
        None => out.push((LineKind::Warn, missing_token_message(plan.provider, Some(plan.host.as_str())))),
    }
    out.push(line(LineKind::Info, "provider: ", plan.provider.display()));
    out.push(line(LineKind::Info, "host: ", plan.host.as_str()));
    let mut repo = owned("repo: ");
    push_str(&mut repo, plan.owner.as_str());
    push_str(&mut repo, "/");
    push_str(&mut repo, plan.repo.as_str());
    out.push((LineKind::Info, repo));
    out.push(line(LineKind::Info, "tag_name: ", plan.tag_name.as_str()));
    out.push(line(LineKind::Info, "prerelease: ", if plan.prerelease { "true" } else { "false" }));
    out.push((LineKind::Info, owned("body:")));
    out.push((LineKind::Plain, owned(plan.body.as_str())));
    out.push((LineKind::Info, owned("requests:")));
    let ghost head = lines_view(out@);
    let mut i: usize = 0;
    while i < plan.requests.len()
        invariant
            i <= plan.requests@.len(),
            lines_view(out@) == head + plan.requests@.subrange(0, i as int).map_values(
                |q: crate::release::PlannedRequest| (LineKind::Info, "  "@ + q.method@ + " "@ + q.url@),
            ),
        decreases plan.requests.len() - i,
    {
        let mut s = owned("  ");
        push_str(&mut s, plan.requests[i].method);
        push_str(&mut s, " ");
        push_str(&mut s, plan.requests[i].url.as_str());
        let ghost before = lines_view(out@);
        out.push((LineKind::Info, s));
        assert(lines_view(out@) =~= before.push((LineKind::Info, s@)));
        assert(plan.requests@.subrange(0, i + 1).map_values(
            |q: crate::release::PlannedRequest| (LineKind::Info, "  "@ + q.method@ + " "@ + q.url@),
        ) =~= plan.requests@.subrange(0, i as int).map_values(
            |q: crate::release::PlannedRequest| (LineKind::Info, "  "@ + q.method@ + " "@ + q.url@),
        ).push((LineKind::Info, s@)));
        i = i + 1;
    }
    assert(plan.requests@.subrange(0, plan.requests@.len() as int) =~= plan.requests@);
    assert(lines_view(out@) =~= plan_lines_spec(*plan));
    out
}

/// `release 5.1.0` and `release v5.1.0` name the same version (for a
/// version that does not itself start with `v`).
pub proof fn law_v_prefix_ignored(version: Seq<char>)
    requires
        version.len() == 0 || version[0] != 'v',
    ensures
        bare_version("v"@ + version) == bare_version(version),
{
    reveal_strlit("v");
    assert(("v"@ + version).drop_first() =~= version);
}

} // verus!
