//! Changelog markdown: the version heading, the compare link, one section
//! per commit type (declaration order, oldest commit first), the breaking
//! changes, the contributors, and gitmoji codes turned into emoji.

use vstd::prelude::*;
use crate::changelog_config::{
    entries_view, opt_text, ChangelogConfig, ChangelogTypeEntry, ConfigV, EntryV, RepoConfig, RepoV,
};
use crate::cli::parse::texts;
use crate::json::{get_member, obj_get, Json, JsonObject};
use crate::pattern::{regex_matches, regex_matches_of, regex_split, regex_split_of, vviews, weave, weave_exec};
use crate::text::{
    chars_of, contains_chars, contains_seq, extend_chars, extend_str, join_seq, join_vecs, lit,
    replace_all, replace_chars, slice_chars, split_on, split_on_exec, str_eq, string_of,
    strip_leading, strip_leading_exec, trim_chars, trim_spec,
};

verus! {

/// What a commit reference points to.
#[derive(Debug, Clone, Copy, PartialEq, Eq, Structural)]
pub enum ReferenceType {
    PullRequest,
    Issue,
    Hash,
}

/// A reference of a commit (`#12`, a hash).
#[derive(Debug)]
pub struct CommitReference {
    pub ref_type: ReferenceType,
    pub value: String,
}

/// A commit's author.
#[derive(Debug)]
pub struct CommitAuthor {
    pub name: String,
    pub email: String,
}

/// A parsed conventional commit, as the changelog shows it.
#[derive(Debug)]
pub struct DisplayCommit {
    pub commit_type: String,
    /// The scope as shown (after the scope map).
    pub scope: String,
    /// The scope as written in the commit.
    pub written_scope: String,
    pub description: String,
    pub is_breaking: bool,
    pub references: Vec<CommitReference>,
    pub author: CommitAuthor,
}

/// The range of a release (given per run).
#[derive(Debug, Clone, Copy)]
pub struct ReleaseRange<'a> {
    pub from: &'a str,
    pub to: &'a str,
    pub new_version: Option<&'a str>,
}

/// `char::to_uppercase` of a character, as text (Unicode; one character may
/// become several).
pub uninterp spec fn upper_of(c: char) -> Seq<char>;

/// `char::to_uppercase(c)` collected into a string.
#[verifier::external_body]
fn to_upper(c: char) -> (r: String)
    ensures
        r@ == upper_of(c),
{
    c.to_uppercase().collect::<String>()
}

/// The first character upper-cased, the rest kept.
pub open spec fn upper_first(s: Seq<char>) -> Seq<char> {
    if s.len() == 0 {
        s
    } else {
        upper_of(s[0]) + s.drop_first()
    }
}

fn upper_first_exec(v: &Vec<char>) -> (r: Vec<char>)
    ensures
        r@ == upper_first(v@),
{
    if v.len() == 0 {
        return Vec::new();
    }
    let mut r = chars_of(to_upper(v[0]).as_str());
    extend_chars(&mut r, &slice_chars(v, 1, v.len()));
    assert(v@.subrange(1, v@.len() as int) =~= v@.drop_first());
    r
}

/// `https://{domain}/{repo}` (missing parts empty).
pub open spec fn repo_base(r: RepoV) -> Seq<char> {
    "https://"@ + (match r.domain {
        Some(d) => d,
        None => Seq::empty(),
    }) + "/"@ + match r.repo {
        Some(x) => x,
        None => Seq::empty(),
    }
}

fn repo_base_exec(r: &RepoConfig) -> (s: Vec<char>)
    ensures
        s@ == repo_base(r.view()),
{
    let mut s = lit("https://");
    match &r.domain {
        Some(d) => extend_str(&mut s, d.as_str()),
        None => {},
    }
    extend_str(&mut s, "/");
    match &r.repo {
        Some(x) => extend_str(&mut s, x.as_str()),
        None => {},
    }
    s
}

/// The link path of a reference kind on a known provider.
pub open spec fn ref_path(provider: Seq<char>, t: ReferenceType) -> Option<Seq<char>> {
    if provider == "github"@ {
        Some(
            match t {
                ReferenceType::PullRequest => "pull"@,
                ReferenceType::Issue => "issues"@,
                ReferenceType::Hash => "commit"@,
            },
        )
    } else if provider == "gitlab"@ {
        Some(
            match t {
                ReferenceType::PullRequest => "merge_requests"@,
                ReferenceType::Issue => "issues"@,
                ReferenceType::Hash => "commit"@,
            },
        )
    } else if provider == "bitbucket"@ {
        Some(
            match t {
                ReferenceType::PullRequest => "pull-requests"@,
                ReferenceType::Issue => "issues"@,
                ReferenceType::Hash => "commit"@,
            },
        )
    } else {
        None
    }
}

/// A reference: a markdown link on github, gitlab and bitbucket, else its text.
pub open spec fn format_reference_spec(t: ReferenceType, value: Seq<char>, repo: Option<RepoV>) -> Seq<char> {
    match repo {
        None => value,
        Some(r) => match r.provider {
            None => value,
            Some(p) => match ref_path(p, t) {
                None => value,
                Some(path) => "["@ + value + "]("@ + repo_base(r) + "/"@ + path + "/"@ + strip_leading(
                    value,
                    '#',
                ) + ")"@,
            },
        },
    }
}

pub open spec fn opt_repo(r: Option<&RepoConfig>) -> Option<RepoV> {
    match r {
        Some(x) => Some(x.view()),
        None => None,
    }
}

fn ref_path_exec(provider: &String, t: ReferenceType) -> (r: Option<&'static str>)
    ensures
        match ref_path(provider@, t) {
            Some(p) => r is Some && r->0@ == p,
            None => r is None,
        },
{
    if str_eq(provider.as_str(), "github") {
        Some(
            match t {
                ReferenceType::PullRequest => "pull",
                ReferenceType::Issue => "issues",
                ReferenceType::Hash => "commit",
            },
        )
    } else if str_eq(provider.as_str(), "gitlab") {
        Some(
            match t {
                ReferenceType::PullRequest => "merge_requests",
                ReferenceType::Issue => "issues",
                ReferenceType::Hash => "commit",
            },
        )
    } else if str_eq(provider.as_str(), "bitbucket") {
        Some(
            match t {
                ReferenceType::PullRequest => "pull-requests",
                ReferenceType::Issue => "issues",
                ReferenceType::Hash => "commit",
            },
        )
    } else {
        None
    }
}

fn format_reference(reference: &CommitReference, repo: Option<&RepoConfig>) -> (s: Vec<char>)
    ensures
        s@ == format_reference_spec(reference.ref_type, reference.value@, opt_repo(repo)),
{
    let value = chars_of(reference.value.as_str());
    let r = match repo {
        None => return value,
        Some(r) => r,
    };
    let p = match &r.provider {
        None => return value,
        Some(p) => p,
    };
    let path = match ref_path_exec(p, reference.ref_type) {
        None => return value,
        Some(path) => path,
    };
    let mut s = lit("[");
    extend_chars(&mut s, &value);
    extend_str(&mut s, "](");
    extend_chars(&mut s, &repo_base_exec(r));
    extend_str(&mut s, "/");
    extend_str(&mut s, path);
    extend_str(&mut s, "/");
    extend_chars(&mut s, &strip_leading_exec(&value, '#'));
    extend_str(&mut s, ")");
    s
}

/// The references of one kind, formatted, in order.
pub open spec fn refs_of_kind(refs: Seq<CommitReference>, t: ReferenceType, repo: Option<RepoV>) -> Seq<Seq<char>>
    decreases refs.len(),
{
    if refs.len() == 0 {
        Seq::empty()
    } else {
        let rest = refs_of_kind(refs.drop_last(), t, repo);
        if refs.last().ref_type == t {
            rest.push(format_reference_spec(t, refs.last().value@, repo))
        } else {
            rest
        }
    }
}

/// The references part of a commit line: pull requests then issues; else
/// the first reference (a hash); else nothing.
pub open spec fn format_references_spec(refs: Seq<CommitReference>, repo: Option<RepoV>) -> Seq<char> {
    let listed = refs_of_kind(refs, ReferenceType::PullRequest, repo) + refs_of_kind(
        refs,
        ReferenceType::Issue,
        repo,
    );
    if listed.len() > 0 {
        " ("@ + join_seq(listed, ", "@) + ")"@
    } else if refs.len() > 0 {
        " ("@ + format_reference_spec(refs[0].ref_type, refs[0].value@, repo) + ")"@
    } else {
        Seq::empty()
    }
}


fn refs_of_kind_exec(refs: &Vec<CommitReference>, t: ReferenceType, repo: Option<&RepoConfig>, out: &mut Vec<Vec<char>>)
    ensures
        vviews(final(out)@) == vviews(old(out)@) + refs_of_kind(refs@, t, opt_repo(repo)),
{
    let mut i: usize = 0;
    assert(vviews(out@) =~= vviews(old(out)@) + refs_of_kind(refs@.subrange(0, 0), t, opt_repo(repo)));
    while i < refs.len()
        invariant
            i <= refs@.len(),
            vviews(out@) == vviews(old(out)@) + refs_of_kind(refs@.subrange(0, i as int), t, opt_repo(repo)),
        decreases refs.len() - i,
    {
        assert(refs@.subrange(0, i + 1).drop_last() =~= refs@.subrange(0, i as int));
        if refs[i].ref_type == t {
            let ghost before = vviews(out@);
            let f = format_reference(&refs[i], repo);
            out.push(f);
            assert(vviews(out@) =~= before.push(f@));
        }
        i = i + 1;
    }
    assert(refs@.subrange(0, refs@.len() as int) =~= refs@);
}

fn format_references(refs: &Vec<CommitReference>, repo: Option<&RepoConfig>) -> (s: Vec<char>)
    ensures
        s@ == format_references_spec(refs@, opt_repo(repo)),
{
    let mut listed: Vec<Vec<char>> = Vec::new();
    refs_of_kind_exec(refs, ReferenceType::PullRequest, repo, &mut listed);
    refs_of_kind_exec(refs, ReferenceType::Issue, repo, &mut listed);
    assert(vviews(listed@) =~= refs_of_kind(refs@, ReferenceType::PullRequest, opt_repo(repo)) + refs_of_kind(
        refs@,
        ReferenceType::Issue,
        opt_repo(repo),
    ));
    if listed.len() > 0 {
        let mut s = lit(" (");
        extend_chars(&mut s, &join_vecs(&listed, ", "));
        extend_str(&mut s, ")");
        return s;
    }
    if refs.len() > 0 {
        let mut s = lit(" (");
        extend_chars(&mut s, &format_reference(&refs[0], repo));
        extend_str(&mut s, ")");
        return s;
    }
    Vec::new()
}

/// One commit line: `- **scope:** ⚠️  Description (references)`.
pub open spec fn format_commit_spec(c: DisplayCommit, repo: Option<RepoV>) -> Seq<char> {
    "- "@ + (if c.scope@.len() == 0 {
        Seq::empty()
    } else {
        "**"@ + trim_spec(c.scope@) + ":** "@
    }) + (if c.is_breaking {
        "⚠️  "@
    } else {
        Seq::empty()
    }) + upper_first(c.description@) + format_references_spec(c.references@, repo)
}

fn format_commit(c: &DisplayCommit, repo: Option<&RepoConfig>) -> (s: Vec<char>)
    ensures
        s@ == format_commit_spec(*c, opt_repo(repo)),
{
    let mut s = lit("- ");
    let scope = chars_of(c.scope.as_str());
    if scope.len() > 0 {
        extend_str(&mut s, "**");
        extend_chars(&mut s, &trim_chars(&scope));
        extend_str(&mut s, ":** ");
    }
    if c.is_breaking {
        extend_str(&mut s, "⚠️  ");
    }
    extend_chars(&mut s, &upper_first_exec(&chars_of(c.description.as_str())));
    extend_chars(&mut s, &format_references(&c.references, repo));
    s
}

/// The compare link: bitbucket compares `to%0Dfrom` under `branches/compare`,
/// every other host `from...to` under `compare`.
pub open spec fn compare_spec(v: Option<Seq<char>>, r: RepoV, from: Seq<char>, to: Seq<char>) -> Seq<char> {
    let t = match v {
        Some(x) => x,
        None => to,
    };
    let bb = r.provider == Some("bitbucket"@);
    "[compare changes]("@ + repo_base(r) + "/"@ + (if bb {
        "branches/compare"@
    } else {
        "compare"@
    }) + "/"@ + (if bb {
        t + "%0D"@ + from
    } else {
        from + "..."@ + t
    }) + ")"@
}

fn compare_exec(v: &Option<Vec<char>>, r: &RepoConfig, from: &str, to: &str) -> (s: Vec<char>)
    ensures
        s@ == compare_spec(
            match v {
                Some(x) => Some(x@),
                None => None,
            },
            r.view(),
            from@,
            to@,
        ),
{
    let t = match v {
        Some(x) => slice_chars(x, 0, x.len()),
        None => chars_of(to),
    };
    let bb = match &r.provider {
        Some(p) => str_eq(p.as_str(), "bitbucket"),
        None => false,
    };
    let mut s = lit("[compare changes](");
    extend_chars(&mut s, &repo_base_exec(r));
    extend_str(&mut s, "/");
    if bb {
        extend_str(&mut s, "branches/compare");
    } else {
        extend_str(&mut s, "compare");
    }
    extend_str(&mut s, "/");
    if bb {
        extend_chars(&mut s, &t);
        extend_str(&mut s, "%0D");
        extend_str(&mut s, from);
    } else {
        extend_str(&mut s, from);
        extend_str(&mut s, "...");
        extend_chars(&mut s, &t);
    }
    extend_str(&mut s, ")");
    proof {
        match v {
            Some(x) => assert(x@.subrange(0, x@.len() as int) =~= x@),
            None => {},
        }
    }
    s
}


/// The lines of the commits of type `name` (only the breaking ones when
/// `only_breaking`), the last commit of the list first.
pub open spec fn group_lines(cs: Seq<DisplayCommit>, name: Seq<char>, only_breaking: bool, repo: Option<RepoV>) -> Seq<Seq<char>>
    decreases cs.len(),
{
    if cs.len() == 0 {
        Seq::empty()
    } else {
        let rest = group_lines(cs.drop_first(), name, only_breaking, repo);
        if cs[0].commit_type@ == name && (!only_breaking || cs[0].is_breaking) {
            rest.push(format_commit_spec(cs[0], repo))
        } else {
            rest
        }
    }
}

fn group_lines_exec(cs: &Vec<DisplayCommit>, name: &String, only_breaking: bool, repo: Option<&RepoConfig>) -> (r: Vec<Vec<char>>)
    ensures
        vviews(r@) == group_lines(cs@, name@, only_breaking, opt_repo(repo)),
{
    let mut out: Vec<Vec<char>> = Vec::new();
    let mut i: usize = cs.len();
    assert(cs@.subrange(cs@.len() as int, cs@.len() as int).len() == 0);
    while i > 0
        invariant
            i <= cs@.len(),
            vviews(out@) == group_lines(cs@.subrange(i as int, cs@.len() as int), name@, only_breaking, opt_repo(repo)),
        decreases i,
    {
        i = i - 1;
        let ghost tail = cs@.subrange(i as int, cs@.len() as int);
        assert(tail.drop_first() =~= cs@.subrange(i + 1, cs@.len() as int));
        assert(tail[0] == cs@[i as int]);
        let c = &cs[i];
        if str_eq(c.commit_type.as_str(), name.as_str()) && (!only_breaking || c.is_breaking) {
            let ghost before = vviews(out@);
            let line = format_commit(c, repo);
            out.push(line);
            assert(vviews(out@) =~= before.push(line@));
        }
    }
    assert(cs@.subrange(0, cs@.len() as int) =~= cs@);
    out
}

/// One section per group with commits, in the groups' order: a blank line,
/// `### title`, a blank line, the group's lines.
pub open spec fn type_sections(ts: Seq<(Seq<char>, EntryV)>, cs: Seq<DisplayCommit>, repo: Option<RepoV>) -> Seq<Seq<char>>
    decreases ts.len(),
{
    if ts.len() == 0 {
        Seq::empty()
    } else {
        let g = group_lines(cs, ts.last().0, false, repo);
        type_sections(ts.drop_last(), cs, repo) + if g.len() == 0 {
            Seq::empty()
        } else {
            seq![Seq::<char>::empty(), "### "@ + ts.last().1.title, Seq::<char>::empty()] + g
        }
    }
}

/// The breaking commits' lines, group by group.
pub open spec fn breaking_lines(ts: Seq<(Seq<char>, EntryV)>, cs: Seq<DisplayCommit>, repo: Option<RepoV>) -> Seq<Seq<char>>
    decreases ts.len(),
{
    if ts.len() == 0 {
        Seq::empty()
    } else {
        breaking_lines(ts.drop_last(), cs, repo) + group_lines(cs, ts.last().0, true, repo)
    }
}

fn sections_exec(
    ts: &Vec<(String, ChangelogTypeEntry)>,
    cs: &Vec<DisplayCommit>,
    repo: Option<&RepoConfig>,
    lines: &mut Vec<Vec<char>>,
    breaking: &mut Vec<Vec<char>>,
)
    ensures
        vviews(final(lines)@) == vviews(old(lines)@) + type_sections(entries_view(ts@), cs@, opt_repo(repo)),
        vviews(final(breaking)@) == vviews(old(breaking)@) + breaking_lines(entries_view(ts@), cs@, opt_repo(repo)),
{
    let ghost tv = entries_view(ts@);
    let mut i: usize = 0;
    assert(tv.subrange(0, 0) =~= Seq::<(Seq<char>, EntryV)>::empty());
    assert(vviews(lines@) =~= vviews(old(lines)@) + type_sections(tv.subrange(0, 0), cs@, opt_repo(repo)));
    assert(vviews(breaking@) =~= vviews(old(breaking)@) + breaking_lines(tv.subrange(0, 0), cs@, opt_repo(repo)));
    while i < ts.len()
        invariant
            i <= ts@.len(),
            tv == entries_view(ts@),
            vviews(lines@) == vviews(old(lines)@) + type_sections(tv.subrange(0, i as int), cs@, opt_repo(repo)),
            vviews(breaking@) == vviews(old(breaking)@) + breaking_lines(tv.subrange(0, i as int), cs@, opt_repo(repo)),
        decreases ts.len() - i,
    {
        let ghost pre = tv.subrange(0, i + 1);
        assert(pre.drop_last() =~= tv.subrange(0, i as int));
        assert(pre.last() == tv[i as int]);
        assert(tv[i as int].0 == ts@[i as int].0@);
        assert(tv[i as int].1.title == ts@[i as int].1.title@);
        let g = group_lines_exec(cs, &ts[i].0, false, repo);
        let ghost l0 = vviews(lines@);
        if g.len() > 0 {
            lines.push(Vec::new());
            let mut h = lit("### ");
            extend_str(&mut h, ts[i].1.title.as_str());
            lines.push(h);
            lines.push(Vec::new());
            let mut k: usize = 0;
            let ghost l1 = vviews(lines@);
            assert(l1 =~= l0 + seq![Seq::<char>::empty(), "### "@ + tv[i as int].1.title, Seq::<char>::empty()]);
            while k < g.len()
                invariant
                    k <= g@.len(),
                    vviews(lines@) == l1 + vviews(g@).subrange(0, k as int),
                decreases g.len() - k,
            {
                let ghost before = vviews(lines@);
                lines.push(slice_chars(&g[k], 0, g[k].len()));
                assert(g@[k as int]@.subrange(0, g@[k as int]@.len() as int) =~= g@[k as int]@);
                assert(vviews(lines@) =~= before.push(vviews(g@)[k as int]));
                assert(vviews(g@).subrange(0, k + 1) =~= vviews(g@).subrange(0, k as int).push(vviews(g@)[k as int]));
                k = k + 1;
            }
            assert(vviews(g@).subrange(0, g@.len() as int) =~= vviews(g@));
            assert(vviews(lines@) =~= l0 + (seq![Seq::<char>::empty(), "### "@ + tv[i as int].1.title, Seq::<char>::empty()] + vviews(g@)));
        }
        let b = group_lines_exec(cs, &ts[i].0, true, repo);
        let ghost b0 = vviews(breaking@);
        let mut k: usize = 0;
        while k < b.len()
            invariant
                k <= b@.len(),
                vviews(breaking@) == b0 + vviews(b@).subrange(0, k as int),
            decreases b.len() - k,
        {
            let ghost before = vviews(breaking@);
            breaking.push(slice_chars(&b[k], 0, b[k].len()));
            assert(b@[k as int]@.subrange(0, b@[k as int]@.len() as int) =~= b@[k as int]@);
            assert(vviews(breaking@) =~= before.push(vviews(b@)[k as int]));
            assert(vviews(b@).subrange(0, k + 1) =~= vviews(b@).subrange(0, k as int).push(vviews(b@)[k as int]));
            k = k + 1;
        }
        assert(vviews(b@).subrange(0, b@.len() as int) =~= vviews(b@));
        i = i + 1;
    }
    assert(tv.subrange(0, ts@.len() as int) =~= tv);
}


/// A name with each space-separated part trimmed and upper-cased first.
pub open spec fn format_name(name: Seq<char>) -> Seq<char> {
    join_seq(split_on(name, ' ').map_values(|p: Seq<char>| upper_first(trim_spec(p))), " "@)
}

fn format_name_exec(name: &String) -> (r: Vec<char>)
    ensures
        r@ == format_name(name@),
{
    let parts = split_on_exec(&chars_of(name.as_str()), ' ');
    let ghost pv = vviews(parts@);
    let mut done: Vec<Vec<char>> = Vec::new();
    let mut i: usize = 0;
    while i < parts.len()
        invariant
            i <= parts@.len(),
            pv == vviews(parts@),
            vviews(done@) == pv.subrange(0, i as int).map_values(|p: Seq<char>| upper_first(trim_spec(p))),
        decreases parts.len() - i,
    {
        let x = upper_first_exec(&trim_chars(&parts[i]));
        let ghost before = vviews(done@);
        done.push(x);
        assert(vviews(done@) =~= before.push(x@));
        assert(pv.subrange(0, i + 1).map_values(|p: Seq<char>| upper_first(trim_spec(p))) =~= pv.subrange(
            0,
            i as int,
        ).map_values(|p: Seq<char>| upper_first(trim_spec(p))).push(upper_first(trim_spec(pv[i as int]))));
        i = i + 1;
    }
    assert(pv.subrange(0, pv.len() as int) =~= pv);
    join_vecs(&done, " ")
}

/// Some exclusion occurs in the name or in the e-mail address.
pub open spec fn author_excluded(name: Seq<char>, email: Seq<char>, ex: Seq<Seq<char>>) -> bool {
    exists|j: int| 0 <= j < ex.len() && (contains_seq(name, #[trigger] ex[j]) || contains_seq(email, ex[j]))
}

/// Index of the first author named `name`, or `-1`.
pub open spec fn author_index(a: Seq<(Seq<char>, Seq<Seq<char>>)>, name: Seq<char>) -> int
    decreases a.len(),
{
    if a.len() == 0 {
        -1
    } else if author_index(a.drop_last(), name) >= 0 {
        author_index(a.drop_last(), name)
    } else if a.last().0 == name {
        a.len() - 1
    } else {
        -1
    }
}

proof fn lemma_author_index(a: Seq<(Seq<char>, Seq<Seq<char>>)>, name: Seq<char>)
    ensures
        -1 <= author_index(a, name) < a.len(),
        author_index(a, name) >= 0 ==> a[author_index(a, name)].0 == name && forall|j: int|
            0 <= j < author_index(a, name) ==> #[trigger] a[j].0 != name,
        author_index(a, name) == -1 ==> forall|j: int| 0 <= j < a.len() ==> #[trigger] a[j].0 != name,
    decreases a.len(),
{
    if a.len() > 0 {
        lemma_author_index(a.drop_last(), name);
        let p = a.drop_last();
        assert forall|j: int| 0 <= j < p.len() implies a[j] == p[j] by {}
    }
}

fn find_author(a: &Vec<(Vec<char>, Vec<Vec<char>>)>, name: &Vec<char>) -> (r: Option<usize>)
    ensures
        match r {
            Some(k) => k as int == author_index(authors_view(a@), name@) && k < a@.len(),
            None => author_index(authors_view(a@), name@) == -1,
        },
{
    let ghost av = authors_view(a@);
    proof {
        lemma_author_index(av, name@);
    }
    let mut k: usize = 0;
    while k < a.len()
        invariant
            k <= a@.len(),
            av == authors_view(a@),
            -1 <= author_index(av, name@) < av.len(),
            author_index(av, name@) >= 0 ==> av[author_index(av, name@)].0 == name@ && forall|j: int|
                0 <= j < author_index(av, name@) ==> #[trigger] av[j].0 != name@,
            author_index(av, name@) == -1 ==> forall|j: int| 0 <= j < av.len() ==> #[trigger] av[j].0 != name@,
            forall|j: int| 0 <= j < k ==> #[trigger] av[j].0 != name@,
        decreases a.len() - k,
    {
        assert(av[k as int].0 == a@[k as int].0@);
        if crate::text::chars_eq(&a[k].0, name) {
            return Some(k);
        }
        k = k + 1;
    }
    None
}

/// The contributors, in order of first appearance: the formatted name, and
/// each distinct e-mail address in order. Empty names, names with `[bot]`
/// and excluded authors are left out.
pub open spec fn collect_authors_spec(cs: Seq<DisplayCommit>, ex: Seq<Seq<char>>) -> Seq<(Seq<char>, Seq<Seq<char>>)>
    decreases cs.len(),
{
    if cs.len() == 0 {
        Seq::empty()
    } else {
        let a = collect_authors_spec(cs.drop_last(), ex);
        let name = format_name(cs.last().author.name@);
        let email = cs.last().author.email@;
        if name.len() == 0 || contains_seq(name, "[bot]"@) || author_excluded(name, email, ex) {
            a
        } else {
            let k = author_index(a, name);
            if k < 0 {
                a.push((name, seq![email]))
            } else if a[k].1.contains(email) {
                a
            } else {
                a.update(k, (name, a[k].1.push(email)))
            }
        }
    }
}

pub open spec fn authors_view(a: Seq<(Vec<char>, Vec<Vec<char>>)>) -> Seq<(Seq<char>, Seq<Seq<char>>)> {
    a.map_values(|p: (Vec<char>, Vec<Vec<char>>)| (p.0@, vviews(p.1@)))
}

fn excluded_exec(name: &Vec<char>, email: &Vec<char>, ex: &Vec<String>) -> (r: bool)
    ensures
        r == author_excluded(name@, email@, texts(ex@)),
{
    let ghost xv = texts(ex@);
    let mut j: usize = 0;
    while j < ex.len()
        invariant
            j <= ex@.len(),
            xv == texts(ex@),
            forall|k: int| 0 <= k < j ==> !(contains_seq(name@, #[trigger] xv[k]) || contains_seq(email@, xv[k])),
        decreases ex.len() - j,
    {
        let e = chars_of(ex[j].as_str());
        assert(xv[j as int] == ex@[j as int]@);
        if contains_chars(name, &e) || contains_chars(email, &e) {
            return true;
        }
        j = j + 1;
    }
    false
}

fn email_listed(emails: &Vec<Vec<char>>, e: &Vec<char>) -> (r: bool)
    ensures
        r == vviews(emails@).contains(e@),
{
    let mut i: usize = 0;
    while i < emails.len()
        invariant
            i <= emails@.len(),
            forall|k: int| 0 <= k < i ==> vviews(emails@)[k] != e@,
        decreases emails.len() - i,
    {
        if crate::text::chars_eq(&emails[i], e) {
            assert(vviews(emails@)[i as int] == e@);
            return true;
        }
        i = i + 1;
    }
    false
}

fn collect_authors(cs: &Vec<DisplayCommit>, ex: &Vec<String>) -> (r: Vec<(Vec<char>, Vec<Vec<char>>)>)
    ensures
        authors_view(r@) == collect_authors_spec(cs@, texts(ex@)),
{
    let mut a: Vec<(Vec<char>, Vec<Vec<char>>)> = Vec::new();
    let mut i: usize = 0;
    assert(cs@.subrange(0, 0).len() == 0);
    while i < cs.len()
        invariant
            i <= cs@.len(),
            authors_view(a@) == collect_authors_spec(cs@.subrange(0, i as int), texts(ex@)),
        decreases cs.len() - i,
    {
        let ghost pre = cs@.subrange(0, i + 1);
        assert(pre.drop_last() =~= cs@.subrange(0, i as int));
        assert(pre.last() == cs@[i as int]);
        let ghost av = authors_view(a@);
        let name = format_name_exec(&cs[i].author.name);
        let email = chars_of(cs[i].author.email.as_str());
        let bot = lit("[bot]");
        if name.len() == 0 || contains_chars(&name, &bot) || excluded_exec(&name, &email, ex) {
        } else {
            let found = find_author(&a, &name);
            if let Some(k) = found {
                if !email_listed(&a[k].1, &email) {
                    proof {
                        lemma_author_index(av, name@);
                    }
                    assert(av[k as int].0 == a@[k as int].0@);
                    let mut entry = a.remove(k);
                    let ghost e0 = vviews(entry.1@);
                    assert(entry.0@ == name@);
                    entry.1.push(email);
                    assert(vviews(entry.1@) =~= e0.push(email@));
                    a.insert(k, entry);
                    assert(authors_view(a@) =~= av.update(k as int, (name@, av[k as int].1.push(email@))));
                }
            } else {
                let mut list: Vec<Vec<char>> = Vec::new();
                list.push(email);
                assert(vviews(list@) =~= seq![email@]);
                a.push((name, list));
                assert(authors_view(a@) =~= av.push((name@, seq![email@])));
            }
        }
        i = i + 1;
    }
    assert(cs@.subrange(0, cs@.len() as int) =~= cs@);
    a
}


/// The first address that is not a `noreply.github.com` one.
pub open spec fn first_public(emails: Seq<Seq<char>>) -> Option<Seq<char>>
    decreases emails.len(),
{
    if emails.len() == 0 {
        None
    } else if !contains_seq(emails[0], "noreply.github.com"@) {
        Some(emails[0])
    } else {
        first_public(emails.drop_first())
    }
}

/// The e-mail part of a contributor line: ` <address>`, or nothing when
/// addresses are hidden or none is public.
pub open spec fn email_part(emails: Seq<Seq<char>>, hide: bool) -> Seq<char> {
    if hide {
        Seq::empty()
    } else {
        match first_public(emails) {
            Some(e) => " <"@ + e + ">"@,
            None => Seq::empty(),
        }
    }
}

fn email_part_exec(emails: &Vec<Vec<char>>, hide: bool) -> (r: Vec<char>)
    ensures
        r@ == email_part(vviews(emails@), hide),
{
    if hide {
        return Vec::new();
    }
    let ghost ev = vviews(emails@);
    let noreply = lit("noreply.github.com");
    let mut i: usize = 0;
    assert(ev.subrange(0, ev.len() as int) =~= ev);
    while i < emails.len()
        invariant
            i <= emails@.len(),
            ev == vviews(emails@),
            noreply@ == "noreply.github.com"@,
            !hide,
            first_public(ev) == first_public(ev.subrange(i as int, ev.len() as int)),
        decreases emails.len() - i,
    {
        let ghost rest = ev.subrange(i as int, ev.len() as int);
        assert(rest.drop_first() =~= ev.subrange(i + 1, ev.len() as int));
        assert(rest[0] == emails@[i as int]@);
        if !contains_chars(&emails[i], &noreply) {
            assert(rest.len() > 0 && !contains_seq(rest[0], "noreply.github.com"@));
            assert(first_public(rest) == Some(rest[0]));
            let mut r = lit(" <");
            extend_chars(&mut r, &emails[i]);
            extend_str(&mut r, ">");
            assert(r@ =~= " <"@ + rest[0] + ">"@);
            return r;
        }
        i = i + 1;
    }
    Vec::new()
}

/// The contributor lines: `- Name <address>`.
pub open spec fn author_lines(a: Seq<(Seq<char>, Seq<Seq<char>>)>, hide: bool) -> Seq<Seq<char>> {
    a.map_values(|p: (Seq<char>, Seq<Seq<char>>)| "- "@ + p.0 + email_part(p.1, hide))
}

/// The release title: the tag body with the new version put in, when a
/// non-empty new version is given.
pub open spec fn version_title(tag_body: Seq<char>, nv: Option<Seq<char>>) -> Option<Seq<char>> {
    match nv {
        Some(x) => if x.len() > 0 {
            Some(replace_all(tag_body, "{{newVersion}}"@, x))
        } else {
            None
        },
        None => None,
    }
}

/// The heading lines and, when a repository is known and `from` is not
/// empty, the compare link.
pub open spec fn head_part(c: ConfigV, from: Seq<char>, to: Seq<char>, v: Option<Seq<char>>) -> Seq<Seq<char>> {
    seq![Seq::<char>::empty(), "## "@ + match v {
        Some(x) => x,
        None => from + "..."@ + to,
    }, Seq::<char>::empty()] + match c.repo {
        Some(r) => if from.len() > 0 {
            seq![compare_spec(v, r, from, to)]
        } else {
            Seq::empty()
        },
        None => Seq::empty(),
    }
}

/// The title of the breaking-changes section: that of the `BreakingChange`
/// group, else the built-in one.
pub open spec fn breaking_title(c: ConfigV) -> Seq<char> {
    let k = crate::changelog_config::type_index(c.types, "BreakingChange"@);
    if k >= 0 {
        c.types[k].1.title
    } else {
        "⚠️ Breaking Changes"@
    }
}

/// The breaking-changes section, when some commit is breaking.
pub open spec fn breaking_part(c: ConfigV, cs: Seq<DisplayCommit>) -> Seq<Seq<char>> {
    let br = breaking_lines(c.types, cs, c.repo);
    if br.len() > 0 {
        seq![Seq::<char>::empty(), "#### "@ + breaking_title(c), Seq::<char>::empty()] + br
    } else {
        Seq::empty()
    }
}

/// The contributors section, when there are contributors and authors are
/// not turned off.
pub open spec fn contributors_part(c: ConfigV, cs: Seq<DisplayCommit>) -> Seq<Seq<char>> {
    let authors = collect_authors_spec(cs, c.exclude_authors);
    if authors.len() > 0 && !c.no_authors {
        seq![Seq::<char>::empty(), "### ❤️ Contributors"@, Seq::<char>::empty()] + author_lines(authors, c.hide_author_email)
    } else {
        Seq::empty()
    }
}

/// Every line of the release notes, before joining.
pub open spec fn markdown_lines(cs: Seq<DisplayCommit>, c: ConfigV, from: Seq<char>, to: Seq<char>, nv: Option<Seq<char>>) -> Seq<Seq<char>> {
    head_part(c, from, to, version_title(c.tag_body, nv)) + type_sections(c.types, cs, c.repo) + breaking_part(c, cs)
        + contributors_part(c, cs)
}

/// The release notes: the lines joined by newlines, trimmed, gitmoji
/// codes turned into emoji.
pub open spec fn markdown_spec(cs: Seq<DisplayCommit>, c: ConfigV, from: Seq<char>, to: Seq<char>, nv: Option<Seq<char>>) -> Seq<char> {
    crate::gitmoji::convert_gitmoji_spec(trim_spec(join_seq(markdown_lines(cs, c, from, to, nv), "\n"@)))
}

fn push_all(lines: &mut Vec<Vec<char>>, more: Vec<Vec<char>>)
    ensures
        vviews(final(lines)@) == vviews(old(lines)@) + vviews(more@),
{
    let ghost l0 = vviews(lines@);
    let mut more = more;
    let ghost m = vviews(more@);
    let mut k: usize = 0;
    let n = more.len();
    let mut rest: Vec<Vec<char>> = Vec::new();
    while more.len() > 0
        invariant
            vviews(more@) + vviews(rest@) == m,
        decreases more.len(),
    {
        let x = more.pop().unwrap();
        let ghost before = vviews(rest@);
        rest.insert(0, x);
        assert(vviews(rest@) =~= seq![x@] + before);
        assert(vviews(more@) + vviews(rest@) =~= m);
    }
    assert(vviews(rest@) =~= m);
    while k < n
        invariant
            k <= n,
            n == rest@.len(),
            vviews(rest@) == m,
            vviews(lines@) == l0 + m.subrange(0, k as int),
        decreases n - k,
    {
        let ghost before = vviews(lines@);
        lines.push(slice_chars(&rest[k], 0, rest[k].len()));
        assert(rest@[k as int]@.subrange(0, rest@[k as int]@.len() as int) =~= rest@[k as int]@);
        assert(vviews(lines@) =~= before.push(m[k as int]));
        assert(m.subrange(0, k + 1) =~= m.subrange(0, k as int).push(m[k as int]));
        k = k + 1;
    }
    assert(m.subrange(0, n as int) =~= m);
}


impl<'a> ReleaseRange<'a> {
    pub open spec fn new_version_view(&self) -> Option<Seq<char>> {
        match self.new_version {
            Some(x) => Some(x@),
            None => None,
        }
    }
}

fn version_title_exec(config: &ChangelogConfig, range: &ReleaseRange) -> (v: Option<Vec<char>>)
    ensures
        match v {
            Some(x) => version_title(config.tag_body@, range.new_version_view()) == Some(x@),
            None => version_title(config.tag_body@, range.new_version_view()) is None,
        },
{
    match range.new_version {
        Some(nv) => {
            if nv.unicode_len() > 0 {
                proof {
                    reveal_strlit("{{newVersion}}");
                }
                Some(chars_of(crate::text::str_replace(config.tag_body.as_str(), "{{newVersion}}", nv).as_str()))
            } else {
                None
            }
        },
        None => None,
    }
}

pub open spec fn opt_chars(v: Option<Vec<char>>) -> Option<Seq<char>> {
    match v {
        Some(x) => Some(x@),
        None => None,
    }
}

fn head_exec(config: &ChangelogConfig, range: &ReleaseRange, v: &Option<Vec<char>>) -> (lines: Vec<Vec<char>>)
    ensures
        vviews(lines@) == head_part(config.view(), range.from@, range.to@, opt_chars(*v)),
{
    let mut lines: Vec<Vec<char>> = Vec::new();
    lines.push(Vec::new());
    let mut head = lit("## ");
    match v {
        Some(x) => extend_chars(&mut head, x),
        None => {
            extend_str(&mut head, range.from);
            extend_str(&mut head, "...");
            extend_str(&mut head, range.to);
        },
    }
    assert(head@ =~= "## "@ + match opt_chars(*v) {
        Some(x) => x,
        None => range.from@ + "..."@ + range.to@,
    });
    lines.push(head);
    lines.push(Vec::new());
    match &config.repo {
        Some(repo) => {
            if range.from.unicode_len() > 0 {
                let c = compare_exec(v, repo, range.from, range.to);
                assert(c@ == compare_spec(opt_chars(*v), repo.view(), range.from@, range.to@));
                lines.push(c);
            }
        },
        None => {},
    }
    assert(vviews(lines@) =~= head_part(config.view(), range.from@, range.to@, opt_chars(*v)));
    lines
}

fn breaking_exec(config: &ChangelogConfig, breaking: Vec<Vec<char>>) -> (lines: Vec<Vec<char>>)
    ensures
        vviews(lines@) == (if breaking@.len() > 0 {
            seq![Seq::<char>::empty(), "#### "@ + breaking_title(config.view()), Seq::<char>::empty()] + vviews(breaking@)
        } else {
            Seq::<Seq<char>>::empty()
        }),
{
    let mut lines: Vec<Vec<char>> = Vec::new();
    if breaking.len() > 0 {
        lines.push(Vec::new());
        let mut h = lit("#### ");
        let name = crate::text::owned("BreakingChange");
        match crate::changelog_config::find_type(&config.types, &name) {
            Some(k) => {
                assert(entries_view(config.types@)[k as int].1.title == config.types@[k as int].1.title@);
                extend_str(&mut h, config.types[k].1.title.as_str());
            },
            None => extend_str(&mut h, "⚠️ Breaking Changes"),
        }
        lines.push(h);
        lines.push(Vec::new());
        let ghost l0 = vviews(lines@);
        assert(l0 =~= seq![Seq::<char>::empty(), "#### "@ + breaking_title(config.view()), Seq::<char>::empty()]);
        push_all(&mut lines, breaking);
    }
    lines
}

fn contributors_exec(config: &ChangelogConfig, commits: &Vec<DisplayCommit>) -> (lines: Vec<Vec<char>>)
    ensures
        vviews(lines@) == contributors_part(config.view(), commits@),
{
    let mut lines: Vec<Vec<char>> = Vec::new();
    let authors = collect_authors(commits, &config.exclude_authors);
    if authors.len() > 0 && !config.no_authors {
        lines.push(Vec::new());
        lines.push(lit("### ❤️ Contributors"));
        lines.push(Vec::new());
        let ghost av = authors_view(authors@);
        let ghost l0 = vviews(lines@);
        let mut i: usize = 0;
        while i < authors.len()
            invariant
                i <= authors@.len(),
                av == authors_view(authors@),
                vviews(lines@) == l0 + author_lines(av.subrange(0, i as int), config.hide_author_email),
            decreases authors.len() - i,
        {
            let mut line = lit("- ");
            extend_chars(&mut line, &authors[i].0);
            extend_chars(&mut line, &email_part_exec(&authors[i].1, config.hide_author_email));
            let ghost before = vviews(lines@);
            lines.push(line);
            assert(av[i as int] == (authors@[i as int].0@, vviews(authors@[i as int].1@)));
            assert(vviews(lines@) =~= before.push(line@));
            assert(author_lines(av.subrange(0, i + 1), config.hide_author_email) =~= author_lines(
                av.subrange(0, i as int),
                config.hide_author_email,
            ).push(line@));
            i = i + 1;
        }
        assert(av.subrange(0, av.len() as int) =~= av);
        assert(vviews(lines@) =~= contributors_part(config.view(), commits@));
    }
    lines
}

/// The release notes of `commits` (newest first, as `git log` lists them):
/// the version heading, the compare link (when a repository is known and
/// `from` is not empty), one section per group, the breaking changes, the
/// contributors; joined by newlines, trimmed, gitmoji codes turned into emoji.
pub fn generate_markdown(commits: &Vec<DisplayCommit>, config: &ChangelogConfig, range: &ReleaseRange) -> (r: String)
    ensures
        r@ == markdown_spec(commits@, config.view(), range.from@, range.to@, range.new_version_view()),
{
    let ghost cv = config.view();
    let v = version_title_exec(config, range);
    let mut lines = head_exec(config, range, &v);
    let repo_ref = config.repo.as_ref();
    assert(opt_repo(repo_ref) == cv.repo);
    let mut breaking: Vec<Vec<char>> = Vec::new();
    sections_exec(&config.types, commits, repo_ref, &mut lines, &mut breaking);
    assert(vviews(breaking@) =~= breaking_lines(cv.types, commits@, cv.repo));
    push_all(&mut lines, breaking_exec(config, breaking));
    push_all(&mut lines, contributors_exec(config, commits));
    assert(vviews(lines@) =~= markdown_lines(commits@, cv, range.from@, range.to@, range.new_version_view()));
    let joined = join_vecs(&lines, "\n");
    let text = string_of(&trim_chars(&joined));
    crate::gitmoji::convert_gitmoji(text.as_str())
}


/// A commit is shown when its type has a group and it is breaking or its
/// scope (as written) is not one of the group's excluded scopes.
pub open spec fn shown(c: DisplayCommit, ts: Seq<(Seq<char>, EntryV)>) -> bool {
    let k = crate::changelog_config::type_index(ts, c.commit_type@);
    k >= 0 && (c.is_breaking || !ts[k].1.exclude_scopes.contains(c.written_scope@))
}

/// The commits that are shown, in order.
pub open spec fn shown_commits(cs: Seq<DisplayCommit>, ts: Seq<(Seq<char>, EntryV)>) -> Seq<DisplayCommit>
    decreases cs.len(),
{
    if cs.len() == 0 {
        cs
    } else if shown(cs.last(), ts) {
        shown_commits(cs.drop_last(), ts).push(cs.last())
    } else {
        shown_commits(cs.drop_last(), ts)
    }
}

proof fn lemma_shown_is_filter(cs: Seq<DisplayCommit>, ts: Seq<(Seq<char>, EntryV)>)
    ensures
        shown_commits(cs, ts) == cs.filter(|x: DisplayCommit| shown(x, ts)),
    decreases cs.len(),
{
    reveal(Seq::filter);
    if cs.len() > 0 {
        lemma_shown_is_filter(cs.drop_last(), ts);
    }
}

/// Rendering is generating over the shown commits: what `render_changelog`
/// gives for `cs` is what `generate_markdown` gives for the commits of `cs`
/// whose type has a group and that are breaking or outside the group's
/// excluded scopes, in their order; each commit it lists is such a commit.
pub proof fn law_render_is_generate_over_shown(
    cs: Seq<DisplayCommit>,
    c: ConfigV,
    from: Seq<char>,
    to: Seq<char>,
    nv: Option<Seq<char>>,
)
    ensures
        markdown_spec(shown_commits(cs, c.types), c, from, to, nv) == markdown_spec(
            cs.filter(|x: DisplayCommit| shown(x, c.types)),
            c,
            from,
            to,
            nv,
        ),
        forall|k: int|
            0 <= k < shown_commits(cs, c.types).len() ==> shown(#[trigger] shown_commits(cs, c.types)[k], c.types)
                && cs.contains(shown_commits(cs, c.types)[k]),
{
    lemma_shown_is_filter(cs, c.types);
    let pred = |x: DisplayCommit| shown(x, c.types);
    assert forall|k: int| 0 <= k < shown_commits(cs, c.types).len() implies shown(
        #[trigger] shown_commits(cs, c.types)[k],
        c.types,
    ) && cs.contains(shown_commits(cs, c.types)[k]) by {
        let f = cs.filter(pred);
        assert(shown_commits(cs, c.types) == f);
        cs.lemma_filter_pred(pred, k);
        assert(f.contains(f[k]));
        cs.lemma_filter_contains_rev(pred, f[k]);
    }
}

fn scope_listed(scopes: &Vec<String>, s: &String) -> (r: bool)
    ensures
        r == texts(scopes@).contains(s@),
{
    let mut i: usize = 0;
    while i < scopes.len()
        invariant
            i <= scopes@.len(),
            forall|k: int| 0 <= k < i ==> texts(scopes@)[k] != s@,
        decreases scopes.len() - i,
    {
        if str_eq(scopes[i].as_str(), s.as_str()) {
            assert(texts(scopes@)[i as int] == s@);
            return true;
        }
        i = i + 1;
    }
    false
}

/// The release notes of the commits that are shown: those whose type has a
/// group, and that are breaking or whose scope (as written, before the scope
/// map) is not excluded by their group.
pub fn render_changelog(commits: Vec<DisplayCommit>, config: &ChangelogConfig, range: &ReleaseRange) -> (r: String)
    ensures
        r@ == markdown_spec(
            shown_commits(commits@, config.view().types),
            config.view(),
            range.from@,
            range.to@,
            range.new_version_view(),
        ),
{
    let ghost all = commits@;
    let ghost tv = entries_view(config.types@);
    let mut rest = commits;
    let mut kept: Vec<DisplayCommit> = Vec::new();
    let ghost mut i: int = 0;
    assert(all.subrange(0, 0).len() == 0);
    assert(rest@ =~= all.subrange(0, all.len() as int));
    while rest.len() > 0
        invariant
            0 <= i <= all.len(),
            tv == entries_view(config.types@),
            rest@ == all.subrange(i, all.len() as int),
            kept@ == shown_commits(all.subrange(0, i), tv),
        decreases rest.len(),
    {
        let c = rest.remove(0);
        assert(c == all[i]);
        assert(all.subrange(0, i + 1).drop_last() =~= all.subrange(0, i));
        assert(all.subrange(0, i + 1).last() == c);
        let keep = match crate::changelog_config::find_type(&config.types, &c.commit_type) {
            Some(k) => {
                assert(tv[k as int].1.exclude_scopes == texts(config.types@[k as int].1.exclude_scopes@));
                c.is_breaking || !scope_listed(&config.types[k].1.exclude_scopes, &c.written_scope)
            },
            None => false,
        };
        if keep {
            kept.push(c);
        }
        proof {
            i = i + 1;
        }
        assert(rest@ =~= all.subrange(i, all.len() as int));
    }
    assert(all.subrange(0, all.len() as int) =~= all);
    generate_markdown(&kept, config, range)
}


/// What `generate_changelog` hands back.
#[derive(Debug)]
pub struct GenerateChangelogOutcome {
    /// The release notes of this release.
    pub markdown: String,
    /// The whole changelog file after the notes were put in.
    pub changelog_md: String,
    /// The changelog file, as configured.
    pub output: String,
}

/// What can go wrong generating the changelog.
#[derive(Debug)]
pub enum ChangelogError {
    Config { message: String },
    Schema { message: String },
    Git { message: String },
    Io { message: String },
}

impl ChangelogError {
    pub open spec fn message_view(&self) -> Seq<char> {
        match self {
            ChangelogError::Config { message } => message@,
            ChangelogError::Schema { message } => message@,
            ChangelogError::Git { message } => message@,
            ChangelogError::Io { message } => message@,
        }
    }

    /// The user-facing text of the error.
    pub fn message(&self) -> (r: &String)
        ensures
            r@ == self.message_view(),
    {
        match self {
            ChangelogError::Config { message } => message,
            ChangelogError::Schema { message } => message,
            ChangelogError::Git { message } => message,
            ChangelogError::Io { message } => message,
        }
    }
}

/// Where the first release entry starts: a line that begins `## ` or `### `.
pub open spec fn entry_pattern() -> Seq<char> {
    "(?m)^###?\\s+.*$"@
}

/// The changelog text with the notes put in: before the first entry, else at
/// the end; a missing file starts as `# Changelog` and a blank line.
pub open spec fn upsert_spec(existing: Option<Seq<char>>, md: Seq<char>) -> Seq<char> {
    let base = match existing {
        Some(x) => x,
        None => "# Changelog\n\n"@,
    };
    let appended = base + "\n"@ + md + "\n\n"@;
    match (regex_split_of(entry_pattern(), base), regex_matches_of(entry_pattern(), base)) {
        (Some(g), Some(h)) => if h.len() > 0 && g.len() > 0 {
            g[0] + md + "\n\n"@ + weave(g.update(0, Seq::empty()), h)
        } else {
            appended
        },
        _ => appended,
    }
}

/// The changelog text with the release notes `markdown` put in front of the
/// first entry (`## ` or `### ` heading), or appended when there is none;
/// `existing` is `None` when the file does not exist yet.
pub fn upsert_changelog_text(existing: Option<String>, markdown: &str) -> (r: String)
    ensures
        r@ == upsert_spec(
            match existing {
                Some(x) => Some(x@),
                None => None,
            },
            markdown@,
        ),
{
    let base = match existing {
        Some(x) => x,
        None => crate::text::owned("# Changelog\n\n"),
    };
    let g = regex_split("(?m)^###?\\s+.*$", base.as_str());
    let h = regex_matches("(?m)^###?\\s+.*$", base.as_str());
    let mut out: Vec<char> = Vec::new();
    match (g, h) {
        (Some(g), Some(h)) => {
            if h.len() > 0 && g.len() > 0 {
                let mut gv: Vec<Vec<char>> = Vec::new();
                gv.push(Vec::new());
                let mut i: usize = 1;
                let ghost gt = texts(g@);
                while i < g.len()
                    invariant
                        1 <= i <= g@.len(),
                        gt == texts(g@),
                        vviews(gv@) == gt.update(0, Seq::<char>::empty()).subrange(0, i as int),
                    decreases g.len() - i,
                {
                    let ghost before = vviews(gv@);
                    gv.push(chars_of(g[i].as_str()));
                    assert(vviews(gv@) =~= before.push(gt[i as int]));
                    assert(gt.update(0, Seq::<char>::empty()).subrange(0, i + 1) =~= gt.update(0, Seq::<char>::empty()).subrange(0, i as int).push(gt[i as int]));
                    i = i + 1;
                }
                assert(gt.update(0, Seq::<char>::empty()).subrange(0, g@.len() as int) =~= gt.update(0, Seq::<char>::empty()));
                let mut hv: Vec<Vec<char>> = Vec::new();
                let mut j: usize = 0;
                let ghost ht = texts(h@);
                while j < h.len()
                    invariant
                        j <= h@.len(),
                        ht == texts(h@),
                        vviews(hv@) == ht.subrange(0, j as int),
                    decreases h.len() - j,
                {
                    let ghost before = vviews(hv@);
                    hv.push(chars_of(h[j].as_str()));
                    assert(vviews(hv@) =~= before.push(ht[j as int]));
                    assert(ht.subrange(0, j + 1) =~= ht.subrange(0, j as int).push(ht[j as int]));
                    j = j + 1;
                }
                assert(ht.subrange(0, h@.len() as int) =~= ht);
                extend_str(&mut out, g[0].as_str());
                extend_str(&mut out, markdown);
                extend_str(&mut out, "\n\n");
                extend_chars(&mut out, &weave_exec(&gv, &hv));
                return string_of(&out);
            }
        },
        _ => {},
    }
    extend_str(&mut out, base.as_str());
    extend_str(&mut out, "\n");
    extend_str(&mut out, markdown);
    extend_str(&mut out, "\n\n");
    string_of(&out)
}

/// Whether the changelog is committed: the merged `commit` setting, where
/// `false` and the empty string turn it off and a missing one means on.
pub open spec fn commit_enabled_spec(merged: Seq<(String, Json)>) -> bool {
    match obj_get(merged, "commit"@) {
        None => true,
        Some(Json::Bool(b)) => b,
        Some(Json::Str(s)) => s@.len() > 0,
        Some(_) => true,
    }
}

/// The git arguments that commit the changelog: `add <output>`, then
/// `commit -m <message>` with `{{output}}` in the message replaced; none when
/// committing is off.
pub open spec fn commit_steps_spec(c: ConfigV, merged: Seq<(String, Json)>) -> Seq<Seq<Seq<char>>> {
    if commit_enabled_spec(merged) {
        seq![
            seq!["add"@, c.output],
            seq!["commit"@, "-m"@, replace_all(c.commit_message, "{{output}}"@, c.output)],
        ]
    } else {
        Seq::empty()
    }
}

pub open spec fn arg_lists(v: Seq<Vec<String>>) -> Seq<Seq<Seq<char>>> {
    v.map_values(|a: Vec<String>| texts(a@))
}

/// The `git` invocations that commit the changelog, by the merged settings.
pub fn changelog_commit_steps(config: &ChangelogConfig, merged: &JsonObject) -> (r: Vec<Vec<String>>)
    ensures
        arg_lists(r@) == commit_steps_spec(config.view(), merged@),
{
    let enabled = match get_member(merged, "commit") {
        None => true,
        Some(Json::Bool(b)) => *b,
        Some(Json::Str(s)) => s.as_str().unicode_len() > 0,
        Some(_) => true,
    };
    proof {
        reveal_strlit("commit");
    }
    let mut r: Vec<Vec<String>> = Vec::new();
    if enabled {
        proof {
            reveal_strlit("{{output}}");
        }
        let message = crate::text::str_replace(config.commit_message.as_str(), "{{output}}", config.output.as_str());
        let mut add: Vec<String> = Vec::new();
        add.push(crate::text::owned("add"));
        add.push(crate::text::owned(config.output.as_str()));
        let mut commit: Vec<String> = Vec::new();
        commit.push(crate::text::owned("commit"));
        commit.push(crate::text::owned("-m"));
        commit.push(message);
        assert(texts(add@) =~= seq!["add"@, config.output@]);
        assert(texts(commit@) =~= seq!["commit"@, "-m"@, replace_all(config.commit_message@, "{{output}}"@, config.output@)]);
        r.push(add);
        r.push(commit);
    }
    assert(arg_lists(r@) =~= commit_steps_spec(config.view(), merged@));
    r
}

/// A breaking commit whose type has a group is always shown, whatever its
/// scope.
pub proof fn law_breaking_commits_shown(c: DisplayCommit, ts: Seq<(Seq<char>, EntryV)>)
    requires
        c.is_breaking,
        crate::changelog_config::type_index(ts, c.commit_type@) >= 0,
    ensures
        shown(c, ts),
{
}

/// A commit that is not breaking is hidden when its scope, as written in the
/// commit, is one its group excludes.
pub proof fn law_excluded_scope_hidden(c: DisplayCommit, ts: Seq<(Seq<char>, EntryV)>)
    requires
        !c.is_breaking,
        crate::changelog_config::type_index(ts, c.commit_type@) >= 0,
        ts[crate::changelog_config::type_index(ts, c.commit_type@)].1.exclude_scopes.contains(c.written_scope@),
    ensures
        !shown(c, ts),
{
}


/// The link of a reference goes to the provider's own page for its kind:
/// on GitHub `pull`, `issues`, `commit`; on GitLab `merge_requests`,
/// `issues`, `commit`; on Bitbucket `pull-requests`, `issues`, `commit`;
/// the link text is the reference and the last path segment is the
/// reference without its leading `#`s. On any other provider, or with no
/// provider, the reference stays plain text.
pub proof fn law_reference_links_by_provider(
    t: ReferenceType,
    value: Seq<char>,
    provider: Seq<char>,
    domain: Seq<char>,
    repo: Seq<char>,
)
    ensures
        ({
            let r = RepoV { provider: Some(provider), domain: Some(domain), repo: Some(repo) };
            let base = "https://"@ + domain + "/"@ + repo + "/"@;
            let tail = "/"@ + strip_leading(value, '#') + ")"@;
            let link = |seg: Seq<char>| "["@ + value + "]("@ + base + seg + tail;
            &&& provider == "gitlab"@ ==> format_reference_spec(t, value, Some(r)) == link(
                match t {
                    ReferenceType::PullRequest => "merge_requests"@,
                    ReferenceType::Issue => "issues"@,
                    ReferenceType::Hash => "commit"@,
                },
            )
            &&& provider == "github"@ ==> format_reference_spec(t, value, Some(r)) == link(
                match t {
                    ReferenceType::PullRequest => "pull"@,
                    ReferenceType::Issue => "issues"@,
                    ReferenceType::Hash => "commit"@,
                },
            )
            &&& provider == "bitbucket"@ ==> format_reference_spec(t, value, Some(r)) == link(
                match t {
                    ReferenceType::PullRequest => "pull-requests"@,
                    ReferenceType::Issue => "issues"@,
                    ReferenceType::Hash => "commit"@,
                },
            )
            &&& (provider != "gitlab"@ && provider != "github"@ && provider != "bitbucket"@)
                ==> format_reference_spec(t, value, Some(r)) == value
            &&& format_reference_spec(t, value, Some(RepoV { provider: None, domain: Some(domain), repo: Some(repo) }))
                == value
        }),
{
    reveal_strlit("gitlab");
    reveal_strlit("github");
    reveal_strlit("bitbucket");
    assert("gitlab"@ != "github"@) by {
        assert("gitlab"@[3] != "github"@[3]);
    }
    assert("gitlab"@ != "bitbucket"@ && "github"@ != "bitbucket"@) by {
        assert("gitlab"@.len() != "bitbucket"@.len());
        assert("github"@.len() != "bitbucket"@.len());
    }
    let r = RepoV { provider: Some(provider), domain: Some(domain), repo: Some(repo) };
    let base = "https://"@ + domain + "/"@ + repo + "/"@;
    let tail = "/"@ + strip_leading(value, '#') + ")"@;
    match ref_path(provider, t) {
        Some(path) => {
            assert("["@ + value + "]("@ + repo_base(r) + "/"@ + path + "/"@ + strip_leading(value, '#') + ")"@
                =~= "["@ + value + "]("@ + base + path + tail);
        },
        None => {},
    }
}

} // verus!
