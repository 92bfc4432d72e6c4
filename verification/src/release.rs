//! Platform releases (GitHub, GitLab, Gitee, GitCode): provider names, the
//! token resolution chain, the requests each platform is sent, the reading
//! of a reply and the dry-run plan. Sending is done at the edge.

use vstd::prelude::*;
use vstd::string::*;
use vstd::utf8::encode_utf8;
use crate::text::{
    chars_of, extend_chars, extend_str, first_eq_index, index_of_char, lit, replace_all,
    replace_chars, slice_chars, str_eq, string_of, trim_chars, trim_spec, find_chars, find_from,
    contains_seq, lemma_find_from, lemma_replace_leaves_none, overlaps,
};
use crate::token::{host_scoped_key, host_scoped_key_spec};
use crate::token_store::StrMap;
use crate::token_blob::decimal;

verus! {

/// The four hosting platforms.
#[derive(Debug, Clone, Copy, PartialEq, Eq, Structural)]
pub enum Provider {
    Github,
    Gitlab,
    Gitee,
    Gitcode,
}

pub open spec fn provider_name(p: Provider) -> Seq<char> {
    match p {
        Provider::Github => "github"@,
        Provider::Gitlab => "gitlab"@,
        Provider::Gitee => "gitee"@,
        Provider::Gitcode => "gitcode"@,
    }
}

pub open spec fn provider_display(p: Provider) -> Seq<char> {
    match p {
        Provider::Github => "Github"@,
        Provider::Gitlab => "Gitlab"@,
        Provider::Gitee => "Gitee"@,
        Provider::Gitcode => "GitCode"@,
    }
}

/// The environment variables each platform reads its token from, in order.
pub open spec fn provider_env_vars(p: Provider) -> Seq<Seq<char>> {
    match p {
        Provider::Github => seq!["GH_TOKEN"@, "GITHUB_TOKEN"@],
        Provider::Gitlab => seq!["GITLAB_TOKEN"@],
        Provider::Gitee => seq!["GITEE_TOKEN"@],
        Provider::Gitcode => seq!["GITCODE_TOKEN"@],
    }
}

impl Provider {
    /// The provider a name stands for (`github`, `gitlab`, `gitee`, `gitcode`).
    pub fn parse(s: &str) -> (r: Option<Provider>)
        ensures
            match r {
                Some(p) => provider_name(p) == s@,
                None => forall|p: Provider| provider_name(p) != s@,
            },
    {
        if str_eq(s, "github") {
            Some(Provider::Github)
        } else if str_eq(s, "gitlab") {
            Some(Provider::Gitlab)
        } else if str_eq(s, "gitee") {
            Some(Provider::Gitee)
        } else if str_eq(s, "gitcode") {
            Some(Provider::Gitcode)
        } else {
            None
        }
    }

    /// The key name of the provider (token store keys, CLI values).
    pub fn name(self) -> (r: &'static str)
        ensures
            r@ == provider_name(self),
    {
        match self {
            Provider::Github => "github",
            Provider::Gitlab => "gitlab",
            Provider::Gitee => "gitee",
            Provider::Gitcode => "gitcode",
        }
    }

    /// The name shown in messages.
    pub fn display(self) -> (r: &'static str)
        ensures
            r@ == provider_display(self),
    {
        match self {
            Provider::Github => "Github",
            Provider::Gitlab => "Gitlab",
            Provider::Gitee => "Gitee",
            Provider::Gitcode => "GitCode",
        }
    }

    /// The environment variables the token is read from, in order.
    pub fn env_vars(self) -> (r: Vec<&'static str>)
        ensures
            r@.map_values(|s: &str| s@) == provider_env_vars(self),
    {
        let mut v: Vec<&'static str> = Vec::new();
        match self {
            Provider::Github => {
                v.push("GH_TOKEN");
                v.push("GITHUB_TOKEN");
            },
            Provider::Gitlab => v.push("GITLAB_TOKEN"),
            Provider::Gitee => v.push("GITEE_TOKEN"),
            Provider::Gitcode => v.push("GITCODE_TOKEN"),
        }
        assert(v@.map_values(|s: &str| s@) =~= provider_env_vars(self));
        v
    }
}

/// The names of the providers parse back to the providers.
pub proof fn law_provider_name_roundtrip(p: Provider, q: Provider)
    ensures
        provider_name(p) == provider_name(q) ==> p == q,
{
    reveal_strlit("github");
    reveal_strlit("gitlab");
    reveal_strlit("gitee");
    reveal_strlit("gitcode");
    if provider_name(p) == provider_name(q) && p != q {
        let a = provider_name(p);
        let b = provider_name(q);
        assert(a.len() == b.len());
        assert(a[4] == b[4] || a[3] == b[3] || a[2] == b[2]);
        assert(a[0] == b[0] && a[1] == b[1] && a[2] == b[2] && a[3] == b[3] && a[4] == b[4]);
    }
}

/// What can go wrong when releasing.
#[derive(Debug)]
pub enum ReleaseError {
    Token { message: String },
    Config { message: String },
    Git { message: String },
    Http { message: String },
}

/// The error's kind with its message text.
pub enum ReleaseErrorV {
    Token(Seq<char>),
    Config(Seq<char>),
    Git(Seq<char>),
    Http(Seq<char>),
}

impl ReleaseError {
    pub open spec fn view(&self) -> ReleaseErrorV {
        match self {
            ReleaseError::Token { message } => ReleaseErrorV::Token(message@),
            ReleaseError::Config { message } => ReleaseErrorV::Config(message@),
            ReleaseError::Git { message } => ReleaseErrorV::Git(message@),
            ReleaseError::Http { message } => ReleaseErrorV::Http(message@),
        }
    }

    /// The user-facing text of the error.
    pub fn message(&self) -> (r: &String)
        ensures
            r@ == match self.view() {
                ReleaseErrorV::Token(m) => m,
                ReleaseErrorV::Config(m) => m,
                ReleaseErrorV::Git(m) => m,
                ReleaseErrorV::Http(m) => m,
            },
    {
        match self {
            ReleaseError::Token { message } => message,
            ReleaseError::Config { message } => message,
            ReleaseError::Git { message } => message,
            ReleaseError::Http { message } => message,
        }
    }
}

/// A byte `application/x-www-form-urlencoded` keeps as it is.
pub open spec fn form_unreserved(b: u8) -> bool {
    b == 42 || b == 45 || b == 46 || (48 <= b && b <= 57) || (65 <= b && b <= 90) || b == 95 || (
    97 <= b && b <= 122)
}

/// An upper-case hexadecimal digit.
pub open spec fn hex_digit(d: u8) -> char {
    if d < 10 {
        ((d + 48) as u32) as char
    } else {
        ((d + 55) as u32) as char
    }
}

/// One byte, form-encoded: kept, `+` for a space, else `%XX`.
pub open spec fn form_byte(b: u8) -> Seq<char> {
    if form_unreserved(b) {
        seq![(b as u32) as char]
    } else if b == 32 {
        seq!['+']
    } else {
        seq!['%', hex_digit(b / 16), hex_digit(b % 16)]
    }
}

/// `form_urlencoded::byte_serialize`, as text.
pub open spec fn form_encode(bytes: Seq<u8>) -> Seq<char>
    decreases bytes.len(),
{
    if bytes.len() == 0 {
        Seq::empty()
    } else {
        form_encode(bytes.drop_last()) + form_byte(bytes.last())
    }
}

/// `url::form_urlencoded::byte_serialize` (form_urlencoded 1.2): bytes in
/// `*-._0-9A-Za-z` are kept, a space becomes `+`, every other byte `%XX`
/// with upper-case hex digits.
#[verifier::external_body]
fn form_urlencode(bytes: &[u8]) -> (r: String)
    ensures
        r@ == form_encode(bytes@),
{
    url::form_urlencoded::byte_serialize(bytes).collect()
}

/// The form encoding of a string's UTF-8 bytes.
pub fn form_encode_str(s: &str) -> (r: String)
    ensures
        r@ == form_encode(encode_utf8(s@)),
{
    form_urlencode(s.as_bytes())
}

pub open spec fn mask() -> Seq<char> {
    "[redacted]"@
}

/// `text` with the token, raw and form-encoded, replaced by `[redacted]`;
/// unchanged for an empty token.
pub open spec fn scrub_spec(text: Seq<char>, token: Seq<char>) -> Seq<char> {
    if token.len() == 0 {
        text
    } else {
        let once = replace_all(text, token, mask());
        let enc = form_encode(encode_utf8(token));
        if enc.len() == 0 {
            once
        } else {
            replace_all(once, enc, mask())
        }
    }
}

/// A scrubbed text holds the token neither raw nor form-encoded, for a
/// token that cannot share a stretch with `[redacted]` (raw or encoded)
/// when laid beside it: no masking can bring it back.
pub proof fn law_scrub_hides_token(text: Seq<char>, token: Seq<char>)
    requires
        token.len() > 0,
        !overlaps(token, mask()),
        !overlaps(form_encode(encode_utf8(token)), mask()),
    ensures
        !contains_seq(scrub_spec(text, token), token),
        form_encode(encode_utf8(token)).len() > 0 ==> !contains_seq(
            scrub_spec(text, token),
            form_encode(encode_utf8(token)),
        ),
{
    let once = replace_all(text, token, mask());
    let enc = form_encode(encode_utf8(token));
    lemma_replace_leaves_none(text, token, mask(), token, 0);
    if enc.len() > 0 {
        lemma_replace_leaves_none(once, enc, mask(), token, 0);
        lemma_replace_leaves_none(once, enc, mask(), enc, 0);
        lemma_find_from(scrub_spec(text, token), enc, 0);
    }
    lemma_find_from(scrub_spec(text, token), token, 0);
}

/// Masks a token in a text (see `scrub_spec`).
pub fn scrub_token(text: &str, token: &str) -> (r: String)
    ensures
        r@ == scrub_spec(text@, token@),
{
    if token.unicode_len() == 0 {
        return crate::text::owned(text);
    }
    let t = chars_of(token);
    let masked = lit("[redacted]");
    let once = replace_chars(&chars_of(text), &t, &masked);
    let enc = chars_of(form_encode_str(token).as_str());
    if enc.len() == 0 {
        return string_of(&once);
    }
    string_of(&replace_chars(&once, &enc, &masked))
}

impl ReleaseError {
    /// The error with the token masked in its message (`scrub_spec`), same kind.
    pub fn redact(self, token: &str) -> (r: ReleaseError)
        ensures
            r.view() == match self.view() {
                ReleaseErrorV::Token(m) => ReleaseErrorV::Token(scrub_spec(m, token@)),
                ReleaseErrorV::Config(m) => ReleaseErrorV::Config(scrub_spec(m, token@)),
                ReleaseErrorV::Git(m) => ReleaseErrorV::Git(scrub_spec(m, token@)),
                ReleaseErrorV::Http(m) => ReleaseErrorV::Http(scrub_spec(m, token@)),
            },
    {
        match self {
            ReleaseError::Token { message } => ReleaseError::Token {
                message: scrub_token(message.as_str(), token),
            },
            ReleaseError::Config { message } => ReleaseError::Config {
                message: scrub_token(message.as_str(), token),
            },
            ReleaseError::Git { message } => ReleaseError::Git {
                message: scrub_token(message.as_str(), token),
            },
            ReleaseError::Http { message } => ReleaseError::Http {
                message: scrub_token(message.as_str(), token),
            },
        }
    }
}

/// Where a token came from.
#[derive(Debug, Clone, PartialEq, Eq)]
pub enum TokenSource {
    /// The encrypted token store.
    Store,
    /// An environment variable (its name).
    Env(&'static str),
    /// `gh auth token` (github only).
    GhCli,
}

pub enum TokenSourceV {
    Store,
    Env(Seq<char>),
    GhCli,
}

impl TokenSource {
    pub open spec fn view(&self) -> TokenSourceV {
        match self {
            TokenSource::Store => TokenSourceV::Store,
            TokenSource::Env(n) => TokenSourceV::Env(n@),
            TokenSource::GhCli => TokenSourceV::GhCli,
        }
    }

    /// How the source is named to the user.
    pub fn describe(&self) -> (r: String)
        ensures
            r@ == match self.view() {
                TokenSourceV::Store => "token store"@,
                TokenSourceV::Env(n) => "environment variable "@ + n,
                TokenSourceV::GhCli => "gh CLI (`gh auth token`)"@,
            },
    {
        match self {
            TokenSource::Store => string_of(&lit("token store")),
            TokenSource::Env(name) => {
                let mut m = lit("environment variable ");
                extend_str(&mut m, name);
                string_of(&m)
            },
            TokenSource::GhCli => string_of(&lit("gh CLI (`gh auth token`)")),
        }
    }
}

/// A resolved token and its source.
#[derive(Debug, Clone, PartialEq, Eq)]
pub struct ResolvedToken {
    pub token: String,
    pub source: TokenSource,
}

/// The store keys tried, in order: for gitlab with a host whose scoped key
/// can be formed, that key first; then the provider's name.
pub open spec fn store_keys(p: Provider, host: Option<Seq<char>>) -> Seq<Seq<char>> {
    match (p, host) {
        (Provider::Gitlab, Some(h)) => match host_scoped_key_spec(provider_name(p), h) {
            Ok(k) => seq![k, provider_name(p)],
            Err(_) => seq![provider_name(p)],
        },
        _ => seq![provider_name(p)],
    }
}

/// Whether `gh auth token` has to be asked: only for github, and only when
/// neither the store nor the environment gives a token.
pub fn needs_gh_cli(provider: Provider, host: Option<&str>, tokens: &StrMap, env: &StrMap) -> (r: bool)
    ensures
        r == (provider == Provider::Github && resolve_spec(
            provider,
            match host {
                Some(h) => Some(h@),
                None => None,
            },
            tokens@,
            env@,
            None,
        ) is None),
{
    provider == Provider::Github && resolve_token_sourced(provider, host, tokens, env, None).is_none()
}

/// The output of `gh auth token` decides nothing unless it is asked for:
/// where `needs_gh_cli` is false, the token is the same whatever gh says.
pub proof fn law_gh_only_when_needed(
    p: Provider,
    host: Option<Seq<char>>,
    tokens: Map<Seq<char>, Seq<char>>,
    env: Map<Seq<char>, Seq<char>>,
    gh: Option<Seq<char>>,
)
    requires
        !(p == Provider::Github && resolve_spec(p, host, tokens, env, None) is None),
    ensures
        resolve_spec(p, host, tokens, env, gh) == resolve_spec(p, host, tokens, env, None),
{
}

/// The first of `keys[i..]` with a non-empty token in the table.
pub open spec fn first_stored(keys: Seq<Seq<char>>, i: int, m: Map<Seq<char>, Seq<char>>) -> Option<
    Seq<char>,
>
    decreases keys.len() - i,
{
    if i < 0 || i >= keys.len() {
        None
    } else if m.contains_key(keys[i]) && m[keys[i]].len() > 0 {
        Some(m[keys[i]])
    } else {
        first_stored(keys, i + 1, m)
    }
}

/// The first of `vars[i..]` set to a non-empty value.
pub open spec fn first_env(vars: Seq<Seq<char>>, i: int, env: Map<Seq<char>, Seq<char>>) -> Option<
    (Seq<char>, Seq<char>),
>
    decreases vars.len() - i,
{
    if i < 0 || i >= vars.len() {
        None
    } else if env.contains_key(vars[i]) && env[vars[i]].len() > 0 {
        Some((vars[i], env[vars[i]]))
    } else {
        first_env(vars, i + 1, env)
    }
}

/// The token chain: the store (gitlab host-scoped key, then the provider
/// key), then the provider's environment variables, then for github the
/// trimmed output of `gh auth token`. Empty values count as missing.
pub open spec fn resolve_spec(
    p: Provider,
    host: Option<Seq<char>>,
    tokens: Map<Seq<char>, Seq<char>>,
    env: Map<Seq<char>, Seq<char>>,
    gh: Option<Seq<char>>,
) -> Option<(Seq<char>, TokenSourceV)> {
    match first_stored(store_keys(p, host), 0, tokens) {
        Some(t) => Some((t, TokenSourceV::Store)),
        None => match first_env(provider_env_vars(p), 0, env) {
            Some((v, t)) => Some((t, TokenSourceV::Env(v))),
            None => if p == Provider::Github {
                match gh {
                    Some(out) => if trim_spec(out).len() > 0 {
                        Some((trim_spec(out), TokenSourceV::GhCli))
                    } else {
                        None
                    },
                    None => None,
                }
            } else {
                None
            },
        },
    }
}

pub open spec fn resolved_view(r: Option<ResolvedToken>) -> Option<(Seq<char>, TokenSourceV)> {
    match r {
        Some(t) => Some((t.token@, t.source.view())),
        None => None,
    }
}

/// Resolves the token of a provider from the store table, the environment
/// (variable → value) and the output of `gh auth token` when it was run
/// (see `resolve_spec`).
pub fn resolve_token_sourced(
    provider: Provider,
    host: Option<&str>,
    tokens: &StrMap,
    env: &StrMap,
    gh_cli: Option<String>,
) -> (r: Option<ResolvedToken>)
    ensures
        resolved_view(r) == resolve_spec(
            provider,
            match host {
                Some(h) => Some(h@),
                None => None,
            },
            tokens@,
            env@,
            crate::cli::parse::opt_text(gh_cli),
        ),
{
    let ghost hv = match host {
        Some(h) => Some(h@),
        None => None::<Seq<char>>,
    };
    let mut keys: Vec<String> = Vec::new();
    if provider == Provider::Gitlab {
        if let Some(h) = host {
            if let Ok(k) = host_scoped_key("gitlab", h) {
                keys.push(k);
            }
        }
    }
    keys.push(string_of(&lit(provider.name())));
    let ghost ks = crate::cli::parse::texts(keys@);
    assert(ks =~= store_keys(provider, hv));
    let mut i: usize = 0;
    while i < keys.len()
        invariant
            i <= keys@.len(),
            ks == crate::cli::parse::texts(keys@),
            ks == store_keys(provider, hv),
            hv == match host {
                Some(h) => Some(h@),
                None => None::<Seq<char>>,
            },
            first_stored(ks, 0, tokens@) == first_stored(ks, i as int, tokens@),
        decreases keys.len() - i,
    {
        assert(ks[i as int] == keys@[i as int]@);
        if let Some(t) = tokens.get(keys[i].as_str()) {
            if t.as_str().unicode_len() > 0 {
                return Some(ResolvedToken { token: t, source: TokenSource::Store });
            }
        }
        i = i + 1;
    }
    let vars = provider.env_vars();
    let ghost vs = vars@.map_values(|s: &str| s@);
    let mut j: usize = 0;
    while j < vars.len()
        invariant
            j <= vars@.len(),
            vs == vars@.map_values(|s: &str| s@),
            vs == provider_env_vars(provider),
            ks == store_keys(provider, hv),
            hv == match host {
                Some(h) => Some(h@),
                None => None::<Seq<char>>,
            },
            first_stored(ks, 0, tokens@) is None,
            first_env(vs, 0, env@) == first_env(vs, j as int, env@),
        decreases vars.len() - j,
    {
        assert(vs[j as int] == vars@[j as int]@);
        if let Some(v) = env.get(vars[j]) {
            if v.as_str().unicode_len() > 0 {
                return Some(ResolvedToken { token: v, source: TokenSource::Env(vars[j]) });
            }
        }
        j = j + 1;
    }
    if provider == Provider::Github {
        match gh_cli {
            Some(out) => {
                let t = trim_chars(&chars_of(out.as_str()));
                if t.len() > 0 {
                    return Some(ResolvedToken { token: string_of(&t), source: TokenSource::GhCli });
                }
                None
            },
            None => None,
        }
    } else {
        None
    }
}

/// The "no token" message: gitlab with a host names the host.
pub open spec fn missing_token_spec(p: Provider, host: Option<Seq<char>>) -> Seq<char> {
    match (p, host) {
        (Provider::Gitlab, Some(h)) => "no "@ + provider_display(p) + " token detected for "@ + h
            + "; run vbumpp token set "@ + provider_name(p) + " --host "@ + h + " to add one"@,
        _ => "no "@ + provider_display(p) + " token detected; run vbumpp token set "@
            + provider_name(p) + " to add one"@,
    }
}

/// The "no token" message (see `missing_token_spec`).
pub fn missing_token_message(provider: Provider, host: Option<&str>) -> (r: String)
    ensures
        r@ == missing_token_spec(
            provider,
            match host {
                Some(h) => Some(h@),
                None => None,
            },
        ),
{
    let mut m = lit("no ");
    extend_str(&mut m, provider.display());
    match (provider, host) {
        (Provider::Gitlab, Some(h)) => {
            extend_str(&mut m, " token detected for ");
            extend_str(&mut m, h);
            extend_str(&mut m, "; run vbumpp token set ");
            extend_str(&mut m, provider.name());
            extend_str(&mut m, " --host ");
            extend_str(&mut m, h);
            extend_str(&mut m, " to add one");
        },
        _ => {
            extend_str(&mut m, " token detected; run vbumpp token set ");
            extend_str(&mut m, provider.name());
            extend_str(&mut m, " to add one");
        },
    }
    string_of(&m)
}


/// A reply of a platform API: status code and body text.
#[derive(Debug, Clone, PartialEq, Eq)]
pub struct HttpResponse {
    pub status: u16,
    pub body: String,
}

/// The string member `message` of a JSON object text, when the text parses
/// as JSON and has one.
pub uninterp spec fn json_message_field(body: Seq<char>) -> Option<Seq<char>>;

/// `serde_json::from_str::<Value>(body)`, then `.get("message")` and
/// `.as_str()`: the server's message, if the body is JSON carrying one.
#[verifier::external_body]
fn json_message(body: &str) -> (r: Option<String>)
    ensures
        crate::cli::parse::opt_text(r) == json_message_field(body@),
{
    serde_json::from_str::<serde_json::Value>(body).ok().and_then(
        |v| v.get("message").and_then(serde_json::Value::as_str).map(str::to_owned),
    )
}

/// The message shown for a failed reply: the server's non-empty `message`,
/// else the body, else `Unknown error`.
pub open spec fn server_message(body: Seq<char>) -> Seq<char> {
    match json_message_field(body) {
        Some(m) => if m.len() > 0 {
            m
        } else if body.len() == 0 {
            "Unknown error"@
        } else {
            body
        },
        None => if body.len() == 0 {
            "Unknown error"@
        } else {
            body
        },
    }
}

/// The check of a response: a 2xx status is accepted; any other status is an
/// HTTP error with the platform name, the status and the server message.
pub open spec fn check_status_spec(status: u16, body: Seq<char>, p: Provider) -> Option<Seq<char>> {
    if 200 <= status < 300 {
        None
    } else {
        Some(provider_display(p) + " [open api] error : ["@ + decimal(status as nat) + "] "@
            + server_message(body))
    }
}

/// Checks a reply's status (see `check_status_spec`).
pub fn check_status(resp: &HttpResponse, provider: Provider) -> (r: Result<(), ReleaseError>)
    ensures
        match check_status_spec(resp.status, resp.body@, provider) {
            None => r is Ok,
            Some(m) => r is Err && r->Err_0.view() == ReleaseErrorV::Http(m),
        },
{
    if 200 <= resp.status && resp.status < 300 {
        return Ok(());
    }
    let body_empty = resp.body.as_str().unicode_len() == 0;
    let msg = match json_message(resp.body.as_str()) {
        Some(m) => if m.as_str().unicode_len() > 0 {
            m
        } else if body_empty {
            string_of(&lit("Unknown error"))
        } else {
            resp.body.clone()
        },
        None => if body_empty {
            string_of(&lit("Unknown error"))
        } else {
            resp.body.clone()
        },
    };
    let mut m = lit(provider.display());
    extend_str(&mut m, " [open api] error : [");
    extend_chars(&mut m, &crate::token_blob::decimal_exec(resp.status as u64));
    extend_str(&mut m, "] ");
    extend_str(&mut m, msg.as_str());
    Err(ReleaseError::Http { message: string_of(&m) })
}

/// A transport failure (no reply): the platform and the failure text.
pub open spec fn transport_spec(p: Provider, e: Seq<char>) -> Seq<char> {
    provider_display(p) + " [open api] error : "@ + e
}

fn transport_error(provider: Provider, e: &String) -> (r: ReleaseError)
    ensures
        r.view() == ReleaseErrorV::Http(transport_spec(provider, e@)),
{
    let mut m = lit(provider.display());
    extend_str(&mut m, " [open api] error : ");
    extend_str(&mut m, e.as_str());
    ReleaseError::Http { message: string_of(&m) }
}

/// The verdict on the reply to a release POST: the transport error, or the
/// status check; the token masked in any message.
pub open spec fn post_outcome_spec(p: Provider, token: &str, resp: Result<(u16, Seq<char>), Seq<char>>) -> Option<
    Seq<char>,
> {
    match resp {
        Err(e) => Some(scrub_spec(transport_spec(p, e), token@)),
        Ok((status, body)) => match check_status_spec(status, body, p) {
            None => None,
            Some(m) => Some(scrub_spec(m, token@)),
        },
    }
}

pub open spec fn resp_view(r: Result<HttpResponse, String>) -> Result<(u16, Seq<char>), Seq<char>> {
    match r {
        Ok(h) => Ok((h.status, h.body@)),
        Err(e) => Err(e@),
    }
}

/// The outcome of a release POST (see `post_outcome_spec`).
pub fn finish_post(provider: Provider, token: &str, resp: Result<HttpResponse, String>) -> (r: Result<
    (),
    ReleaseError,
>)
    ensures
        match post_outcome_spec(provider, token, resp_view(resp)) {
            None => r is Ok,
            Some(m) => r is Err && r->Err_0.view() == ReleaseErrorV::Http(m),
        },
{
    let checked = match resp {
        Err(e) => Err(transport_error(provider, &e)),
        Ok(h) => check_status(&h, provider),
    };
    match checked {
        Ok(()) => Ok(()),
        Err(e) => Err(e.redact(token)),
    }
}

/// `owner/repo` split at its first `/`.
pub open spec fn owner_repo_spec(repo: Option<Seq<char>>) -> Option<(Seq<char>, Seq<char>)> {
    match repo {
        None => None,
        Some(r) => {
            let j = index_of_char(r, '/');
            if j < 0 {
                None
            } else {
                Some((r.subrange(0, j), r.subrange(j + 1, r.len() as int)))
            }
        },
    }
}

pub open spec fn no_remote() -> Seq<char> {
    "cannot resolve the remote repository"@
}

/// The owner and name of the remote repository from its `owner/repo` form.
pub fn resolve_owner_repo(repo: Option<&str>) -> (r: Result<(String, String), ReleaseError>)
    ensures
        match owner_repo_spec(
            match repo {
                Some(x) => Some(x@),
                None => None,
            },
        ) {
            Some((o, n)) => r is Ok && r->Ok_0.0@ == o && r->Ok_0.1@ == n,
            None => r is Err && r->Err_0.view() == ReleaseErrorV::Git(no_remote()),
        },
{
    match repo {
        None => Err(ReleaseError::Git { message: string_of(&lit("cannot resolve the remote repository")) }),
        Some(x) => {
            let v = chars_of(x);
            match first_eq_index(&v, '/') {
                Some(j) => Ok((string_of(&slice_chars(&v, 0, j)), string_of(&slice_chars(&v, j + 1, v.len())))),
                None => Err(ReleaseError::Git { message: string_of(&lit("cannot resolve the remote repository")) }),
            }
        },
    }
}

/// Whether `pattern` (compiled with the `regex` crate) matches somewhere in
/// `text`; nothing when the pattern does not compile.
pub uninterp spec fn regex_finds(pattern: Seq<char>, text: Seq<char>) -> Option<bool>;

/// `regex::Regex::new(pattern)` then `is_match(text)`. The alternation of
/// the two literals `(beta|alpha)` compiles and matches exactly where one of
/// them occurs in the text.
#[verifier::external_body]
fn regex_is_match(pattern: &str, text: &str) -> (r: Option<bool>)
    ensures
        r == regex_finds(pattern@, text@),
        pattern@ == "(beta|alpha)"@ ==> r == Some(contains_seq(text@, "beta"@) || contains_seq(text@, "alpha"@)),
{
    regex::Regex::new(pattern).ok().map(|re| re.is_match(text))
}

/// A version is a prerelease when `beta` or `alpha` occurs in it (the
/// pattern `(beta|alpha)` matches it).
pub open spec fn is_prerelease_spec(v: Seq<char>) -> bool {
    contains_seq(v, "beta"@) || contains_seq(v, "alpha"@)
}

/// Whether a version is a prerelease (`beta` or `alpha` in it).
pub fn is_prerelease(new_version: &str) -> (r: bool)
    ensures
        r == is_prerelease_spec(new_version@),
{
    match regex_is_match("(beta|alpha)", new_version) {
        Some(b) => b,
        None => false,
    }
}

/// The body of a release request.
#[derive(Debug, Clone, PartialEq, Eq)]
pub enum ReleasePayload {
    /// GitHub, Gitee and GitCode.
    GithubLike {
        name: String,
        tag_name: String,
        body: String,
        target_commitish: String,
        prerelease: bool,
    },
    /// GitLab.
    Gitlab { name: String, tag_name: String, description: String },
}

/// An HTTP request to send to a platform.
#[derive(Debug, Clone, PartialEq, Eq)]
pub struct HttpCall {
    pub method: &'static str,
    pub url: String,
    pub headers: Vec<(String, String)>,
    pub payload: Option<ReleasePayload>,
}

/// The releases endpoint of a GitHub-like API.
pub open spec fn releases_url_spec(base: Seq<char>, owner: Seq<char>, repo: Seq<char>) -> Seq<char> {
    base + "/repos/"@ + owner + "/"@ + repo + "/releases"@
}

fn releases_url(base: &str, owner: &str, repo: &str) -> (r: Vec<char>)
    ensures
        r@ == releases_url_spec(base@, owner@, repo@),
{
    let mut u = chars_of(base);
    extend_str(&mut u, "/repos/");
    extend_str(&mut u, owner);
    extend_str(&mut u, "/");
    extend_str(&mut u, repo);
    extend_str(&mut u, "/releases");
    u
}

/// The GitHub-like body for a version, its notes and branch.
pub open spec fn is_release_body(p: ReleasePayload, v: Seq<char>, md: Seq<char>, branch: Seq<char>) -> bool {
    match p {
        ReleasePayload::GithubLike { name, tag_name, body, target_commitish, prerelease } => name@
            == v && tag_name@ == "v"@ + v && body@ == md && target_commitish@ == branch && prerelease
            == is_prerelease_spec(v),
        _ => false,
    }
}

/// The GitHub-like release body: name, `v`-prefixed tag, the notes, the
/// branch, and the prerelease flag.
pub fn release_body(new_version: &str, markdown: &str, branch: &str) -> (r: ReleasePayload)
    ensures
        is_release_body(r, new_version@, markdown@, branch@),
{
    let mut tag = lit("v");
    extend_str(&mut tag, new_version);
    ReleasePayload::GithubLike {
        name: crate::text::owned(new_version),
        tag_name: string_of(&tag),
        body: crate::text::owned(markdown),
        target_commitish: crate::text::owned(branch),
        prerelease: is_prerelease(new_version),
    }
}

/// The GitCode release request: POST to the releases endpoint with the
/// form-encoded token as `access_token` query; a missing `owner/repo` is a
/// git error. The token is masked in errors.
pub fn create_with_base(
    base_url: &str,
    token: &str,
    new_version: &str,
    markdown: &str,
    repo: Option<&str>,
    branch: &str,
) -> (r: Result<HttpCall, ReleaseError>)
    ensures
        match owner_repo_spec(
            match repo {
                Some(x) => Some(x@),
                None => None,
            },
        ) {
            None => r is Err && r->Err_0.view() == ReleaseErrorV::Git(scrub_spec(no_remote(), token@)),
            Some((o, n)) => r is Ok && r->Ok_0.method@ == "POST"@ && r->Ok_0.url@
                == releases_url_spec(base_url@, o, n) + "?access_token="@ + form_encode(
                encode_utf8(token@),
            ) && r->Ok_0.headers@.len() == 0 && r->Ok_0.payload is Some && is_release_body(
                r->Ok_0.payload->0,
                new_version@,
                markdown@,
                branch@,
            ),
        },
{
    let (owner, name) = match resolve_owner_repo(repo) {
        Ok(x) => x,
        Err(e) => return Err(e.redact(token)),
    };
    let mut url = releases_url(base_url, owner.as_str(), name.as_str());
    extend_str(&mut url, "?access_token=");
    let enc = form_encode_str(token);
    extend_str(&mut url, enc.as_str());
    Ok(HttpCall {
        method: "POST",
        url: string_of(&url),
        headers: Vec::new(),
        payload: Some(release_body(new_version, markdown, branch)),
    })
}

/// The GitLab project lookup: GET `{host}/api/v4/projects/<form-encoded owner/repo>`
/// with the `PRIVATE-TOKEN` header. The token is masked in errors.
pub fn create_with_host(host: &str, token: &str, repo: Option<&str>) -> (r: Result<HttpCall, ReleaseError>)
    ensures
        match owner_repo_spec(
            match repo {
                Some(x) => Some(x@),
                None => None,
            },
        ) {
            None => r is Err && r->Err_0.view() == ReleaseErrorV::Git(scrub_spec(no_remote(), token@)),
            Some((o, n)) => r is Ok && r->Ok_0.method@ == "GET"@ && r->Ok_0.payload is None
                && r->Ok_0.headers@.len() == 1 && r->Ok_0.headers@[0].0@ == "PRIVATE-TOKEN"@
                && r->Ok_0.headers@[0].1@ == token@ && r->Ok_0.url@ == host@ + "/api/v4/projects/"@
                + form_encode(encode_utf8(o + "/"@ + n)),
        },
{
    let (owner, name) = match resolve_owner_repo(repo) {
        Ok(x) => x,
        Err(e) => return Err(e.redact(token)),
    };
    let mut path = chars_of(owner.as_str());
    path.push('/');
    extend_str(&mut path, name.as_str());
    proof {
        reveal_strlit("/");
        assert(path@ =~= owner@ + "/"@ + name@);
    }
    let path_s = string_of(&path);
    let enc = form_encode_str(path_s.as_str());
    let mut url = chars_of(host);
    extend_str(&mut url, "/api/v4/projects/");
    extend_str(&mut url, enc.as_str());
    let mut headers: Vec<(String, String)> = Vec::new();
    headers.push((string_of(&lit("PRIVATE-TOKEN")), crate::text::owned(token)));
    Ok(HttpCall { method: "GET", url: string_of(&url), headers, payload: None })
}


/// The numeric `id` member of a JSON object text: an error text when the
/// body is no JSON, nothing when there is no unsigned `id`.
pub uninterp spec fn json_id_field(body: Seq<char>) -> Result<Option<u64>, Seq<char>>;

/// `serde_json::from_str::<Value>(body)` (its error's `Display` text on
/// failure), then `.get("id")` and `.as_u64()`.
#[verifier::external_body]
fn json_id(body: &str) -> (r: Result<Option<u64>, String>)
    ensures
        match json_id_field(body@) {
            Ok(x) => r == Ok::<Option<u64>, String>(x),
            Err(m) => r is Err && r->Err_0@ == m,
        },
{
    match serde_json::from_str::<serde_json::Value>(body) {
        Ok(v) => Ok(v.get("id").and_then(serde_json::Value::as_u64)),
        Err(e) => Err(e.to_string()),
    }
}

/// After the project lookup: the error (token masked), or the release POST
/// to `{host}/api/v4/projects/{id}/releases`.
pub open spec fn gitlab_step_spec(host: Seq<char>, token: &str, resp: Result<(u16, Seq<char>), Seq<char>>) -> Result<
    Seq<char>,
    ReleaseErrorV,
> {
    match resp {
        Err(e) => Err(ReleaseErrorV::Http(scrub_spec(transport_spec(Provider::Gitlab, e), token@))),
        Ok((status, body)) => match check_status_spec(status, body, Provider::Gitlab) {
            Some(m) => Err(ReleaseErrorV::Http(scrub_spec(m, token@))),
            None => match json_id_field(body) {
                Err(je) => Err(
                    ReleaseErrorV::Http(
                        scrub_spec(
                            "gitlab [open api] error : failed to parse project info: json: "@ + je,
                            token@,
                        ),
                    ),
                ),
                Ok(None) => Err(
                    ReleaseErrorV::Http(scrub_spec("cannot resolve the gitlab project id"@, token@)),
                ),
                Ok(Some(id)) => Ok(host + "/api/v4/projects/"@ + decimal(id as nat) + "/releases"@),
            },
        },
    }
}

/// The GitLab release POST that follows the project lookup reply (see
/// `gitlab_step_spec`), with the `PRIVATE-TOKEN` header and the name, tag
/// and description.
pub fn gitlab_release_call(
    host: &str,
    token: &str,
    new_version: &str,
    markdown: &str,
    resp: Result<HttpResponse, String>,
) -> (r: Result<HttpCall, ReleaseError>)
    ensures
        match gitlab_step_spec(host@, token, resp_view(resp)) {
            Err(e) => r is Err && r->Err_0.view() == e,
            Ok(url) => r is Ok && r->Ok_0.method@ == "POST"@ && r->Ok_0.url@ == url
                && r->Ok_0.headers@.len() == 1 && r->Ok_0.headers@[0].0@ == "PRIVATE-TOKEN"@
                && r->Ok_0.headers@[0].1@ == token@ && r->Ok_0.payload is Some && (match r->Ok_0.payload->0 {
                ReleasePayload::Gitlab { name, tag_name, description } => name@ == new_version@
                    && tag_name@ == "v"@ + new_version@ && description@ == markdown@,
                _ => false,
            }),
        },
{
    let h = match resp {
        Err(e) => return Err(transport_error(Provider::Gitlab, &e).redact(token)),
        Ok(h) => h,
    };
    match check_status(&h, Provider::Gitlab) {
        Err(e) => return Err(e.redact(token)),
        Ok(()) => {},
    }
    let id = match json_id(h.body.as_str()) {
        Err(je) => {
            let mut m = lit("gitlab [open api] error : failed to parse project info: json: ");
            extend_str(&mut m, je.as_str());
            return Err(ReleaseError::Http { message: string_of(&m) }.redact(token));
        },
        Ok(None) => {
            return Err(
                ReleaseError::Http {
                    message: string_of(&lit("cannot resolve the gitlab project id")),
                }.redact(token),
            );
        },
        Ok(Some(id)) => id,
    };
    let mut url = chars_of(host);
    extend_str(&mut url, "/api/v4/projects/");
    extend_chars(&mut url, &crate::token_blob::decimal_exec(id));
    extend_str(&mut url, "/releases");
    let mut headers: Vec<(String, String)> = Vec::new();
    headers.push((string_of(&lit("PRIVATE-TOKEN")), crate::text::owned(token)));
    let mut tag = lit("v");
    extend_str(&mut tag, new_version);
    Ok(HttpCall {
        method: "POST",
        url: string_of(&url),
        headers,
        payload: Some(
            ReleasePayload::Gitlab {
                name: crate::text::owned(new_version),
                tag_name: string_of(&tag),
                description: crate::text::owned(markdown),
            },
        ),
    })
}

/// A platform request held back by a dry run: method and (masked) URL.
#[derive(Debug, Clone, PartialEq, Eq)]
pub struct PlannedRequest {
    pub method: &'static str,
    pub url: String,
}

/// What a release dry run shows.
#[derive(Debug, Clone)]
pub struct ReleasePlan {
    pub provider: Provider,
    /// Where the token was found; nothing when it is missing.
    pub token_source: Option<TokenSource>,
    /// The API base (for gitlab the configured host).
    pub host: String,
    pub owner: String,
    pub repo: String,
    pub tag_name: String,
    pub prerelease: bool,
    /// The release notes.
    pub body: String,
    /// The requests that would be sent, in order.
    pub requests: Vec<PlannedRequest>,
}

/// `url` cut at the first `marker` (whole when absent).
pub open spec fn cut_at(url: Seq<char>, marker: Seq<char>) -> Seq<char> {
    let j = find_from(url, marker, 0);
    if j < 0 {
        url
    } else {
        url.subrange(0, j)
    }
}

/// The index of the first POST among `reqs[i..]`, or `-1`.
pub open spec fn first_post(reqs: Seq<(Seq<char>, Seq<char>)>, i: int) -> int
    decreases reqs.len() - i,
{
    if i < 0 || i >= reqs.len() {
        -1
    } else if reqs[i].0 == "POST"@ {
        i
    } else {
        first_post(reqs, i + 1)
    }
}

/// The API base read back from the planned URLs: gitlab's first URL before
/// `/api/v4/`; for the others the first POST's URL before `/repos/`.
pub open spec fn host_of_spec(p: Provider, reqs: Seq<(Seq<char>, Seq<char>)>) -> Seq<char> {
    if p == Provider::Gitlab {
        if reqs.len() == 0 {
            Seq::empty()
        } else {
            cut_at(reqs[0].1, "/api/v4/"@)
        }
    } else {
        let j = first_post(reqs, 0);
        if j < 0 {
            Seq::empty()
        } else {
            cut_at(reqs[j].1, "/repos/"@)
        }
    }
}

pub open spec fn reqs_view(v: Seq<PlannedRequest>) -> Seq<(Seq<char>, Seq<char>)> {
    v.map_values(|r: PlannedRequest| (r.method@, r.url@))
}

fn cut(url: &String, marker: &str) -> (r: String)
    ensures
        r@ == cut_at(url@, marker@),
{
    let v = chars_of(url.as_str());
    match find_chars(&v, &chars_of(marker), 0) {
        Some(j) => {
            proof {
                crate::text::lemma_find_from(v@, marker@, 0);
            }
            string_of(&slice_chars(&v, 0, j))
        },
        None => url.clone(),
    }
}

fn host_of(provider: Provider, requests: &Vec<PlannedRequest>) -> (r: String)
    ensures
        r@ == host_of_spec(provider, reqs_view(requests@)),
{
    let ghost rv = reqs_view(requests@);
    if provider == Provider::Gitlab {
        if requests.len() == 0 {
            return String::new();
        }
        assert(rv[0] == (requests@[0].method@, requests@[0].url@));
        return cut(&requests[0].url, "/api/v4/");
    }
    let mut i: usize = 0;
    while i < requests.len()
        invariant
            i <= requests@.len(),
            rv == reqs_view(requests@),
            provider != Provider::Gitlab,
            first_post(rv, 0) == first_post(rv, i as int),
        decreases requests.len() - i,
    {
        assert(rv[i as int] == (requests@[i as int].method@, requests@[i as int].url@));
        if str_eq(requests[i].method, "POST") {
            return cut(&requests[i].url, "/repos/");
        }
        i = i + 1;
    }
    String::new()
}

fn copy_source(s: &TokenSource) -> (r: TokenSource)
    ensures
        r.view() == s.view(),
{
    match s {
        TokenSource::Store => TokenSource::Store,
        TokenSource::Env(n) => TokenSource::Env(n),
        TokenSource::GhCli => TokenSource::GhCli,
    }
}

pub open spec fn source_view(s: Option<TokenSource>) -> Option<TokenSourceV> {
    match s {
        Some(t) => Some(t.view()),
        None => None,
    }
}

/// Assembles the dry-run plan from the requests the release chain would
/// send: the URLs with the token masked (`scrub_spec`), the API base read
/// back from them, the owner and repository, the `v` tag, the prerelease
/// flag and the notes. A missing `owner/repo` is a git error.
pub fn assemble_plan(
    provider: Provider,
    new_version: &str,
    markdown: &str,
    repo: Option<&str>,
    resolved: Option<&ResolvedToken>,
    requests: Vec<PlannedRequest>,
) -> (r: Result<ReleasePlan, ReleaseError>)
    ensures
        match owner_repo_spec(
            match repo {
                Some(x) => Some(x@),
                None => None,
            },
        ) {
            None => r is Err && r->Err_0.view() == ReleaseErrorV::Git(no_remote()),
            Some((o, n)) => r is Ok && ({
                let plan = r->Ok_0;
                let tok: Seq<char> = match resolved {
                    Some(t) => t.token@,
                    None => Seq::empty(),
                };
                &&& plan.provider == provider
                &&& source_view(plan.token_source) == match resolved {
                    Some(t) => Some(t.source.view()),
                    None => None,
                }
                &&& plan.owner@ == o
                &&& plan.repo@ == n
                &&& plan.tag_name@ == "v"@ + new_version@
                &&& plan.prerelease == is_prerelease_spec(new_version@)
                &&& plan.body@ == markdown@
                &&& plan.requests@.len() == requests@.len()
                &&& forall|i: int|
                    0 <= i < requests@.len() ==> (#[trigger] plan.requests@[i]).method
                        == requests@[i].method && plan.requests@[i].url@ == scrub_spec(
                        requests@[i].url@,
                        tok,
                    )
                &&& plan.host@ == host_of_spec(provider, reqs_view(plan.requests@))
            }),
        },
{
    let empty = String::new();
    let token: &str = match resolved {
        Some(t) => t.token.as_str(),
        None => empty.as_str(),
    };
    let (owner, name) = resolve_owner_repo(repo)?;
    let mut scrubbed: Vec<PlannedRequest> = Vec::new();
    let mut i: usize = 0;
    while i < requests.len()
        invariant
            i <= requests@.len(),
            scrubbed@.len() == i,
            token@ == match resolved {
                Some(t) => t.token@,
                None => Seq::<char>::empty(),
            },
            forall|k: int|
                0 <= k < i ==> (#[trigger] scrubbed@[k]).method == requests@[k].method
                    && scrubbed@[k].url@ == scrub_spec(requests@[k].url@, token@),
        decreases requests.len() - i,
    {
        let req = &requests[i];
        scrubbed.push(PlannedRequest { method: req.method, url: scrub_token(req.url.as_str(), token) });
        i = i + 1;
    }
    let host = host_of(provider, &scrubbed);
    let mut tag = lit("v");
    extend_str(&mut tag, new_version);
    let source = match resolved {
        Some(t) => Some(copy_source(&t.source)),
        None => None,
    };
    Ok(ReleasePlan {
        provider,
        token_source: source,
        host,
        owner,
        repo: name,
        tag_name: string_of(&tag),
        prerelease: is_prerelease(new_version),
        body: crate::text::owned(markdown),
        requests: scrubbed,
    })
}

/// The `gitlab.host` of one optional layer.
pub open spec fn layer_host(layer: Option<Seq<(String, crate::json::Json)>>) -> Result<Option<Seq<char>>, Seq<char>> {
    match layer {
        Some(m) => crate::config::gitlab_host_spec(m),
        None => Ok(None),
    }
}

/// The configured gitlab host: the overrides' over the file's; the first
/// malformed section's message.
pub open spec fn gitlab_host_resolved(
    document: Option<Seq<(String, crate::json::Json)>>,
    overrides: Option<Seq<(String, crate::json::Json)>>,
) -> Result<Option<Seq<char>>, Seq<char>> {
    match layer_host(document) {
        Err(e) => Err(e),
        Ok(d) => match layer_host(overrides) {
            Err(e) => Err(e),
            Ok(o) => Ok(if o is Some { o } else { d }),
        },
    }
}

pub open spec fn opt_obj(o: Option<&crate::json::JsonObject>) -> Option<Seq<(String, crate::json::Json)>> {
    match o {
        Some(m) => Some(m@),
        None => None,
    }
}

fn layer_host_exec(layer: Option<&crate::json::JsonObject>) -> (r: Result<Option<String>, ReleaseError>)
    ensures
        match layer_host(opt_obj(layer)) {
            Ok(h) => r is Ok && opt_string(r->Ok_0) == h,
            Err(m) => r matches Err(ReleaseError::Config { message }) && message@ == m,
        },
{
    match layer {
        None => Ok(None),
        Some(m) => match crate::config::gitlab_host_of(m) {
            Ok(h) => Ok(h),
            Err(e) => Err(ReleaseError::Config { message: crate::text::owned(e.message().as_str()) }),
        },
    }
}

pub open spec fn opt_string(o: Option<String>) -> Option<Seq<char>> {
    match o {
        Some(s) => Some(s@),
        None => None,
    }
}

/// The `gitlab.host` setting: that of the overrides, else that of the
/// configuration file; `None` when neither sets it; an error for a
/// malformed `gitlab` section.
pub fn resolve_gitlab_host(document: Option<&crate::json::JsonObject>, overrides: Option<&crate::json::JsonObject>) -> (r: Result<Option<String>, ReleaseError>)
    ensures
        match gitlab_host_resolved(opt_obj(document), opt_obj(overrides)) {
            Ok(h) => r is Ok && opt_string(r->Ok_0) == h,
            Err(m) => r matches Err(ReleaseError::Config { message }) && message@ == m,
        },
{
    let d = layer_host_exec(document)?;
    let o = layer_host_exec(overrides)?;
    match o {
        Some(h) => Ok(Some(h)),
        None => Ok(d),
    }
}

/// The host that gitlab releases go to, when none is configured.
pub open spec fn default_gitlab_host() -> Seq<char> {
    "https://gitlab.com"@
}

/// The gitlab host in effect: the configured one, else `https://gitlab.com`.
pub fn effective_host(document: Option<&crate::json::JsonObject>, overrides: Option<&crate::json::JsonObject>) -> (r: Result<String, ReleaseError>)
    ensures
        match gitlab_host_resolved(opt_obj(document), opt_obj(overrides)) {
            Ok(Some(h)) => r matches Ok(x) && x@ == h,
            Ok(None) => r matches Ok(x) && x@ == default_gitlab_host(),
            Err(m) => r matches Err(ReleaseError::Config { message }) && message@ == m,
        },
{
    match resolve_gitlab_host(document, overrides)? {
        Some(h) => Ok(h),
        None => Ok(crate::text::owned("https://gitlab.com")),
    }
}

/// The information line before a release: the repository's domain
/// (`unknown` when not known) and the platform.
pub open spec fn repo_info_spec(domain: Option<Seq<char>>, p: Provider) -> Seq<char> {
    "repo: domain "@ + match domain {
        Some(d) => d,
        None => "unknown"@,
    } + " ("@ + provider_display(p) + ")"@
}

/// The information line before a release (see `repo_info_spec`).
pub fn repo_info_line(domain: Option<&str>, provider: Provider) -> (r: String)
    ensures
        r@ == repo_info_spec(
            match domain {
                Some(d) => Some(d@),
                None => None,
            },
            provider,
        ),
{
    let mut m = crate::text::owned("repo: domain ");
    match domain {
        Some(d) => crate::text::push_str(&mut m, d),
        None => crate::text::push_str(&mut m, "unknown"),
    }
    crate::text::push_str(&mut m, " (");
    crate::text::push_str(&mut m, provider.display());
    crate::text::push_str(&mut m, ")");
    m
}

/// Where a release's request chain stands.
#[derive(Debug, Clone, Copy, PartialEq, Eq)]
pub enum ReleaseStage {
    /// Nothing sent yet.
    Start,
    /// The GitLab project lookup was sent.
    ProjectAsked,
    /// The release itself was posted.
    Posted,
}

/// What the release chain does next.
#[derive(Debug)]
pub enum ReleaseNext {
    /// Send this request and come back with its reply.
    Send(HttpCall),
    /// The release is created, or failed with this error.
    Done(Result<(), ReleaseError>),
}

/// The GitCode release request: POST to the releases endpoint with the
/// form-encoded token in the query and the GitHub-like body.
pub open spec fn is_gitcode_post(
    c: HttpCall,
    base: Seq<char>,
    o: Seq<char>,
    n: Seq<char>,
    token: Seq<char>,
    nv: Seq<char>,
    md: Seq<char>,
    branch: Seq<char>,
) -> bool {
    &&& c.method@ == "POST"@
    &&& c.url@ == releases_url_spec(base, o, n) + "?access_token="@ + form_encode(encode_utf8(token))
    &&& c.headers@.len() == 0
    &&& c.payload is Some
    &&& is_release_body(c.payload->0, nv, md, branch)
}

/// The GitLab project lookup request.
pub open spec fn is_gitlab_get(c: HttpCall, host: Seq<char>, o: Seq<char>, n: Seq<char>, token: Seq<char>) -> bool {
    &&& c.method@ == "GET"@
    &&& c.payload is None
    &&& c.headers@.len() == 1
    &&& c.headers@[0].0@ == "PRIVATE-TOKEN"@
    &&& c.headers@[0].1@ == token
    &&& c.url@ == host + "/api/v4/projects/"@ + form_encode(encode_utf8(o + "/"@ + n))
}

/// The GitLab release request to `url`.
pub open spec fn is_gitlab_post(c: HttpCall, url: Seq<char>, token: Seq<char>, nv: Seq<char>, md: Seq<char>) -> bool {
    &&& c.method@ == "POST"@
    &&& c.url@ == url
    &&& c.headers@.len() == 1
    &&& c.headers@[0].0@ == "PRIVATE-TOKEN"@
    &&& c.headers@[0].1@ == token
    &&& c.payload is Some
    &&& match c.payload->0 {
        ReleasePayload::Gitlab { name, tag_name, description } => name@ == nv && tag_name@ == "v"@ + nv
            && description@ == md,
        _ => false,
    }
}

/// One step of a GitCode or GitLab release (`base` is the API base URL, or
/// the GitLab host; `repo` the repository as `owner/repo`; `resp` the reply to the request
/// sent last). GitCode posts the release at once; GitLab first looks the
/// project up, then posts the release to it; the reply to the post decides
/// the outcome. Errors mask the token.
pub fn release_next(
    provider: Provider,
    base: &str,
    token: &str,
    new_version: &str,
    markdown: &str,
    repo: Option<&str>,
    branch: &str,
    stage: ReleaseStage,
    resp: Option<Result<HttpResponse, String>>,
) -> (r: (ReleaseStage, ReleaseNext))
    requires
        provider == Provider::Gitcode || provider == Provider::Gitlab,
        stage != ReleaseStage::Start ==> resp is Some,
        stage == ReleaseStage::ProjectAsked ==> provider == Provider::Gitlab,
    ensures
        stage == ReleaseStage::Start ==> match owner_repo_spec(
            match repo {
                Some(x) => Some(x@),
                None => None,
            },
        ) {
            None => (r.1 matches ReleaseNext::Done(Err(e)) && e.view() == ReleaseErrorV::Git(
                scrub_spec(no_remote(), token@),
            )),
            Some((o, n)) => if provider == Provider::Gitcode {
                r.0 == ReleaseStage::Posted && (r.1 matches ReleaseNext::Send(c) && is_gitcode_post(
                    c,
                    base@,
                    o,
                    n,
                    token@,
                    new_version@,
                    markdown@,
                    branch@,
                ))
            } else {
                r.0 == ReleaseStage::ProjectAsked && (r.1 matches ReleaseNext::Send(c) && is_gitlab_get(
                    c,
                    base@,
                    o,
                    n,
                    token@,
                ))
            },
        },
        stage == ReleaseStage::ProjectAsked ==> match gitlab_step_spec(base@, token, resp_view(resp->0)) {
            Err(e) => (r.1 matches ReleaseNext::Done(Err(x)) && x.view() == e),
            Ok(url) => r.0 == ReleaseStage::Posted && (r.1 matches ReleaseNext::Send(c) && is_gitlab_post(
                c,
                url,
                token@,
                new_version@,
                markdown@,
            )),
        },
        stage == ReleaseStage::Posted ==> (r.1 matches ReleaseNext::Done(x) && match post_outcome_spec(
            provider,
            token,
            resp_view(resp->0),
        ) {
            None => x is Ok,
            Some(m) => x is Err && x->Err_0.view() == ReleaseErrorV::Http(m),
        }),
{
    match stage {
        ReleaseStage::Start => {
            let call = if provider == Provider::Gitcode {
                create_with_base(base, token, new_version, markdown, repo, branch)
            } else {
                create_with_host(base, token, repo)
            };
            match call {
                Err(e) => (stage, ReleaseNext::Done(Err(e))),
                Ok(c) => {
                    let next = if provider == Provider::Gitcode {
                        ReleaseStage::Posted
                    } else {
                        ReleaseStage::ProjectAsked
                    };
                    (next, ReleaseNext::Send(c))
                },
            }
        },
        ReleaseStage::ProjectAsked => {
            let reply = match resp {
                Some(x) => x,
                None => Err(String::new()),
            };
            match gitlab_release_call(base, token, new_version, markdown, reply) {
                Err(e) => (stage, ReleaseNext::Done(Err(e))),
                Ok(c) => (ReleaseStage::Posted, ReleaseNext::Send(c)),
            }
        },
        ReleaseStage::Posted => {
            let reply = match resp {
                Some(x) => x,
                None => Err(String::new()),
            };
            (stage, ReleaseNext::Done(finish_post(provider, token, reply)))
        },
    }
}


/// Each provider reads its token from its own environment variables: with
/// nothing stored, GitHub takes `GH_TOKEN` (then `GITHUB_TOKEN`), GitLab
/// `GITLAB_TOKEN`, Gitee `GITEE_TOKEN`, GitCode `GITCODE_TOKEN`, when set to
/// a non-empty value, and names that variable as the source; and a provider
/// other than GitHub with none of its variables set finds no token, whatever
/// the other providers' variables hold.
pub proof fn law_token_from_own_env(
    host: Option<Seq<char>>,
    env: Map<Seq<char>, Seq<char>>,
    gh: Option<Seq<char>>,
)
    ensures
        env.contains_key("GITEE_TOKEN"@) && env["GITEE_TOKEN"@].len() > 0 ==> resolve_spec(
            Provider::Gitee,
            host,
            Map::empty(),
            env,
            gh,
        ) == Some((env["GITEE_TOKEN"@], TokenSourceV::Env("GITEE_TOKEN"@))),
        !(env.contains_key("GITEE_TOKEN"@) && env["GITEE_TOKEN"@].len() > 0) ==> resolve_spec(
            Provider::Gitee,
            host,
            Map::empty(),
            env,
            gh,
        ) is None,
        env.contains_key("GITCODE_TOKEN"@) && env["GITCODE_TOKEN"@].len() > 0 ==> resolve_spec(
            Provider::Gitcode,
            host,
            Map::empty(),
            env,
            gh,
        ) == Some((env["GITCODE_TOKEN"@], TokenSourceV::Env("GITCODE_TOKEN"@))),
        !(env.contains_key("GITCODE_TOKEN"@) && env["GITCODE_TOKEN"@].len() > 0) ==> resolve_spec(
            Provider::Gitcode,
            host,
            Map::empty(),
            env,
            gh,
        ) is None,
        env.contains_key("GITLAB_TOKEN"@) && env["GITLAB_TOKEN"@].len() > 0 ==> resolve_spec(
            Provider::Gitlab,
            host,
            Map::empty(),
            env,
            gh,
        ) == Some((env["GITLAB_TOKEN"@], TokenSourceV::Env("GITLAB_TOKEN"@))),
        !(env.contains_key("GITLAB_TOKEN"@) && env["GITLAB_TOKEN"@].len() > 0) ==> resolve_spec(
            Provider::Gitlab,
            host,
            Map::empty(),
            env,
            gh,
        ) is None,
        env.contains_key("GH_TOKEN"@) && env["GH_TOKEN"@].len() > 0 ==> resolve_spec(
            Provider::Github,
            host,
            Map::empty(),
            env,
            gh,
        ) == Some((env["GH_TOKEN"@], TokenSourceV::Env("GH_TOKEN"@))),
        !(env.contains_key("GH_TOKEN"@) && env["GH_TOKEN"@].len() > 0) && env.contains_key("GITHUB_TOKEN"@)
            && env["GITHUB_TOKEN"@].len() > 0 ==> resolve_spec(Provider::Github, host, Map::empty(), env, gh) == Some(
            (env["GITHUB_TOKEN"@], TokenSourceV::Env("GITHUB_TOKEN"@)),
        ),
{
    reveal_with_fuel(first_stored, 3);
    reveal_with_fuel(first_env, 3);
}

} // verus!
