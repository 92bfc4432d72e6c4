//! Token store: host-scoped keys, the in-memory token table, and the binary
//! layout of the encrypted store file
//! (`"VBTK"` | version 1 | iv (12 bytes) | auth tag (16 bytes) | ciphertext).
//!
//! Reading and writing the files, and turning the JSON text into a table,
//! happen at the edge; the table, the key scheme and the framing are here.

use vstd::prelude::*;
use crate::text::{
    ascii_lower, chars_of, contains_chars, contains_seq, extend_chars, extend_str, find_chars,
    find_from, first_eq_index, index_of_char, lit, lower_char, lower_chars, occurs_at, slice_chars, string_of,
    trim_chars, trim_spec,
};

verus! {

/// What can go wrong with tokens.
#[derive(Debug)]
pub enum TokenError {
    HomeDir { message: String },
    Io { message: String },
    Format { message: String },
    Crypto { message: String },
    Prompt { message: String },
    InvalidHost { message: String },
}

impl TokenError {
    pub open spec fn message_view(&self) -> Seq<char> {
        match self {
            TokenError::HomeDir { message } => message@,
            TokenError::Io { message } => message@,
            TokenError::Format { message } => message@,
            TokenError::Crypto { message } => message@,
            TokenError::Prompt { message } => message@,
            TokenError::InvalidHost { message } => message@,
        }
    }

    /// The user-facing text of the error.
    pub fn message(&self) -> (r: &String)
        ensures
            r@ == self.message_view(),
    {
        match self {
            TokenError::HomeDir { message } => message,
            TokenError::Io { message } => message,
            TokenError::Format { message } => message,
            TokenError::Crypto { message } => message,
            TokenError::Prompt { message } => message,
            TokenError::InvalidHost { message } => message,
        }
    }
}

/// `s` without its trailing `c` characters (`str::trim_end_matches`).
pub open spec fn strip_trailing(s: Seq<char>, c: char) -> Seq<char>
    decreases s.len(),
{
    if s.len() > 0 && s.last() == c {
        strip_trailing(s.drop_last(), c)
    } else {
        s
    }
}

/// The canonical base URL of a host, or the error message.
///
/// Trimmed; `https://` added when no scheme is given; the scheme must be
/// `http` or `https`; scheme and authority lower-cased (ASCII), the path kept
/// as written, trailing slashes dropped.
pub open spec fn normalize_host_spec(raw: Seq<char>) -> Result<Seq<char>, Seq<char>> {
    let t = trim_spec(raw);
    if t.len() == 0 {
        Err("host must not be empty"@)
    } else {
        let w = if contains_seq(t, "://"@) {
            t
        } else {
            "https://"@ + t
        };
        let k = find_from(w, "://"@, 0);
        let scheme = ascii_lower(w.subrange(0, k));
        let rest = w.subrange(k + 3, w.len() as int);
        if scheme != "http"@ && scheme != "https"@ {
            Err("unsupported host scheme: "@ + scheme + " (expected http or https)"@)
        } else {
            let j = index_of_char(rest, '/');
            let authority = if j < 0 {
                rest
            } else {
                rest.subrange(0, j)
            };
            let path = if j < 0 {
                Seq::empty()
            } else {
                rest.subrange(j, rest.len() as int)
            };
            if authority.len() == 0 {
                Err("invalid host: "@ + raw + " (missing host name)"@)
            } else {
                Ok(scheme + "://"@ + ascii_lower(authority) + strip_trailing(path, '/'))
            }
        }
    }
}

proof fn lemma_index_of_char_bound(s: Seq<char>, c: char)
    ensures
        -1 <= index_of_char(s, c) < s.len(),
        index_of_char(s, c) >= 0 ==> s[index_of_char(s, c)] == c,
        forall|i: int| 0 <= i < (if index_of_char(s, c) < 0 { s.len() as int } else { index_of_char(s, c) }) ==> s[i] != c,
    decreases s.len(),
{
    if s.len() > 0 && s[0] != c {
        lemma_index_of_char_bound(s.drop_first(), c);
        assert forall|i: int| 1 <= i < (if index_of_char(s, c) < 0 { s.len() as int } else { index_of_char(s, c) }) implies s[i] != c by {
            assert(s[i] == s.drop_first()[i - 1]);
        }
    }
}

fn strip_trailing_exec(v: &Vec<char>, c: char) -> (r: Vec<char>)
    ensures
        r@ == strip_trailing(v@, c),
{
    let mut n = v.len();
    assert(v@.subrange(0, n as int) =~= v@);
    while n > 0 && v[n - 1] == c
        invariant
            n <= v.len(),
            strip_trailing(v@, c) == strip_trailing(v@.subrange(0, n as int), c),
        decreases n,
    {
        assert(v@.subrange(0, n as int).drop_last() =~= v@.subrange(0, n - 1));
        n = n - 1;
    }
    slice_chars(v, 0, n)
}

fn invalid_host(message: Vec<char>) -> (e: TokenError)
    ensures
        e is InvalidHost,
        e.message_view() == message@,
{
    TokenError::InvalidHost { message: string_of(&message) }
}

/// Canonical base URL of a host (see `normalize_host_spec`).
pub fn normalize_host(raw: &str) -> (r: Result<String, TokenError>)
    ensures
        match normalize_host_spec(raw@) {
            Ok(h) => r is Ok && r->Ok_0@ == h,
            Err(m) => r is Err && r->Err_0 is InvalidHost && r->Err_0.message_view() == m,
        },
{
    let rv = chars_of(raw);
    let t = trim_chars(&rv);
    if t.len() == 0 {
        return Err(invalid_host(lit("host must not be empty")));
    }
    let sep = lit("://");
    let w = if contains_chars(&t, &sep) {
        t
    } else {
        let mut w = lit("https://");
        extend_chars(&mut w, &t);
        proof {
            reveal_strlit("https://");
            reveal_strlit("://");
            assert(w@.subrange(5, 8) =~= "://"@);
            assert(occurs_at(w@, "://"@, 5));
            crate::text::lemma_find_from(w@, "://"@, 0);
        }
        w
    };
    let k = match find_chars(&w, &sep, 0) {
        Some(k) => k,
        None => {
            proof {
                if !contains_seq(t@, "://"@) {
                    crate::text::lemma_find_from(w@, "://"@, 0);
                    assert(occurs_at(w@, "://"@, 5));
                }
            }
            return Err(invalid_host(lit("host must not be empty")));
        },
    };
    proof {
        crate::text::lemma_find_from(w@, "://"@, 0);
        reveal_strlit("://");
    }
    let scheme = lower_chars(&slice_chars(&w, 0, k));
    let rest = slice_chars(&w, k + 3, w.len());
    let http = lit("http");
    let https = lit("https");
    if !crate::text::chars_eq(&scheme, &http) && !crate::text::chars_eq(&scheme, &https) {
        let mut m = lit("unsupported host scheme: ");
        extend_chars(&mut m, &scheme);
        extend_str(&mut m, " (expected http or https)");
        return Err(invalid_host(m));
    }
    proof {
        lemma_index_of_char_bound(rest@, '/');
    }
    let (authority, path) = match first_eq_index(&rest, '/') {
        Some(j) => (slice_chars(&rest, 0, j), slice_chars(&rest, j, rest.len())),
        None => (rest, Vec::new()),
    };
    if authority.len() == 0 {
        let mut m = lit("invalid host: ");
        extend_str(&mut m, raw);
        extend_str(&mut m, " (missing host name)");
        return Err(invalid_host(m));
    }
    let mut out = scheme;
    extend_str(&mut out, "://");
    extend_chars(&mut out, &lower_chars(&authority));
    extend_chars(&mut out, &strip_trailing_exec(&path, '/'));
    Ok(string_of(&out))
}

/// The host-scoped key `provider@<canonical host>`.
pub open spec fn host_scoped_key_spec(provider: Seq<char>, raw_host: Seq<char>) -> Result<
    Seq<char>,
    Seq<char>,
> {
    match normalize_host_spec(raw_host) {
        Ok(h) => Ok(provider + "@"@ + h),
        Err(m) => Err(m),
    }
}

/// The host-scoped key of a provider: `provider@<canonical host>`.
pub fn host_scoped_key(provider: &str, raw_host: &str) -> (r: Result<String, TokenError>)
    ensures
        match host_scoped_key_spec(provider@, raw_host@) {
            Ok(k) => r is Ok && r->Ok_0@ == k,
            Err(m) => r is Err && r->Err_0 is InvalidHost && r->Err_0.message_view() == m,
        },
{
    let host = normalize_host(raw_host)?;
    let mut k = chars_of(provider);
    k.push('@');
    extend_str(&mut k, host.as_str());
    proof {
        reveal_strlit("@");
        assert(k@ =~= provider@ + "@"@ + host@);
    }
    Ok(string_of(&k))
}

/// How a key reads: a host-scoped key is `(provider, Some(host))`; any other
/// key (also one whose part after `@` has no scheme) is `(key, None)`.
pub open spec fn split_key_spec(key: Seq<char>) -> (Seq<char>, Option<Seq<char>>) {
    let j = index_of_char(key, '@');
    if j >= 0 && contains_seq(key.subrange(j + 1, key.len() as int), "://"@) {
        (key.subrange(0, j), Some(key.subrange(j + 1, key.len() as int)))
    } else {
        (key, None)
    }
}

/// Splits a store key into provider and host (see `split_key_spec`).
pub fn split_key(key: &str) -> (r: (String, Option<String>))
    ensures
        r.0@ == split_key_spec(key@).0,
        match split_key_spec(key@).1 {
            Some(h) => r.1 is Some && r.1->0@ == h,
            None => r.1 is None,
        },
{
    let v = chars_of(key);
    proof {
        lemma_index_of_char_bound(v@, '@');
    }
    match first_eq_index(&v, '@') {
        Some(j) => {
            let host = slice_chars(&v, j + 1, v.len());
            if contains_chars(&host, &lit("://")) {
                (string_of(&slice_chars(&v, 0, j)), Some(string_of(&host)))
            } else {
                (string_of(&v), None)
            }
        },
        None => (string_of(&v), None),
    }
}

/// The friendly form of a key: `gitlab` or `gitlab (https://gitlab-a.com)`.
pub open spec fn display_key_spec(key: Seq<char>) -> Seq<char> {
    match split_key_spec(key) {
        (p, Some(h)) => p + " ("@ + h + ")"@,
        _ => key,
    }
}

/// The friendly form of a key (see `display_key_spec`).
pub fn display_key(key: &str) -> (r: String)
    ensures
        r@ == display_key_spec(key@),
{
    let (p, h) = split_key(key);
    match h {
        Some(h) => {
            let mut m = chars_of(p.as_str());
            extend_str(&mut m, " (");
            extend_str(&mut m, h.as_str());
            extend_str(&mut m, ")");
            string_of(&m)
        },
        None => crate::text::owned(key),
    }
}


proof fn lemma_index_of_char_concat(a: Seq<char>, b: Seq<char>, c: char)
    requires
        !a.contains(c),
    ensures
        index_of_char(a + b, c) == if index_of_char(b, c) < 0 {
            -1
        } else {
            index_of_char(b, c) + a.len()
        },
    decreases a.len(),
{
    if a.len() > 0 {
        assert((a + b).drop_first() =~= a.drop_first() + b);
        assert(a[0] != c) by {
            if a[0] == c {
                assert(a.contains(c));
            }
        }
        assert(!a.drop_first().contains(c)) by {
            if a.drop_first().contains(c) {
                let i = choose|i: int| 0 <= i < a.drop_first().len() && a.drop_first()[i] == c;
                assert(a[i + 1] == c);
            }
        }
        lemma_index_of_char_concat(a.drop_first(), b, c);
    } else {
        assert(a + b =~= b);
    }
}

proof fn lemma_occurs_found(s: Seq<char>, p: Seq<char>, m: int)
    requires
        occurs_at(s, p, m),
    ensures
        0 <= find_from(s, p, 0) <= m,
{
    crate::text::lemma_find_from(s, p, 0);
}

proof fn lemma_first_occurrence(s: Seq<char>, p: Seq<char>, m: int)
    requires
        occurs_at(s, p, m),
        forall|i: int| 0 <= i < m ==> !#[trigger] occurs_at(s, p, i),
    ensures
        find_from(s, p, 0) == m,
{
    crate::text::lemma_find_from(s, p, 0);
    lemma_occurs_found(s, p, m);
}

/// A provider name without `@` and a host that normalizes: the scoped key
/// splits back into that provider and the canonical host.
pub proof fn law_split_undoes_scoped_key(provider: Seq<char>, raw_host: Seq<char>)
    requires
        !provider.contains('@'),
        normalize_host_spec(raw_host) is Ok,
    ensures
        split_key_spec(host_scoped_key_spec(provider, raw_host)->Ok_0) == (
            provider,
            Some(normalize_host_spec(raw_host)->Ok_0),
        ),
{
    let h = normalize_host_spec(raw_host)->Ok_0;
    let key = provider + "@"@ + h;
    reveal_strlit("@");
    reveal_strlit("://");
    assert(key =~= provider + (seq!['@'] + h));
    lemma_index_of_char_concat(provider, seq!['@'] + h, '@');
    assert((seq!['@'] + h)[0] == '@');
    assert(index_of_char(seq!['@'] + h, '@') == 0);
    let j = provider.len() as int;
    assert(key.subrange(0, j) =~= provider);
    assert(key.subrange(j + 1, key.len() as int) =~= h);
    // the canonical host holds `://` right after its scheme
    let t = trim_spec(raw_host);
    let w = if contains_seq(t, "://"@) { t } else { "https://"@ + t };
    let k = find_from(w, "://"@, 0);
    let scheme = ascii_lower(w.subrange(0, k));
    let n = scheme.len() as int;
    assert(h.subrange(n, n + 3) =~= "://"@);
    assert(occurs_at(h, "://"@, n));
    lemma_occurs_found(h, "://"@, n);
}


proof fn lemma_lower_char(c: char)
    ensures
        lower_char(lower_char(c)) == lower_char(c),
        lower_char(c) == '/' <==> c == '/',
        lower_char(c) == ':' <==> c == ':',
        (lower_char(c) as u32) >= (c as u32),
{
}

proof fn lemma_ascii_lower_idem(s: Seq<char>)
    ensures
        ascii_lower(ascii_lower(s)) == ascii_lower(s),
        ascii_lower(s).len() == s.len(),
        !s.contains('/') ==> !ascii_lower(s).contains('/'),
{
    assert forall|i: int| 0 <= i < s.len() implies #[trigger] ascii_lower(ascii_lower(s))[i]
        == ascii_lower(s)[i] by {
        lemma_lower_char(s[i]);
    }
    assert(ascii_lower(ascii_lower(s)) =~= ascii_lower(s));
    if ascii_lower(s).contains('/') {
        let i = choose|i: int| 0 <= i < ascii_lower(s).len() && ascii_lower(s)[i] == '/';
        lemma_lower_char(s[i]);
        assert(s.contains('/'));
    }
}

proof fn lemma_strip_trailing(s: Seq<char>, c: char)
    ensures
        strip_trailing(s, c).len() <= s.len(),
        strip_trailing(s, c) == s.subrange(0, strip_trailing(s, c).len() as int),
        strip_trailing(s, c).len() > 0 ==> strip_trailing(s, c).last() != c,
        strip_trailing(strip_trailing(s, c), c) == strip_trailing(s, c),
    decreases s.len(),
{
    if s.len() > 0 && s.last() == c {
        lemma_strip_trailing(s.drop_last(), c);
        let r = strip_trailing(s.drop_last(), c);
        assert(s.drop_last().subrange(0, r.len() as int) =~= s.subrange(0, r.len() as int));
    } else {
        assert(s.subrange(0, s.len() as int) =~= s);
    }
}


/// A canonical host that has no white space at either end normalizes to itself.
pub proof fn law_normalize_host_idempotent(raw: Seq<char>)
    requires
        normalize_host_spec(raw) is Ok,
        trim_spec(normalize_host_spec(raw)->Ok_0) == normalize_host_spec(raw)->Ok_0,
    ensures
        normalize_host_spec(normalize_host_spec(raw)->Ok_0) == normalize_host_spec(raw),
{
    reveal_strlit("://");
    reveal_strlit("http");
    reveal_strlit("https");
    reveal_strlit("https://");
    let h = normalize_host_spec(raw)->Ok_0;
    let t = trim_spec(raw);
    let w = if contains_seq(t, "://"@) { t } else { "https://"@ + t };
    let k = find_from(w, "://"@, 0);
    let scheme = ascii_lower(w.subrange(0, k));
    let rest = w.subrange(k + 3, w.len() as int);
    let j = index_of_char(rest, '/');
    lemma_index_of_char_bound(rest, '/');
    let authority = if j < 0 { rest } else { rest.subrange(0, j) };
    let path = if j < 0 { Seq::<char>::empty() } else { rest.subrange(j, rest.len() as int) };
    let la = ascii_lower(authority);
    let sp = strip_trailing(path, '/');
    assert(h == scheme + "://"@ + la + sp);
    let n = scheme.len() as int;
    // `://` first occurs right after the scheme
    assert(h.subrange(n, n + 3) =~= "://"@);
    assert forall|i: int| 0 <= i < n implies !#[trigger] occurs_at(h, "://"@, i) by {
        assert(h[i] == scheme[i]);
        if occurs_at(h, "://"@, i) {
            assert(h.subrange(i, i + 3)[0] == ':');
        }
    }
    lemma_first_occurrence(h, "://"@, n);
    assert(h.subrange(0, n) =~= scheme);
    lemma_ascii_lower_idem(w.subrange(0, k));
    let rest2 = h.subrange(n + 3, h.len() as int);
    assert(rest2 =~= la + sp);
    // the authority has no `/`
    assert(!authority.contains('/')) by {
        if authority.contains('/') {
            let i = choose|i: int| 0 <= i < authority.len() && authority[i] == '/';
            assert(rest[i] == '/');
        }
    }
    lemma_ascii_lower_idem(authority);
    lemma_index_of_char_concat(la, sp, '/');
    lemma_strip_trailing(path, '/');
    if sp.len() > 0 {
        assert(sp[0] == path[0]);
        assert(path[0] == rest[j]);
        assert(index_of_char(sp, '/') == 0);
        assert(rest2.subrange(0, la.len() as int) =~= la);
        assert(rest2.subrange(la.len() as int, rest2.len() as int) =~= sp);
    } else {
        assert(index_of_char(sp, '/') == -1);
        assert(rest2 =~= la);
    }
    assert(contains_seq(h, "://"@));
}

/// Callers need not normalize a host themselves: a raw host and its
/// canonical form (when that has no white space at either end) give the
/// same scoped key.
pub proof fn law_scoped_key_ignores_normalizing(provider: Seq<char>, raw: Seq<char>)
    requires
        normalize_host_spec(raw) is Ok,
        trim_spec(normalize_host_spec(raw)->Ok_0) == normalize_host_spec(raw)->Ok_0,
    ensures
        host_scoped_key_spec(provider, normalize_host_spec(raw)->Ok_0) == host_scoped_key_spec(provider, raw),
{
    law_normalize_host_idempotent(raw);
}

} // verus!
