//! The token table (key → token, keys in ascending order, each once) and
//! the decisions taken on it: what `token set` stores, what `token remove`
//! leaves behind.

use vstd::prelude::*;
use crate::order::{lemma_lex_irreflexive, lemma_lex_total, lemma_lex_transitive, lex_less, lex_lt, strictly_sorted};
use crate::text::{str_eq, string_of};

verus! {

/// A string-keyed table of strings (the token store, flag values). Keys are
/// distinct and kept in ascending order, as in a `BTreeMap`.
#[derive(Debug)]
pub struct StrMap {
    entries: Vec<(String, String)>,
}

/// The map that a list of distinct-keyed pairs stands for.
pub open spec fn pairs_map(s: Seq<(String, String)>) -> Map<Seq<char>, Seq<char>>
    decreases s.len(),
{
    if s.len() == 0 {
        Map::empty()
    } else {
        pairs_map(s.drop_last()).insert(s.last().0@, s.last().1@)
    }
}

pub open spec fn keys_distinct(s: Seq<(String, String)>) -> bool {
    forall|i: int, j: int| 0 <= i < j < s.len() ==> #[trigger] s[i].0@ != #[trigger] s[j].0@
}

pub open spec fn pair_keys(s: Seq<(String, String)>) -> Seq<Seq<char>> {
    s.map_values(|p: (String, String)| p.0@)
}

proof fn lemma_pairs_map(s: Seq<(String, String)>)
    requires
        keys_distinct(s),
    ensures
        forall|i: int| 0 <= i < s.len() ==> #[trigger] pairs_map(s).contains_key(s[i].0@)
            && pairs_map(s)[s[i].0@] == s[i].1@,
        forall|k: Seq<char>| #[trigger]
            pairs_map(s).contains_key(k) ==> exists|i: int| 0 <= i < s.len() && s[i].0@ == k,
    decreases s.len(),
{
    if s.len() > 0 {
        let t = s.drop_last();
        assert(keys_distinct(t));
        lemma_pairs_map(t);
        assert forall|k: Seq<char>| #[trigger]
            pairs_map(s).contains_key(k) implies exists|i: int| 0 <= i < s.len() && s[i].0@ == k by {
            if k != s.last().0@ {
                assert(pairs_map(t).contains_key(k));
                let i = choose|i: int| 0 <= i < t.len() && t[i].0@ == k;
                assert(s[i].0@ == k);
            } else {
                assert(s[s.len() - 1].0@ == k);
            }
        }
        assert forall|i: int| 0 <= i < s.len() implies #[trigger] pairs_map(s).contains_key(s[i].0@)
            && pairs_map(s)[s[i].0@] == s[i].1@ by {
            if i < s.len() - 1 {
                assert(t[i] == s[i]);
                assert(s[i].0@ != s[s.len() - 1].0@);
            }
        }
    }
}

proof fn lemma_pairs_map_absent(s: Seq<(String, String)>, k: Seq<char>)
    requires
        forall|i: int| 0 <= i < s.len() ==> #[trigger] s[i].0@ != k,
    ensures
        !pairs_map(s).contains_key(k),
    decreases s.len(),
{
    if s.len() > 0 {
        lemma_pairs_map_absent(s.drop_last(), k);
    }
}

proof fn lemma_pairs_map_update(s: Seq<(String, String)>, i: int, v: String)
    requires
        keys_distinct(s),
        0 <= i < s.len(),
    ensures
        pairs_map(s.update(i, (s[i].0, v))) == pairs_map(s).insert(s[i].0@, v@),
        keys_distinct(s.update(i, (s[i].0, v))),
{
    let u = s.update(i, (s[i].0, v));
    assert(keys_distinct(u));
    lemma_pairs_map(s);
    lemma_pairs_map(u);
    let a = pairs_map(u);
    let b = pairs_map(s).insert(s[i].0@, v@);
    assert forall|k: Seq<char>| a.contains_key(k) <==> b.contains_key(k) by {
        if a.contains_key(k) {
            let j = choose|j: int| 0 <= j < u.len() && u[j].0@ == k;
            assert(pairs_map(s).contains_key(s[j].0@));
        }
        if b.contains_key(k) && k != s[i].0@ {
            let j = choose|j: int| 0 <= j < s.len() && s[j].0@ == k;
            assert(a.contains_key(u[j].0@));
        }
        if k == s[i].0@ {
            assert(a.contains_key(u[i].0@));
        }
    }
    assert forall|k: Seq<char>| a.contains_key(k) implies a[k] == b[k] by {
        let j = choose|j: int| 0 <= j < u.len() && u[j].0@ == k;
        if j != i {
            assert(u[j] == s[j]);
        }
    }
    assert(a =~= b);
}

proof fn lemma_pairs_map_remove(s: Seq<(String, String)>, i: int)
    requires
        keys_distinct(s),
        0 <= i < s.len(),
    ensures
        pairs_map(s.remove(i)) == pairs_map(s).remove(s[i].0@),
        keys_distinct(s.remove(i)),
{
    let u = s.remove(i);
    assert forall|a: int, b: int| 0 <= a < b < u.len() implies #[trigger] u[a].0@ != #[trigger] u[b].0@ by {
        let a2 = if a < i { a } else { a + 1 };
        let b2 = if b < i { b } else { b + 1 };
        assert(u[a] == s[a2]);
        assert(u[b] == s[b2]);
    }
    lemma_pairs_map(s);
    lemma_pairs_map(u);
    let x = pairs_map(u);
    let y = pairs_map(s).remove(s[i].0@);
    assert forall|k: Seq<char>| x.contains_key(k) <==> y.contains_key(k) by {
        if x.contains_key(k) {
            let j = choose|j: int| 0 <= j < u.len() && u[j].0@ == k;
            let j2 = if j < i { j } else { j + 1 };
            assert(u[j] == s[j2]);
            assert(pairs_map(s).contains_key(s[j2].0@));
        }
        if y.contains_key(k) {
            let j = choose|j: int| 0 <= j < s.len() && s[j].0@ == k;
            assert(j != i);
            let j2 = if j < i { j } else { j - 1 };
            assert(u[j2] == s[j]);
            assert(x.contains_key(u[j2].0@));
        }
    }
    assert forall|k: Seq<char>| x.contains_key(k) implies x[k] == y[k] by {
        let j = choose|j: int| 0 <= j < u.len() && u[j].0@ == k;
        let j2 = if j < i { j } else { j + 1 };
        assert(u[j] == s[j2]);
    }
    assert(x =~= y);
}

impl StrMap {
    #[verifier::type_invariant]
    spec fn distinct(&self) -> bool {
        &&& keys_distinct(self.entries@)
        &&& strictly_sorted(pair_keys(self.entries@))
    }

    /// The table as a map from key to token.
    pub closed spec fn view(&self) -> Map<Seq<char>, Seq<char>> {
        pairs_map(self.entries@)
    }

    /// The keys in ascending order.
    pub closed spec fn key_order(&self) -> Seq<Seq<char>> {
        pair_keys(self.entries@)
    }

    /// An empty table.
    pub fn new() -> (m: Self)
        ensures
            m@ == Map::<Seq<char>, Seq<char>>::empty(),
            m.key_order().len() == 0,
    {
        StrMap { entries: Vec::new() }
    }

    fn position(&self, key: &str) -> (r: Option<usize>)
        ensures
            match r {
                Some(i) => i < self.entries@.len() && self.entries@[i as int].0@ == key@,
                None => forall|i: int|
                    0 <= i < self.entries@.len() ==> #[trigger] self.entries@[i].0@ != key@,
            },
    {
        let mut i: usize = 0;
        while i < self.entries.len()
            invariant
                i <= self.entries@.len(),
                forall|j: int| 0 <= j < i ==> #[trigger] self.entries@[j].0@ != key@,
            decreases self.entries.len() - i,
        {
            if str_eq(self.entries[i].0.as_str(), key) {
                return Some(i);
            }
            i = i + 1;
        }
        None
    }

    /// The token stored under `key`.
    pub fn get(&self, key: &str) -> (r: Option<String>)
        ensures
            match r {
                Some(t) => self@.contains_key(key@) && self@[key@] == t@,
                None => !self@.contains_key(key@),
            },
    {
        proof {
            use_type_invariant(self);
            lemma_pairs_map(self.entries@);
        }
        match self.position(key) {
            Some(i) => {
                let t = self.entries[i].1.clone();
                assert(self@.contains_key(self.entries@[i as int].0@));
                Some(t)
            },
            None => {
                proof {
                    lemma_pairs_map_absent(self.entries@, key@);
                }
                None
            },
        }
    }

    /// Whether a token is stored under `key`.
    pub fn contains_key(&self, key: &str) -> (r: bool)
        ensures
            r == self@.contains_key(key@),
    {
        self.get(key).is_some()
    }

    /// Stores `token` under `key`, replacing an earlier token in place; a
    /// new key goes to its place in the order.
    pub fn insert(&mut self, key: String, token: String)
        ensures
            final(self)@ == old(self)@.insert(key@, token@),
            strictly_sorted(final(self).key_order()),
    {
        proof {
            use_type_invariant(&*self);
            lemma_pairs_map(self.entries@);
        }
        let ghost s = self.entries@;
        let mut j: usize = 0;
        while j < self.entries.len() && lex_less(self.entries[j].0.as_str(), key.as_str())
            invariant
                j <= self.entries@.len(),
                self.entries@ == s,
                forall|k: int| 0 <= k < j ==> lex_lt(#[trigger] s[k].0@, key@),
            decreases self.entries.len() - j,
        {
            j = j + 1;
        }
        proof {
            assert forall|k: int| j <= k < s.len() implies !lex_lt(#[trigger] s[k].0@, key@) by {
                lemma_lex_total(s[j as int].0@, key@);
                if k > j {
                    assert(lex_lt(pair_keys(s)[j as int], pair_keys(s)[k]));
                    if lex_lt(s[k].0@, key@) {
                        lemma_lex_transitive(s[j as int].0@, s[k].0@, key@);
                        lemma_lex_total(s[j as int].0@, key@);
                    }
                }
            }
        }
        if j < self.entries.len() && str_eq(self.entries[j].0.as_str(), key.as_str()) {
            let k = self.entries[j].0.clone();
            proof {
                lemma_pairs_map_update(s, j as int, token);
            }
            let mut e: Vec<(String, String)> = Vec::new();
            std::mem::swap(&mut e, &mut self.entries);
            e.set(j, (k, token));
            assert(e@ == s.update(j as int, (s[j as int].0, token)));
            assert(pair_keys(e@) =~= pair_keys(s));
            self.entries = e;
        } else {
            proof {
                assert forall|k: int| 0 <= k < s.len() implies #[trigger] s[k].0@ != key@ by {
                    if k < j {
                        lemma_lex_irreflexive(key@);
                    } else if k == j {
                    } else {
                        assert(lex_lt(pair_keys(s)[j as int], pair_keys(s)[k]));
                        lemma_lex_total(s[j as int].0@, key@);
                        if s[k].0@ == key@ {
                            lemma_lex_total(s[j as int].0@, s[k].0@);
                        }
                    }
                }
                lemma_pairs_map_absent(s, key@);
            }
            let ghost kv = key@;
            let mut e: Vec<(String, String)> = Vec::new();
            std::mem::swap(&mut e, &mut self.entries);
            e.insert(j, (key, token));
            let ghost t = e@;
            proof {
                assert(t == s.insert(j as int, t[j as int]));
                assert(pair_keys(t) =~= pair_keys(s).insert(j as int, kv));
                assert forall|a: int, b: int| 0 <= a < b < t.len() implies #[trigger] t[a].0@ != #[trigger] t[b].0@ by {
                    if a == j as int || b == j as int {
                        let o = if a == j as int { b } else { a };
                        let o2 = if o < j { o } else { o - 1 };
                        assert(t[o] == s[o2]);
                    } else {
                        let a2 = if a < j { a } else { a - 1 };
                        let b2 = if b < j { b } else { b - 1 };
                        assert(t[a] == s[a2] && t[b] == s[b2]);
                    }
                }
                let pk = pair_keys(t);
                assert forall|a: int, b: int| 0 <= a < b < pk.len() implies lex_lt(#[trigger] pk[a], #[trigger] pk[b]) by {
                    let ps = pair_keys(s);
                    if a < j && b < j {
                        assert(pk[a] == ps[a] && pk[b] == ps[b]);
                    } else if a < j && b == j {
                        assert(pk[a] == s[a].0@);
                    } else if a < j && b > j {
                        assert(pk[a] == ps[a] && pk[b] == ps[b - 1]);
                    } else if a == j {
                        assert(pk[b] == s[b - 1].0@);
                        lemma_lex_total(s[b - 1].0@, kv);
                    } else {
                        assert(pk[a] == ps[a - 1] && pk[b] == ps[b - 1]);
                    }
                }
                lemma_pairs_map(t);
                let x = pairs_map(t);
                let y = pairs_map(s).insert(kv, t[j as int].1@);
                assert forall|k: Seq<char>| x.contains_key(k) <==> y.contains_key(k) by {
                    if x.contains_key(k) {
                        let i = choose|i: int| 0 <= i < t.len() && t[i].0@ == k;
                        if i != j as int {
                            let i2 = if i < j { i } else { i - 1 };
                            assert(t[i] == s[i2]);
                            assert(pairs_map(s).contains_key(s[i2].0@));
                        }
                    }
                    if y.contains_key(k) && k != kv {
                        let i = choose|i: int| 0 <= i < s.len() && s[i].0@ == k;
                        let i2 = if i < j { i } else { i + 1 };
                        assert(t[i2] == s[i]);
                        assert(x.contains_key(t[i2].0@));
                    }
                    if k == kv {
                        assert(x.contains_key(t[j as int].0@));
                    }
                }
                assert forall|k: Seq<char>| x.contains_key(k) implies x[k] == y[k] by {
                    let i = choose|i: int| 0 <= i < t.len() && t[i].0@ == k;
                    if i != j as int {
                        let i2 = if i < j { i } else { i - 1 };
                        assert(t[i] == s[i2]);
                        assert(pairs_map(s).contains_key(s[i2].0@));
                    }
                }
                assert(x =~= y);
            }
            self.entries = e;
        }
    }

    /// Removes the token under `key`; returns it if there was one.
    pub fn remove(&mut self, key: &str) -> (r: Option<String>)
        ensures
            final(self)@ == old(self)@.remove(key@),
            match r {
                Some(t) => old(self)@.contains_key(key@) && old(self)@[key@] == t@,
                None => !old(self)@.contains_key(key@),
            },
    {
        proof {
            use_type_invariant(&*self);
            lemma_pairs_map(self.entries@);
        }
        match self.position(key) {
            Some(i) => {
                let ghost s = self.entries@;
                proof {
                    lemma_pairs_map_remove(s, i as int);
                }
                let mut e: Vec<(String, String)> = Vec::new();
                std::mem::swap(&mut e, &mut self.entries);
                let (_, t) = e.remove(i);
                proof {
                    assert(e@ == s.remove(i as int));
                    assert(t == s[i as int].1);
                    assert(pairs_map(s).contains_key(s[i as int].0@));
                    let pk = pair_keys(e@);
                    let ps = pair_keys(s);
                    assert forall|a: int, b: int| 0 <= a < b < pk.len() implies lex_lt(#[trigger] pk[a], #[trigger] pk[b]) by {
                        let a2 = if a < i { a } else { a + 1 };
                        let b2 = if b < i { b } else { b + 1 };
                        assert(pk[a] == ps[a2] && pk[b] == ps[b2]);
                    }
                }
                self.entries = e;
                Some(t)
            },
            None => {
                proof {
                    lemma_pairs_map_absent(self.entries@, key@);
                    assert(self@.remove(key@) =~= self@);
                }
                None
            },
        }
    }

    /// No token is stored.
    pub fn is_empty(&self) -> (r: bool)
        ensures
            r == (self@ == Map::<Seq<char>, Seq<char>>::empty()),
    {
        proof {
            use_type_invariant(self);
            lemma_pairs_map(self.entries@);
        }
        if self.entries.len() == 0 {
            true
        } else {
            assert(self@.contains_key(self.entries@[0].0@));
            false
        }
    }

    /// The keys, in ascending order.
    pub fn keys(&self) -> (r: Vec<String>)
        ensures
            crate::cli::parse::texts(r@) == self.key_order(),
            strictly_sorted(self.key_order()),
            self.key_order().no_duplicates(),
            forall|k: Seq<char>| self@.contains_key(k) <==> self.key_order().contains(k),
    {
        proof {
            use_type_invariant(self);
            lemma_pairs_map(self.entries@);
            let ks = self.key_order();
            assert forall|k: Seq<char>| self@.contains_key(k) <==> ks.contains(k) by {
                if self@.contains_key(k) {
                    let i = choose|i: int| 0 <= i < self.entries@.len() && self.entries@[i].0@ == k;
                    assert(ks[i] == k);
                }
                if ks.contains(k) {
                    let i = choose|i: int| 0 <= i < ks.len() && ks[i] == k;
                    assert(self@.contains_key(self.entries@[i].0@));
                }
            }
        }
        let mut r: Vec<String> = Vec::new();
        let mut i: usize = 0;
        while i < self.entries.len()
            invariant
                i <= self.entries@.len(),
                crate::cli::parse::texts(r@) == pair_keys(self.entries@).subrange(0, i as int),
            decreases self.entries.len() - i,
        {
            let k = self.entries[i].0.clone();
            let ghost before = r@;
            r.push(k);
            assert(r@ == before.push(k));
            assert(crate::cli::parse::texts(r@) =~= crate::cli::parse::texts(before).push(k@));
            assert(crate::cli::parse::texts(r@) =~= pair_keys(self.entries@).subrange(0, i + 1));
            i = i + 1;
        }
        assert(pair_keys(self.entries@).subrange(0, i as int) =~= pair_keys(self.entries@));
        r
    }

    /// The (key, token) pairs, in ascending key order.
    pub fn pairs(&self) -> (r: Vec<(String, String)>)
        ensures
            pair_keys(r@) == self.key_order(),
            pairs_map(r@) == self@,
    {
        let mut r: Vec<(String, String)> = Vec::new();
        let mut i: usize = 0;
        while i < self.entries.len()
            invariant
                i <= self.entries@.len(),
                r@ == self.entries@.subrange(0, i as int),
            decreases self.entries.len() - i,
        {
            let p = (self.entries[i].0.clone(), self.entries[i].1.clone());
            r.push(p);
            assert(r@ =~= self.entries@.subrange(0, i + 1));
            i = i + 1;
        }
        assert(r@ =~= self.entries@);
        r
    }
}

/// What removing one key does to the store file.
pub enum RemoveOutcome {
    /// The key was not stored: nothing changes.
    NotFound,
    /// The last token went: the store file is deleted.
    DeleteStore,
    /// Other tokens remain: the store file is rewritten with them.
    Rewrite(StrMap),
}

/// The decision of removing `key` from `tokens`: nothing to do when absent,
/// delete the store when nothing is left, else rewrite it with the rest.
pub fn plan_remove(tokens: StrMap, key: &str) -> (r: RemoveOutcome)
    ensures
        !tokens@.contains_key(key@) ==> r is NotFound,
        tokens@.contains_key(key@) && tokens@.remove(key@) == Map::<Seq<char>, Seq<char>>::empty()
            ==> r is DeleteStore,
        tokens@.contains_key(key@) && tokens@.remove(key@) != Map::<Seq<char>, Seq<char>>::empty()
            ==> r is Rewrite && r->Rewrite_0@ == tokens@.remove(key@),
{
    let mut tokens = tokens;
    match tokens.remove(key) {
        None => RemoveOutcome::NotFound,
        Some(_) => if tokens.is_empty() {
            RemoveOutcome::DeleteStore
        } else {
            RemoveOutcome::Rewrite(tokens)
        },
    }
}

/// The table `token set` writes: the stored one (an empty one when the store
/// could not be read) with `token` under `key`.
pub fn plan_save(stored: Option<StrMap>, key: String, token: String) -> (r: StrMap)
    ensures
        match stored {
            Some(m) => r@ == m@.insert(key@, token@),
            None => r@ == Map::<Seq<char>, Seq<char>>::empty().insert(key@, token@),
        },
{
    let mut m = match stored {
        Some(m) => m,
        None => StrMap::new(),
    };
    m.insert(key, token);
    m
}

} // verus!
