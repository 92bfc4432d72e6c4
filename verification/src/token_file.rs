//! The token table inside the store file: a JSON object of strings
//! (`serde_json`), sealed and opened by `token_blob`.

use vstd::prelude::*;
use crate::token::TokenError;
use crate::token_blob::{decode_spec, decode_store, encode_store, max_plain, BlobResult};
use crate::token_store::{pairs_map, StrMap};
use crate::text::{owned, push_str};

verus! {

/// `serde_json::from_slice::<BTreeMap<String, String>>(bytes)`: the members
/// (in the map's key order), or the error's `Display` text.
pub uninterp spec fn token_json_of(bytes: Seq<u8>) -> Result<Seq<(Seq<char>, Seq<char>)>, Seq<char>>;

/// `serde_json::to_vec` of the `BTreeMap<String, String>` built from the pairs.
pub uninterp spec fn token_json_text_of(pairs: Seq<(Seq<char>, Seq<char>)>) -> Seq<u8>;

pub open spec fn text_pairs(v: Seq<(String, String)>) -> Seq<(Seq<char>, Seq<char>)> {
    v.map_values(|p: (String, String)| (p.0@, p.1@))
}

pub open spec fn parsed_view(r: Result<Vec<(String, String)>, String>) -> Result<Seq<(Seq<char>, Seq<char>)>, Seq<char>> {
    match r {
        Ok(v) => Ok(text_pairs(v@)),
        Err(e) => Err(e@),
    }
}

/// `serde_json::from_slice` into a `BTreeMap<String, String>`, its members listed.
#[verifier::external_body]
fn parse_token_json(bytes: &Vec<u8>) -> (r: Result<Vec<(String, String)>, String>)
    ensures
        parsed_view(r) == token_json_of(bytes@),
{
    serde_json::from_slice::<std::collections::BTreeMap<String, String>>(bytes)
        .map(|m| m.into_iter().collect())
        .map_err(|e| e.to_string())
}

/// `serde_json::to_vec` of a `BTreeMap<String, String>` made from the pairs
/// (a later pair replacing an earlier one of the same key, as
/// `BTreeMap::from_iter` inserts): an object of JSON strings, which
/// `serde_json::from_slice` reads back into the same map.
#[verifier::external_body]
fn token_json(pairs: &Vec<(String, String)>) -> (r: Vec<u8>)
    ensures
        r@ == token_json_text_of(text_pairs(pairs@)),
        json_reads_back(r@, seq_map(text_pairs(pairs@))),
{
    let map: std::collections::BTreeMap<&str, &str> = pairs.iter().map(|(k, v)| (k.as_str(), v.as_str())).collect();
    serde_json::to_vec(&map).unwrap_or_default()
}

/// The map of a list of pairs, a later pair winning over an earlier one.
pub open spec fn seq_map(p: Seq<(Seq<char>, Seq<char>)>) -> Map<Seq<char>, Seq<char>>
    decreases p.len(),
{
    if p.len() == 0 {
        Map::empty()
    } else {
        seq_map(p.drop_last()).insert(p.last().0, p.last().1)
    }
}

/// Whether `bytes` parse as a table whose map is `m`.
pub open spec fn json_reads_back(bytes: Seq<u8>, m: Map<Seq<char>, Seq<char>>) -> bool {
    match token_json_of(bytes) {
        Ok(q) => seq_map(q) == m,
        Err(_) => false,
    }
}

proof fn lemma_seq_map_pairs(p: Seq<(String, String)>)
    ensures
        seq_map(text_pairs(p)) == pairs_map(p),
    decreases p.len(),
{
    if p.len() > 0 {
        lemma_seq_map_pairs(p.drop_last());
        assert(text_pairs(p).drop_last() =~= text_pairs(p.drop_last()));
    }
}

/// What reading a store file gives: the table, or the error.
pub open spec fn read_spec(blob: Seq<u8>, key: Seq<u8>, shown: Seq<char>) -> Result<Map<Seq<char>, Seq<char>>, (bool, Seq<char>)> {
    match decode_spec(blob, key) {
        BlobResult::Plain(p) => match token_json_of(p) {
            Ok(pairs) => Ok(seq_map(pairs)),
            Err(e) => Err((true, "token store file "@ + shown + " is not valid JSON: "@ + e)),
        },
        BlobResult::Format(m) => Err((true, m)),
        BlobResult::Crypto => Err((false, crate::token_blob::crypto_failure())),
    }
}

/// The table of a store file's bytes, opened with `key`; `shown` names the
/// file in messages. A blob that is not a store, or whose table is not a
/// JSON object of strings, is a format error; a wrong key a crypto error.
pub fn read_table(blob: &Vec<u8>, key: &Vec<u8>, shown: &str) -> (r: Result<StrMap, TokenError>)
    requires
        key@.len() == 32,
    ensures
        match read_spec(blob@, key@, shown@) {
            Ok(m) => r matches Ok(t) && t@ == m,
            Err((true, msg)) => r matches Err(TokenError::Format { message }) && message@ == msg,
            Err((false, msg)) => r matches Err(TokenError::Crypto { message }) && message@ == msg,
        },
{
    let plain = decode_store(blob, key)?;
    match parse_token_json(&plain) {
        Err(e) => {
            let mut m = owned("token store file ");
            push_str(&mut m, shown);
            push_str(&mut m, " is not valid JSON: ");
            push_str(&mut m, e.as_str());
            Err(TokenError::Format { message: m })
        },
        Ok(pairs) => {
            let ghost pv = text_pairs(pairs@);
            let mut t = StrMap::new();
            let mut i: usize = 0;
            while i < pairs.len()
                invariant
                    i <= pairs@.len(),
                    pv == text_pairs(pairs@),
                    t@ == seq_map(pv.subrange(0, i as int)),
                decreases pairs.len() - i,
            {
                let (k, v) = (owned(pairs[i].0.as_str()), owned(pairs[i].1.as_str()));
                t.insert(k, v);
                assert(pv.subrange(0, i + 1).drop_last() =~= pv.subrange(0, i as int));
                assert(pv[i as int] == (pairs@[i as int].0@, pairs@[i as int].1@));
                i = i + 1;
            }
            assert(pv.subrange(0, pv.len() as int) =~= pv);
            Ok(t)
        },
    }
}

/// `blob` is a store file sealed under `key` from a table whose map is `m`:
/// it opens to the JSON text of the table's pairs, which reads back as `m`.
pub open spec fn sealed_from(blob: Seq<u8>, key: Seq<u8>, m: Map<Seq<char>, Seq<char>>) -> bool {
    exists|pairs: Seq<(String, String)>|
        pairs_map(pairs) == m && #[trigger] decode_spec(blob, key) == BlobResult::Plain(
            token_json_text_of(text_pairs(pairs)),
        ) && json_reads_back(token_json_text_of(text_pairs(pairs)), seq_map(text_pairs(pairs)))
}

/// A store file sealed from a table reads back as that table, whatever name
/// it is shown by.
pub proof fn lemma_sealed_reads_back(blob: Seq<u8>, key: Seq<u8>, m: Map<Seq<char>, Seq<char>>, shown: Seq<char>)
    requires
        sealed_from(blob, key, m),
    ensures
        read_spec(blob, key, shown) == Ok::<Map<Seq<char>, Seq<char>>, (bool, Seq<char>)>(m),
{
    let pairs = choose|pairs: Seq<(String, String)>|
        pairs_map(pairs) == m && #[trigger] decode_spec(blob, key) == BlobResult::Plain(
            token_json_text_of(text_pairs(pairs)),
        ) && json_reads_back(token_json_text_of(text_pairs(pairs)), seq_map(text_pairs(pairs)));
    lemma_seq_map_pairs(pairs);
}

/// Saving a token (`plan_save`) and writing the table (`seal_table`), then
/// reading the file (`read_table`) with the same key: the saved key holds
/// the token, and every other key holds what it held before.
pub proof fn law_saved_token_reads_back(
    base: Map<Seq<char>, Seq<char>>,
    name: Seq<char>,
    token: Seq<char>,
    other: Seq<char>,
    blob: Seq<u8>,
    key: Seq<u8>,
    shown: Seq<char>,
)
    requires
        sealed_from(blob, key, base.insert(name, token)),
        other != name,
    ensures
        read_spec(blob, key, shown) matches Ok(m) && m.contains_key(name) && m[name] == token
            && m.contains_key(other) == base.contains_key(other) && m[other] == base[other],
{
    lemma_sealed_reads_back(blob, key, base.insert(name, token), shown);
}

/// The store file's bytes for a table: its JSON text sealed with `key`
/// (a fresh random iv each time); `None` only for a table whose JSON text is
/// too large for AES-GCM to seal. Reading the bytes back with the same key
/// gives the table.
pub fn seal_table(table: &StrMap, key: &Vec<u8>) -> (r: Option<Vec<u8>>)
    requires
        key@.len() == 32,
    ensures
        match r {
            Some(blob) => sealed_from(blob@, key@, table@) && forall|shown: Seq<char>| #[trigger] read_spec(
                blob@,
                key@,
                shown,
            ) == Ok::<Map<Seq<char>, Seq<char>>, (bool, Seq<char>)>(table@),
            None => exists|pairs: Seq<(String, String)>|
                pairs_map(pairs) == table@ && #[trigger] token_json_text_of(text_pairs(pairs)).len() > max_plain(),
        },
{
    let pairs = table.pairs();
    let json = token_json(&pairs);
    if json.len() as u64 > 0x10_0000_0000u64 {
        assert(token_json_text_of(text_pairs(pairs@)).len() > max_plain());
        return None;
    }
    assert(json@.len() <= max_plain());
    let blob = encode_store(&json, key);
    proof {
        lemma_seq_map_pairs(pairs@);
        assert(decode_spec(blob@, key@) == BlobResult::Plain(token_json_text_of(text_pairs(pairs@))));
        assert(sealed_from(blob@, key@, table@));
    }
    Some(blob)
}

/// The table a store file holds for `key`: what it reads as, or an empty
/// table when there is no file or it cannot be read.
pub open spec fn stored_table(blob: Option<Seq<u8>>, key: Seq<u8>) -> Map<Seq<char>, Seq<char>> {
    match blob {
        Some(b) => match read_spec(b, key, Seq::empty()) {
            Ok(m) => m,
            Err(_) => Map::empty(),
        },
        None => Map::empty(),
    }
}

/// The store file after `token set`: the table the old file (`blob`, when
/// there is one) holds, an empty one when it cannot be read, with `token`
/// under `name`, sealed with `key`. Reading the new file with the same key
/// gives that table: the token under `name`, every other key as before.
/// `None` only for a table too large to seal.
pub fn save_token_blob(blob: Option<&Vec<u8>>, key: &Vec<u8>, name: String, token: String) -> (r: Option<Vec<u8>>)
    requires
        key@.len() == 32,
    ensures
        match r {
            Some(b) => forall|shown: Seq<char>| #[trigger] read_spec(b@, key@, shown) == Ok::<
                Map<Seq<char>, Seq<char>>,
                (bool, Seq<char>),
            >(stored_table(
                match blob {
                    Some(x) => Some(x@),
                    None => None,
                },
                key@,
            ).insert(name@, token@)),
            None => true,
        },
{
    let stored = match blob {
        Some(b) => match read_table(b, key, "") {
            Ok(t) => {
                proof {
                    reveal_strlit("");
                    assert(""@ =~= Seq::<char>::empty());
                }
                Some(t)
            },
            Err(_) => {
                proof {
                    reveal_strlit("");
                    assert(""@ =~= Seq::<char>::empty());
                }
                None
            },
        },
        None => None,
    };
    let table = crate::token_store::plan_save(stored, name, token);
    seal_table(&table, key)
}

} // verus!
