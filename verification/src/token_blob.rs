//! The encrypted token store file:
//! `"VBTK"` | version `1` | iv (12 bytes) | auth tag (16 bytes) | ciphertext,
//! sealed with AES-256-GCM under a 32-byte key kept beside the store.
//! The plaintext is the JSON text of the token table.

use vstd::prelude::*;
use aes_gcm::aead::{Aead, KeyInit};
use aes_gcm::{Aes256Gcm, Key, Nonce};
use rand::RngCore;
use crate::text::{extend_chars, lit, string_of};
use crate::token::TokenError;

verus! {

/// AES-256-GCM sealing of `plain` under `key` and `iv`: the ciphertext
/// followed by the 16-byte tag.
pub uninterp spec fn aes_gcm_seal(key: Seq<u8>, iv: Seq<u8>, plain: Seq<u8>) -> Seq<u8>;

/// AES-256-GCM opening of `sealed` (ciphertext followed by tag) under `key`
/// and `iv`: the plaintext, or nothing when the tag does not verify.
pub uninterp spec fn aes_gcm_open(key: Seq<u8>, iv: Seq<u8>, sealed: Seq<u8>) -> Option<Seq<u8>>;

/// Largest plaintext AES-GCM accepts (`aes_gcm::P_MAX`, 2^36 bytes).
pub open spec fn max_plain() -> nat {
    0x10_0000_0000
}

/// `Aes256Gcm::encrypt` (aes-gcm 0.10): for a plaintext of at most 2^36
/// bytes it returns the ciphertext (as long as the plaintext) followed by the
/// 16-byte tag; `decrypt` with the same key and nonce gives the plaintext back.
#[verifier::external_body]
fn seal(key: &Vec<u8>, iv: &Vec<u8>, plain: &Vec<u8>) -> (r: Vec<u8>)
    requires
        key@.len() == 32,
        iv@.len() == 12,
        plain@.len() <= max_plain(),
    ensures
        r@ == aes_gcm_seal(key@, iv@, plain@),
        r@.len() == plain@.len() + 16,
        aes_gcm_open(key@, iv@, r@) == Some(plain@),
{
    let cipher = Aes256Gcm::new(Key::<Aes256Gcm>::from_slice(key.as_slice()));
    cipher.encrypt(Nonce::from_slice(iv.as_slice()), plain.as_slice()).unwrap()
}

/// `Aes256Gcm::decrypt` (aes-gcm 0.10): the plaintext when the tag verifies.
#[verifier::external_body]
fn open(key: &Vec<u8>, iv: &Vec<u8>, sealed: &Vec<u8>) -> (r: Option<Vec<u8>>)
    requires
        key@.len() == 32,
        iv@.len() == 12,
    ensures
        match aes_gcm_open(key@, iv@, sealed@) {
            Some(p) => r is Some && r->0@ == p,
            None => r is None,
        },
{
    let cipher = Aes256Gcm::new(Key::<Aes256Gcm>::from_slice(key.as_slice()));
    cipher.decrypt(Nonce::from_slice(iv.as_slice()), sealed.as_slice()).ok()
}

/// `n` bytes from `rand::rng().fill_bytes` (the thread-local CSPRNG): only
/// the length is known.
#[verifier::external_body]
pub(crate) fn random_bytes(n: usize) -> (r: Vec<u8>)
    ensures
        r@.len() == n,
{
    let mut buf = vec![0u8; n];
    rand::rng().fill_bytes(&mut buf);
    buf
}

/// The four magic bytes `VBTK`.
pub open spec fn store_magic() -> Seq<u8> {
    seq![86u8, 66u8, 84u8, 75u8]
}

/// The store file for an iv and a sealed text (ciphertext ‖ tag): magic,
/// version, iv, tag, ciphertext.
pub open spec fn frame(iv: Seq<u8>, sealed: Seq<u8>) -> Seq<u8> {
    let n = sealed.len() - 16;
    store_magic() + seq![1u8] + iv + sealed.subrange(n, sealed.len() as int) + sealed.subrange(0, n)
}

/// The decimal digits of `n`.
pub open spec fn decimal(n: nat) -> Seq<char>
    decreases n,
{
    if n < 10 {
        seq![((n + 48) as u32) as char]
    } else {
        decimal(n / 10).push((((n % 10) + 48) as u32) as char)
    }
}

/// `n` in decimal.
pub fn decimal_exec(n: u64) -> (r: Vec<char>)
    ensures
        r@ == decimal(n as nat),
    decreases n,
{
    if n < 10 {
        let b: u8 = n as u8;
        let c = (b + 48) as char;
        let mut r = Vec::new();
        r.push(c);
        r
    } else {
        let mut r = decimal_exec(n / 10);
        let b: u8 = (n % 10) as u8;
        r.push((b + 48) as char);
        r
    }
}

/// Which error the store file gives, or its plaintext.
pub enum BlobResult {
    Plain(Seq<u8>),
    /// Bad magic, short file or unknown version: the message.
    Format(Seq<char>),
    /// The tag does not verify under the key.
    Crypto,
}

pub open spec fn invalid_format() -> Seq<char> {
    "token store file has an invalid format"@
}

pub open spec fn crypto_failure() -> Seq<char> {
    "failed to decrypt token store file (key mismatch or corrupted file)"@
}

/// Reading a store file with a key.
pub open spec fn decode_spec(blob: Seq<u8>, key: Seq<u8>) -> BlobResult {
    if blob.len() < 33 || blob.subrange(0, 4) != store_magic() {
        BlobResult::Format(invalid_format())
    } else if blob[4] != 1 {
        BlobResult::Format("unsupported token store version: "@ + decimal(blob[4] as nat))
    } else {
        match aes_gcm_open(
            key,
            blob.subrange(5, 17),
            blob.subrange(33, blob.len() as int) + blob.subrange(17, 33),
        ) {
            Some(p) => BlobResult::Plain(p),
            None => BlobResult::Crypto,
        }
    }
}

fn push_all(out: &mut Vec<u8>, v: &Vec<u8>, from: usize, to: usize)
    requires
        from <= to <= v.len(),
    ensures
        final(out)@ == old(out)@ + v@.subrange(from as int, to as int),
{
    let mut i = from;
    while i < to
        invariant
            from <= i <= to <= v.len(),
            out@ == old(out)@ + v@.subrange(from as int, i as int),
        decreases to - i,
    {
        out.push(v[i]);
        assert(v@.subrange(from as int, i + 1) == v@.subrange(from as int, i as int).push(v@[i as int]));
        i = i + 1;
    }
}

/// Seals `plain` (the JSON text of the table) into a store file under `key`
/// with a fresh random iv. Reading it back with `decode_store` gives `plain`.
pub fn encode_store(plain: &Vec<u8>, key: &Vec<u8>) -> (blob: Vec<u8>)
    requires
        key@.len() == 32,
        plain@.len() <= max_plain(),
    ensures
        blob@.len() == plain@.len() + 33,
        blob@ == frame(blob@.subrange(5, 17), aes_gcm_seal(key@, blob@.subrange(5, 17), plain@)),
        decode_spec(blob@, key@) == BlobResult::Plain(plain@),
{
    let iv = random_bytes(12);
    let sealed = seal(key, &iv, plain);
    let n = sealed.len() - 16;
    let mut out: Vec<u8> = Vec::new();
    out.push(86u8);
    out.push(66u8);
    out.push(84u8);
    out.push(75u8);
    out.push(1u8);
    push_all(&mut out, &iv, 0, iv.len());
    push_all(&mut out, &sealed, n, sealed.len());
    push_all(&mut out, &sealed, 0, n);
    proof {
        assert(iv@.subrange(0, 12) =~= iv@);
        assert(out@.subrange(5, 17) =~= iv@);
        assert(out@ =~= frame(iv@, sealed@));
        assert(out@.subrange(0, 4) =~= store_magic());
        assert(out@.subrange(33, out@.len() as int) + out@.subrange(17, 33) =~= sealed@);
    }
    out
}

/// Opens a store file with `key` (see `decode_spec`).
pub fn decode_store(blob: &Vec<u8>, key: &Vec<u8>) -> (r: Result<Vec<u8>, TokenError>)
    requires
        key@.len() == 32,
    ensures
        match decode_spec(blob@, key@) {
            BlobResult::Plain(p) => r is Ok && r->Ok_0@ == p,
            BlobResult::Format(m) => r is Err && r->Err_0 is Format && r->Err_0.message_view() == m,
            BlobResult::Crypto => r is Err && r->Err_0 is Crypto && r->Err_0.message_view()
                == crypto_failure(),
        },
{
    if blob.len() < 33 || blob[0] != 86u8 || blob[1] != 66u8 || blob[2] != 84u8 || blob[3] != 75u8 {
        proof {
            if blob@.len() >= 33 {
                if blob@.subrange(0, 4) == store_magic() {
                    assert(blob@.subrange(0, 4)[0] == 86u8);
                    assert(blob@.subrange(0, 4)[1] == 66u8);
                    assert(blob@.subrange(0, 4)[2] == 84u8);
                    assert(blob@.subrange(0, 4)[3] == 75u8);
                }
            }
        }
        return Err(TokenError::Format { message: string_of(&lit("token store file has an invalid format")) });
    }
    assert(blob@.subrange(0, 4) =~= store_magic());
    let version = blob[4];
    if version != 1u8 {
        let mut m = lit("unsupported token store version: ");
        extend_chars(&mut m, &decimal_exec(version as u64));
        return Err(TokenError::Format { message: string_of(&m) });
    }
    let mut iv: Vec<u8> = Vec::new();
    push_all(&mut iv, blob, 5, 17);
    let mut sealed: Vec<u8> = Vec::new();
    push_all(&mut sealed, blob, 33, blob.len());
    push_all(&mut sealed, blob, 17, 33);
    assert(iv@ =~= blob@.subrange(5, 17));
    assert(sealed@ =~= blob@.subrange(33, blob@.len() as int) + blob@.subrange(17, 33));
    match open(key, &iv, &sealed) {
        Some(p) => Ok(p),
        None => Err(
            TokenError::Crypto {
                message: string_of(
                    &lit("failed to decrypt token store file (key mismatch or corrupted file)"),
                ),
            },
        ),
    }
}

/// The key file's bytes: exactly 32 of them, else a format error naming the file.
pub fn key_from_bytes(raw: Vec<u8>, shown_path: &str) -> (r: Result<Vec<u8>, TokenError>)
    ensures
        raw@.len() == 32 ==> r is Ok && r->Ok_0@ == raw@,
        raw@.len() != 32 ==> r is Err && r->Err_0 is Format && r->Err_0.message_view() == "key file "@
            + shown_path@ + " is not 32 bytes long"@,
{
    if raw.len() == 32 {
        Ok(raw)
    } else {
        let mut m = lit("key file ");
        crate::text::extend_str(&mut m, shown_path);
        crate::text::extend_str(&mut m, " is not 32 bytes long");
        Err(TokenError::Format { message: string_of(&m) })
    }
}

/// A fresh random key for a new store: 32 bytes.
pub fn new_store_key() -> (r: Vec<u8>)
    ensures
        r@.len() == 32,
{
    random_bytes(32)
}

} // verus!
