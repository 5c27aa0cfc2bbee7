//! The boundary to the outside crates. Every item here is trusted: Verus
//! believes the stated contract and never looks at the body. Each contract
//! states only what the named crate's source shows, over named results
//! (`sig_of`, `b64_of`, `b64_parse`, `bcrypt_check`) where the value itself
//! would take pages to write down.
use vstd::prelude::*;

use base64::Engine;

verus! {

/// What `jsonwebtoken::crypto::sign` returns for an HS256 key built from
/// `key` over `msg`: the base64url-encoded HMAC-SHA256 signature. A pure
/// function of the two arguments.
pub uninterp spec fn sig_of(key: Seq<u8>, msg: Seq<u8>) -> Seq<u8>;

/// What `base64::engine::general_purpose::URL_SAFE_NO_PAD.encode` returns
/// for `b`.
pub uninterp spec fn b64_of(b: Seq<u8>) -> Seq<u8>;

/// What `base64::engine::general_purpose::URL_SAFE_NO_PAD.decode` returns
/// for `s`: `None` where the engine rejects the input.
pub uninterp spec fn b64_parse(s: Seq<u8>) -> Option<Seq<u8>>;

/// What `bcrypt::verify(password, hash)` returns: `None` where the hash
/// string cannot be parsed as a bcrypt hash, otherwise whether the password
/// (truncated to 72 bytes, as bcrypt does) matches. A pure function of the
/// two arguments: the salt is recovered from the hash string itself.
pub uninterp spec fn bcrypt_check(password: Seq<u8>, hash: Seq<char>) -> Option<bool>;

/// Relies on `jsonwebtoken::crypto::sign` with an `EncodingKey::from_secret`
/// key and HS256: HMAC signing never fails for a secret-built key (the
/// `rust_crypto` provider's HMAC accepts keys of any length and its signer
/// is infallible), the result is deterministic in `(secret, msg)`, and it is
/// base64url text, which contains no `.` byte.
#[verifier::external_body]
fn hmac_sign_b64(secret: &[u8], msg: &[u8]) -> (r: Vec<u8>)
    ensures
        r@ == sig_of(secret@, msg@),
        forall|i: int| 0 <= i < r@.len() ==> r@[i] != 0x2eu8,
{
    let key = jsonwebtoken::EncodingKey::from_secret(secret);
    let sig = jsonwebtoken::crypto::sign(msg, &key, jsonwebtoken::Algorithm::HS256)
        .expect("HMAC signing is infallible");
    sig.into_bytes()
}

/// The signature over `msg` under `secret`, as token text.
pub(crate) fn sign_b64(secret: &Vec<u8>, msg: &Vec<u8>) -> (r: Vec<u8>)
    ensures
        r@ == sig_of(secret@, msg@),
        forall|i: int| 0 <= i < r@.len() ==> r@[i] != 0x2eu8,
{
    hmac_sign_b64(secret.as_slice(), msg.as_slice())
}

/// Relies on `base64`'s `URL_SAFE_NO_PAD` engine: encoding is deterministic,
/// uses only the URL-safe alphabet (so no `.` byte), and decoding with the
/// same engine gives the input back.
#[verifier::external_body]
fn b64url_encode_slice(b: &[u8]) -> (r: Vec<u8>)
    ensures
        r@ == b64_of(b@),
        b64_parse(r@) == Some(b@),
        forall|i: int| 0 <= i < r@.len() ==> r@[i] != 0x2eu8,
{
    base64::engine::general_purpose::URL_SAFE_NO_PAD.encode(b).into_bytes()
}

/// The base64url encoding of `b`.
pub(crate) fn b64url_encode(b: &Vec<u8>) -> (r: Vec<u8>)
    ensures
        r@ == b64_of(b@),
        b64_parse(r@) == Some(b@),
        forall|i: int| 0 <= i < r@.len() ==> r@[i] != 0x2eu8,
{
    b64url_encode_slice(b.as_slice())
}

/// Relies on `base64`'s `URL_SAFE_NO_PAD` engine: decoding rejects padding
/// and nonzero trailing bits, so it accepts exactly the canonical encoder
/// outputs; on success the input is the encoding of the result.
#[verifier::external_body]
fn b64url_decode_slice(b: &[u8]) -> (r: Option<Vec<u8>>)
    ensures
        match r {
            Some(v) => b64_parse(b@) == Some(v@) && b@ == b64_of(v@),
            None => b64_parse(b@) is None,
        },
{
    base64::engine::general_purpose::URL_SAFE_NO_PAD.decode(b).ok()
}

/// The base64url decoding of `b`, `None` where `b` is not a canonical
/// encoding.
pub(crate) fn b64url_decode(b: &Vec<u8>) -> (r: Option<Vec<u8>>)
    ensures
        match r {
            Some(v) => b64_parse(b@) == Some(v@) && b@ == b64_of(v@),
            None => b64_parse(b@) is None,
        },
{
    b64url_decode_slice(b.as_slice())
}

/// Relies on `bcrypt::hash`: the salt is drawn fresh from the operating
/// system, so nothing can be said of the hash string itself beyond that
/// `bcrypt::verify` accepts the hashed password against it. `None` maps the
/// crate's error (cost out of 4..=31, or no OS randomness).
#[verifier::external_body]
pub(crate) fn bcrypt_hash(password: &[u8], cost: u32) -> (r: Option<String>)
    ensures
        match r {
            Some(h) => bcrypt_check(password@, h@) == Some(true),
            None => true,
        },
{
    bcrypt::hash(password, cost).ok()
}

/// Relies on `bcrypt::verify`: deterministic in `(password, hash)` — it
/// re-derives the salt and cost from the hash string and compares in
/// constant time. `None` maps the crate's malformed-hash error.
#[verifier::external_body]
pub(crate) fn bcrypt_verify(password: &[u8], hash: &str) -> (r: Option<bool>)
    ensures
        match r {
            Some(b) => bcrypt_check(password@, hash@) == Some(b),
            None => bcrypt_check(password@, hash@) is None,
        },
{
    bcrypt::verify(password, hash).ok()
}

/// Relies on `rand::random`: a fresh draw from the thread-local generator.
/// Nothing can be promised of a random value.
pub assume_specification<T>[ rand::random::<T> ]() -> (r: T)
    where
        rand::distr::StandardUniform: rand::distr::Distribution<T>,
;

} // verus!
