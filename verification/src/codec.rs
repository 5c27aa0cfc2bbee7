//! The token codec: claims are serialized, base64url-encoded, and signed
//! with the HMAC key of the token's kind; decoding checks the structure,
//! the signature, the kind and the expiry, in that order. `spec_token` is
//! the exact shape of every issued token, and `spec_decode_outcome` the
//! exact result of decoding any byte string whatever.
use vstd::prelude::*;

use crate::payload::{build_payload, parse_payload, payload_bytes, spec_parse_payload};
use crate::payload::{lemma_payload_round_trip, lemma_payload_sound};
use crate::token::{AuthError, Claims, JwtKind, SecretStore};
use crate::trusted::{b64_of, b64_parse, b64url_decode, b64url_encode, sig_of, sign_b64};

verus! {

/// The fixed token header: `{"typ":"JWT","alg":"HS256"}`.
pub open spec fn header_json() -> Seq<u8> {
    seq![
        0x7bu8, 0x22u8, 0x74u8, 0x79u8, 0x70u8, 0x22u8, 0x3au8, 0x22u8, 0x4au8, 0x57u8,
        0x54u8, 0x22u8, 0x2cu8, 0x22u8, 0x61u8, 0x6cu8, 0x67u8, 0x22u8, 0x3au8, 0x22u8,
        0x48u8, 0x53u8, 0x32u8, 0x35u8, 0x36u8, 0x22u8, 0x7du8,
    ]
}

pub open spec fn header_b64() -> Seq<u8> {
    b64_of(header_json())
}

pub open spec fn dot() -> Seq<u8> {
    seq![0x2eu8]
}

/// The signed token for `c` under `key`: header and payload base64url
/// segments joined by dots, followed by the signature over the first two.
pub open spec fn spec_token(key: Seq<u8>, c: Claims) -> Seq<u8> {
    header_b64() + dot() + b64_of(payload_bytes(c)) + dot() + sig_of(
        key,
        header_b64() + dot() + b64_of(payload_bytes(c)),
    )
}

/// The first position at or after `i` holding a dot, or the end.
pub open spec fn dot_pos(s: Seq<u8>, i: int) -> int
    decreases s.len() - i,
{
    if 0 <= i < s.len() {
        if s[i] == 0x2e {
            i
        } else {
            dot_pos(s, i + 1)
        }
    } else {
        i
    }
}

/// Splits a token into its three dot-separated segments; `None` unless
/// there are exactly two dots.
pub open spec fn spec_split3(t: Seq<u8>) -> Option<(Seq<u8>, Seq<u8>, Seq<u8>)> {
    let d1 = dot_pos(t, 0);
    if d1 == t.len() {
        None
    } else {
        let d2 = dot_pos(t, d1 + 1);
        if d2 == t.len() {
            None
        } else if dot_pos(t, d2 + 1) != t.len() {
            None
        } else {
            Some(
                (
                    t.subrange(0, d1),
                    t.subrange(d1 + 1, d2),
                    t.subrange(d2 + 1, t.len() as int),
                ),
            )
        }
    }
}

/// What decoding an arbitrary byte string under `key`, expecting `kind`,
/// at time `now` returns.
pub open spec fn spec_decode_outcome(key: Seq<u8>, kind: JwtKind, now: u64, t: Seq<u8>) -> Result<
    Claims,
    AuthError,
> {
    match spec_split3(t) {
        None => Err(AuthError::TokenMalformed),
        Some((h, p, sg)) => {
            if h != header_b64() {
                Err(AuthError::TokenMalformed)
            } else if sg != sig_of(key, h + dot() + p) {
                Err(AuthError::TokenInvalidSignature)
            } else {
                match b64_parse(p) {
                    None => Err(AuthError::TokenMalformed),
                    Some(pb) => match spec_parse_payload(pb) {
                        None => Err(AuthError::TokenMalformed),
                        Some(c) => {
                            if c.sub != kind {
                                Err(AuthError::TokenWrongKind)
                            } else if now > c.exp {
                                Err(AuthError::TokenExpired)
                            } else {
                                Ok(c)
                            }
                        },
                    },
                }
            }
        },
    }
}

/// What the decoding that skips the signature, the expiry and the header
/// returns: just the claims recovered from the payload segment.
pub open spec fn spec_decode_unverified(t: Seq<u8>) -> Option<Claims> {
    match spec_split3(t) {
        None => None,
        Some((h, p, sg)) => match b64_parse(p) {
            None => None,
            Some(pb) => spec_parse_payload(pb),
        },
    }
}

/// The outcome owed for a token of claims `c` decoded under its own key.
pub open spec fn expected_outcome(c: Claims, kind: JwtKind, now: u64) -> Result<
    Claims,
    AuthError,
> {
    if c.sub != kind {
        Err(AuthError::TokenWrongKind)
    } else if now > c.exp {
        Err(AuthError::TokenExpired)
    } else {
        Ok(c)
    }
}

/// `dot_pos` runs to exactly `e` when the dots stop there.
proof fn lemma_dot_pos_conf(s: Seq<u8>, i: int, e: int)
    requires
        0 <= i <= e <= s.len(),
        forall|j: int| i <= j < e ==> #[trigger] s[j] != 0x2e,
        e == s.len() || s[e] == 0x2e,
    ensures
        dot_pos(s, i) == e,
    decreases e - i,
{
    if i < e {
        lemma_dot_pos_conf(s, i + 1, e);
    }
}

/// Joining three dot-free segments with dots splits back into them.
proof fn lemma_split3_of_parts(h: Seq<u8>, p: Seq<u8>, sg: Seq<u8>)
    requires
        forall|i: int| 0 <= i < h.len() ==> #[trigger] h[i] != 0x2e,
        forall|i: int| 0 <= i < p.len() ==> #[trigger] p[i] != 0x2e,
        forall|i: int| 0 <= i < sg.len() ==> #[trigger] sg[i] != 0x2e,
    ensures
        spec_split3(h + dot() + p + dot() + sg) == Some((h, p, sg)),
{
    let t = h + dot() + p + dot() + sg;
    let d1 = h.len() as int;
    let d2 = d1 + 1 + p.len();
    assert(t[d1] == 0x2e);
    assert(t[d2] == 0x2e);
    assert(forall|j: int| 0 <= j < d1 ==> #[trigger] t[j] == h[j] && t[j] != 0x2e);
    lemma_dot_pos_conf(t, 0, d1);
    assert(forall|j: int|
        d1 + 1 <= j < d2 ==> #[trigger] t[j] == p[j - (d1 + 1)] && t[j] != 0x2e);
    lemma_dot_pos_conf(t, d1 + 1, d2);
    assert(forall|j: int|
        d2 + 1 <= j < t.len() ==> #[trigger] t[j] == sg[j - (d2 + 1)] && t[j] != 0x2e);
    lemma_dot_pos_conf(t, d2 + 1, t.len() as int);
    assert(t.subrange(0, d1) =~= h);
    assert(t.subrange(d1 + 1, d2) =~= p);
    assert(t.subrange(d2 + 1, t.len() as int) =~= sg);
}

/// A token with dots exactly at its two split positions is the join of its
/// three segments.
proof fn lemma_token_reassembly(t: Seq<u8>, d1: int, d2: int)
    requires
        0 <= d1 < d2 < t.len(),
        t[d1] == 0x2e,
        t[d2] == 0x2e,
    ensures
        t == t.subrange(0, d1) + dot() + t.subrange(d1 + 1, d2) + dot() + t.subrange(
            d2 + 1,
            t.len() as int,
        ),
{
    assert(t =~= t.subrange(0, d1) + dot() + t.subrange(d1 + 1, d2) + dot() + t.subrange(
        d2 + 1,
        t.len() as int,
    ));
}

fn header_json_vec() -> (r: Vec<u8>)
    ensures
        r@ == header_json(),
{
    let a: [u8; 27] = [
        0x7b, 0x22, 0x74, 0x79, 0x70, 0x22, 0x3a, 0x22, 0x4a, 0x57, 0x54, 0x22, 0x2c, 0x22,
        0x61, 0x6c, 0x67, 0x22, 0x3a, 0x22, 0x48, 0x53, 0x32, 0x35, 0x36, 0x22, 0x7d,
    ];
    let v = vstd::slice::slice_to_vec(a.as_slice());
    assert(a@ =~= header_json());
    v
}

/// Encodes and signs `c` with the key of `kind`. The token decodes, under
/// the same key, to exactly `c` for as long as `c.exp` has not passed, and
/// the unverified path recovers exactly `c` from it.
pub fn encode(kind: JwtKind, c: &Claims, secrets: &SecretStore) -> (r: Vec<u8>)
    ensures
        r@ == spec_token(secrets.spec_key(kind), *c),
        forall|k2: JwtKind, now: u64|
            spec_decode_outcome(secrets.spec_key(kind), k2, now, r@) == expected_outcome(
                *c,
                k2,
                now,
            ),
        spec_decode_unverified(r@) == Some(*c),
{
    let key = kind.key(secrets);
    let hj = header_json_vec();
    let h = b64url_encode(&hj);
    let pj = build_payload(c);
    let p = b64url_encode(&pj);
    let mut msg: Vec<u8> = Vec::new();
    msg.extend_from_slice(h.as_slice());
    msg.push(0x2e);
    msg.extend_from_slice(p.as_slice());
    assert(msg@ =~= h@ + dot() + p@);
    let sg = sign_b64(key, &msg);
    let mut t = msg;
    t.push(0x2e);
    t.extend_from_slice(sg.as_slice());
    assert(t@ =~= h@ + dot() + p@ + dot() + sg@);
    proof {
        lemma_split3_of_parts(h@, p@, sg@);
        lemma_payload_round_trip(*c);
        assert(spec_split3(t@) == Some((h@, p@, sg@)));
        assert forall|k2: JwtKind, now: u64|
            spec_decode_outcome(secrets.spec_key(kind), k2, now, t@) == expected_outcome(
                *c,
                k2,
                now,
            ) by {
            assert(h@ == header_b64());
            assert(sg@ == sig_of(secrets.spec_key(kind), h@ + dot() + p@));
            assert(b64_parse(p@) == Some(pj@));
        }
    }
    t
}

/// Copies `b[from..to]` out as a fresh vector.
pub(crate) fn subvec(b: &Vec<u8>, from: usize, to: usize) -> (r: Vec<u8>)
    requires
        from <= to <= b@.len(),
    ensures
        r@ == b@.subrange(from as int, to as int),
{
    let mut out: Vec<u8> = Vec::new();
    let mut j = from;
    while j < to
        invariant
            from <= j <= to <= b@.len(),
            out@ == b@.subrange(from as int, j as int),
        decreases to - j,
    {
        out.push(b[j]);
        assert(out@ =~= b@.subrange(from as int, j + 1));
        j += 1;
    }
    out
}

/// Finds the two dot positions of a well-split token.
fn split_token(t: &Vec<u8>) -> (r: Option<(usize, usize)>)
    ensures
        match r {
            Some((d1, d2)) => {
                &&& spec_split3(t@) == Some(
                    (
                        t@.subrange(0, d1 as int),
                        t@.subrange(d1 as int + 1, d2 as int),
                        t@.subrange(d2 as int + 1, t@.len() as int),
                    ),
                )
                &&& d1 < d2 < t@.len()
                &&& dot_pos(t@, 0) == d1 as int
                &&& dot_pos(t@, d1 as int + 1) == d2 as int
                &&& t@[d1 as int] == 0x2e
                &&& t@[d2 as int] == 0x2e
            },
            None => spec_split3(t@) is None,
        },
{
    let n = t.len();
    let mut d1: usize = 0;
    while d1 < n && t[d1] != 0x2e
        invariant
            0 <= d1 <= n == t@.len(),
            forall|j: int| 0 <= j < d1 ==> #[trigger] t@[j] != 0x2e,
        decreases n - d1,
    {
        d1 += 1;
    }
    proof {
        lemma_dot_pos_conf(t@, 0, d1 as int);
    }
    if d1 == n {
        return None;
    }
    let mut d2: usize = d1 + 1;
    while d2 < n && t[d2] != 0x2e
        invariant
            d1 + 1 <= d2 <= n == t@.len(),
            forall|j: int| d1 + 1 <= j < d2 ==> #[trigger] t@[j] != 0x2e,
        decreases n - d2,
    {
        d2 += 1;
    }
    proof {
        lemma_dot_pos_conf(t@, d1 as int + 1, d2 as int);
    }
    if d2 == n {
        return None;
    }
    let mut d3: usize = d2 + 1;
    while d3 < n && t[d3] != 0x2e
        invariant
            d2 + 1 <= d3 <= n == t@.len(),
            forall|j: int| d2 + 1 <= j < d3 ==> #[trigger] t@[j] != 0x2e,
        decreases n - d3,
    {
        d3 += 1;
    }
    proof {
        lemma_dot_pos_conf(t@, d2 as int + 1, d3 as int);
    }
    if d3 != n {
        return None;
    }
    Some((d1, d2))
}

/// Compares two byte strings.
fn bytes_eq(a: &Vec<u8>, b: &Vec<u8>) -> (r: bool)
    ensures
        r == (a@ == b@),
{
    if a.len() != b.len() {
        return false;
    }
    let n = a.len();
    let mut j: usize = 0;
    while j < n
        invariant
            n == a@.len() == b@.len(),
            0 <= j <= n,
            forall|k: int| 0 <= k < j ==> a@[k] == b@[k],
        decreases n - j,
    {
        if a[j] != b[j] {
            return false;
        }
        j += 1;
    }
    assert(a@ =~= b@);
    true
}

/// Decodes and fully verifies a token under the key of `kind`: structure,
/// signature, kind, then expiry. On success the input was exactly the
/// signed token of the returned claims.
#[verifier::rlimit(100)]
#[verifier::spinoff_prover]
pub fn decode(kind: JwtKind, token: &Vec<u8>, secrets: &SecretStore, now: u64) -> (r: Result<
    Claims,
    AuthError,
>)
    ensures
        r == spec_decode_outcome(secrets.spec_key(kind), kind, now, token@),
        r matches Ok(c) ==> token@ == spec_token(secrets.spec_key(kind), c),
{
    let key = kind.key(secrets);
    let n = token.len();
    let (d1, d2) = match split_token(token) {
        Some(p) => p,
        None => {
            return Err(AuthError::TokenMalformed);
        },
    };
    let h = subvec(token, 0, d1);
    let hj = header_json_vec();
    let h_expect = b64url_encode(&hj);
    if !bytes_eq(&h, &h_expect) {
        return Err(AuthError::TokenMalformed);
    }
    let p = subvec(token, d1 + 1, d2);
    let msg = subvec(token, 0, d2);
    proof {
        assert(msg@ =~= h@ + dot() + p@);
    }
    let sg = subvec(token, d2 + 1, n);
    let sig_expect = sign_b64(key, &msg);
    if !bytes_eq(&sg, &sig_expect) {
        return Err(AuthError::TokenInvalidSignature);
    }
    let pb = match b64url_decode(&p) {
        Some(v) => v,
        None => {
            return Err(AuthError::TokenMalformed);
        },
    };
    let c = match parse_payload(&pb) {
        Some(c) => c,
        None => {
            return Err(AuthError::TokenMalformed);
        },
    };
    let cs = c.sub;
    let ck = kind;
    let same = match (cs, ck) {
        (JwtKind::Access, JwtKind::Access) => true,
        (JwtKind::Refresh, JwtKind::Refresh) => true,
        _ => false,
    };
    if !same {
        return Err(AuthError::TokenWrongKind);
    }
    if now > c.exp {
        return Err(AuthError::TokenExpired);
    }
    proof {
        lemma_payload_sound(pb@, c);
        lemma_token_reassembly(token@, d1 as int, d2 as int);
        assert(token@ == h@ + dot() + p@ + dot() + sg@);
        assert(p@ == b64_of(payload_bytes(c)));
        assert(token@ == spec_token(secrets.spec_key(kind), c));
    }
    Ok(c)
}

/// Parses the payload segment of a token without checking the header
/// content, the signature or the expiry: the unverified path used only to
/// recover a ledger id before an independent liveness check. Never hand its
/// result to anything that trusts it.
pub fn decode_unverified(token: &Vec<u8>) -> (r: Result<Claims, AuthError>)
    ensures
        r == match spec_decode_unverified(token@) {
            Some(c) => Ok::<Claims, AuthError>(c),
            None => Err::<Claims, AuthError>(AuthError::TokenMalformed),
        },
{
    let (d1, d2) = match split_token(token) {
        Some(p) => p,
        None => {
            return Err(AuthError::TokenMalformed);
        },
    };
    let p = subvec(token, d1 + 1, d2);
    let pb = match b64url_decode(&p) {
        Some(v) => v,
        None => {
            return Err(AuthError::TokenMalformed);
        },
    };
    match parse_payload(&pb) {
        Some(c) => Ok(c),
        None => Err(AuthError::TokenMalformed),
    }
}

/// Decoding is deterministic but for the expiry check: a token that decodes
/// to `c` at one time decodes to `c` at any other time, unless that time is
/// past `c.exp`, in which case it fails as expired.
pub proof fn lemma_decode_deterministic(
    key: Seq<u8>,
    kind: JwtKind,
    t: Seq<u8>,
    now1: u64,
    now2: u64,
    c: Claims,
)
    requires
        spec_decode_outcome(key, kind, now1, t) == Ok::<Claims, AuthError>(c),
    ensures
        spec_decode_outcome(key, kind, now2, t) == if now2 > c.exp {
            Err::<Claims, AuthError>(AuthError::TokenExpired)
        } else {
            Ok::<Claims, AuthError>(c)
        },
{
}

} // verus!
