//! The per-request authentication filter. It inspects the request's
//! `Authorization` values, asks the ledger whether the bearer token is
//! still active, fully verifies the signature and claims with the
//! access-token key, and hands back the identity to attach to the request
//! context — or the decision to pass the request through anonymous, or to
//! reject it. The transport loop performs exactly one ledger read per
//! authenticated request and no writes.
use vstd::prelude::*;

use crate::codec::{decode, spec_decode_outcome, spec_decode_unverified, subvec};
use crate::ledger::{spec_usable, TokenRecord};
use crate::session::AuthState;
use crate::token::{Claims, JwtKind};

verus! {

/// What the middleware decides for one request.
#[derive(Clone, Copy, Debug, PartialEq, Eq, Structural)]
pub enum AuthOutcome {
    /// No credential offered: pass through; downstream code decides
    /// whether anonymous access is permitted.
    Anonymous,
    /// The credential is ambiguous, revoked, expired or forged: refuse the
    /// request as unauthorized.
    Rejected,
    /// The token verified in full: this identity is attached to the
    /// request context.
    Authenticated(Claims),
}

/// `Bearer ` — the scheme prefix expected on the one header value.
pub open spec fn bearer_prefix() -> Seq<u8> {
    seq![0x42u8, 0x65u8, 0x61u8, 0x72u8, 0x65u8, 0x72u8, 0x20u8]
}

/// The token substring of a header value, where the value carries the
/// bearer scheme.
pub open spec fn spec_bearer_token(v: Seq<u8>) -> Option<Seq<u8>> {
    if v.len() >= 7 && v.subrange(0, 7) == bearer_prefix() {
        Some(v.subrange(7, v.len() as int))
    } else {
        None
    }
}

/// The middleware's decision, exactly: no value passes through anonymous; more
/// than one is an attack signal and is rejected outright; a single value
/// without the bearer scheme is ignored, not an error; otherwise the token
/// must both be active in the ledger and fully verify under the
/// access-token key. A failure of the cheap unverified parse, or of the
/// late full verification, is unauthorized, never a server error.
pub open spec fn spec_authenticate(
    l: Seq<TokenRecord>,
    access_key: Seq<u8>,
    values: Seq<Seq<u8>>,
    now: u64,
) -> AuthOutcome {
    if values.len() == 0 {
        AuthOutcome::Anonymous
    } else if values.len() > 1 {
        AuthOutcome::Rejected
    } else {
        match spec_bearer_token(values[0]) {
            None => AuthOutcome::Anonymous,
            Some(t) => match spec_decode_unverified(t) {
                None => AuthOutcome::Rejected,
                Some(c0) => {
                    if !spec_usable(l, c0.jti, now) {
                        AuthOutcome::Rejected
                    } else {
                        match spec_decode_outcome(access_key, JwtKind::Access, now, t) {
                            Ok(c) => AuthOutcome::Authenticated(c),
                            Err(_) => AuthOutcome::Rejected,
                        }
                    }
                },
            },
        }
    }
}

fn bearer_prefix_vec() -> (r: Vec<u8>)
    ensures
        r@ == bearer_prefix(),
{
    let a: [u8; 7] = [0x42, 0x65, 0x61, 0x72, 0x65, 0x72, 0x20];
    let v = vstd::slice::slice_to_vec(a.as_slice());
    assert(a@ =~= bearer_prefix());
    v
}

/// Runs the middleware's decision over the `Authorization` values of one request.
pub fn authenticate(state: &AuthState, values: &Vec<Vec<u8>>, now: u64) -> (r: AuthOutcome)
    ensures
        r == spec_authenticate(
            state.ledger.records@,
            state.secrets.access@,
            values.deep_view(),
            now,
        ),
{
    let ghost vs = values.deep_view();
    proof {
        assert(vs.len() == values@.len());
    }
    if values.len() == 0 {
        return AuthOutcome::Anonymous;
    }
    if values.len() > 1 {
        return AuthOutcome::Rejected;
    }
    let v = &values[0];
    proof {
        assert(vs[0] == v@);
    }
    let prefix = bearer_prefix_vec();
    let n = v.len();
    if n < 7 {
        return AuthOutcome::Anonymous;
    }
    let mut k: usize = 0;
    let mut is_bearer = true;
    while k < 7
        invariant
            0 <= k <= 7,
            7 <= n == v@.len(),
            prefix@ == bearer_prefix(),
            is_bearer == (forall|j: int| 0 <= j < k ==> v@[j] == bearer_prefix()[j]),
        decreases 7 - k,
    {
        if v[k] != prefix[k] {
            is_bearer = false;
            assert(v@[k as int] != bearer_prefix()[k as int]);
            k = 7;
        } else {
            k += 1;
        }
    }
    if !is_bearer {
        proof {
            assert(v@.subrange(0, 7) != bearer_prefix()) by {
                let j = choose|j: int| 0 <= j < 7 && v@[j] != bearer_prefix()[j];
                assert(v@.subrange(0, 7)[j] == v@[j]);
            }
        }
        return AuthOutcome::Anonymous;
    }
    proof {
        assert(v@.subrange(0, 7) =~= bearer_prefix());
    }
    let t = subvec(v, 7, n);
    let c0 = match crate::codec::decode_unverified(&t) {
        Ok(c0) => c0,
        Err(_) => {
            return AuthOutcome::Rejected;
        },
    };
    if !state.ledger.is_usable(c0.jti, now) {
        return AuthOutcome::Rejected;
    }
    match decode(JwtKind::Access, &t, &state.secrets, now) {
        Ok(c) => AuthOutcome::Authenticated(c),
        Err(_) => AuthOutcome::Rejected,
    }
}

} // verus!
