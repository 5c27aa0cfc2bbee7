//! The session manager: login, registration, refresh rotation and the
//! liveness probe, orchestrating the token codec, the ledger and the
//! credential service. Every issuance writes one ledger row per token;
//! every refresh consumes its record through the ledger's compare-and-set
//! before the replacement pair exists, which is what makes refresh tokens
//! single-use.
use vstd::prelude::*;

use crate::codec::{
    decode, decode_unverified, encode, expected_outcome, spec_decode_outcome,
    spec_decode_unverified, spec_token,
};
use crate::ledger::{spec_deactivated, spec_fresh, spec_usable, Ledger, TokenRecord};
use crate::token::{AuthError, Claims, JwtKind, SecretStore};
use crate::trusted::bcrypt_check;
use crate::users::{spec_find_email, spec_tag_taken, Status, Theme, User, UserStore};
use vstd::string::StringSliceAdditionalSpecFns;

verus! {

/// The pair produced by one issuance event: one access and one refresh
/// token for the same owner.
pub struct Tokens {
    pub access: Vec<u8>,
    pub refresh: Vec<u8>,
}

/// The claims embedded in an access token issued to `uid` at `now` under
/// ledger id `jti`: it expires ten minutes after issuance.
pub open spec fn access_claims(uid: u64, jti: u64, now: u64) -> Claims {
    Claims { uid, jti, sub: JwtKind::Access, iat: now, exp: (now + 600) as u64 }
}

/// The claims embedded in a refresh token: it expires sixty minutes after
/// issuance.
pub open spec fn refresh_claims(uid: u64, jti: u64, now: u64) -> Claims {
    Claims { uid, jti, sub: JwtKind::Refresh, iat: now, exp: (now + 3600) as u64 }
}

/// The ledger rows written by one issuance event for `uid` at `now`, given
/// the ledger length `n` at that moment: an access record with id `n` and a
/// refresh record with id `n + 1`.
pub open spec fn issued_records(l: Seq<TokenRecord>, uid: u64, now: u64) -> Seq<TokenRecord> {
    l.push(
        TokenRecord {
            id: l.len() as u64,
            kind: JwtKind::Access,
            uid,
            issued_at: now,
            active: true,
        },
    ).push(
        TokenRecord {
            id: (l.len() + 1) as u64,
            kind: JwtKind::Refresh,
            uid,
            issued_at: now,
            active: true,
        },
    )
}

/// Whether `c`'s ledger record lets a refresh proceed: present, of refresh
/// kind, still active, still within its ledger lifetime.
pub open spec fn spec_consumable(l: Seq<TokenRecord>, c: Claims, now: u64) -> bool {
    &&& c.jti < l.len()
    &&& l[c.jti as int].kind == JwtKind::Refresh
    &&& l[c.jti as int].active
    &&& spec_fresh(l[c.jti as int], now)
}

/// The owner id handed back by the credential service, if the email is
/// known and the password matches the stored hash.
pub open spec fn spec_credentials_ok(l: Seq<User>, email: Seq<char>, password: Seq<u8>) -> Option<
    u64,
> {
    match spec_find_email(l, email) {
        None => None,
        Some(i) => {
            if bcrypt_check(password, l[i].password_hash@) == Some(true) {
                Some(l[i].id)
            } else {
                None
            }
        },
    }
}

/// The whole authentication state: the two signing keys, the token ledger,
/// and the credential directory.
pub struct AuthState {
    pub secrets: SecretStore,
    pub ledger: Ledger,
    pub users: UserStore,
}

impl AuthState {
    pub open spec fn wf(&self) -> bool {
        self.ledger.wf() && self.users.wf()
    }

    /// A fresh state around the two startup secrets.
    pub fn new(secrets: SecretStore) -> (r: AuthState)
        ensures
            r.secrets == secrets,
            r.ledger.records@ =~= Seq::<TokenRecord>::empty(),
            r.users.users@ =~= Seq::<User>::empty(),
            r.wf(),
    {
        AuthState { secrets, ledger: Ledger::new(), users: UserStore::new() }
    }

    /// One issuance event: writes an access and a refresh ledger row for
    /// `uid` and returns the two signed tokens carrying the rows' ids as
    /// their `jti`. Each token's expiry is its issue time plus its kind's
    /// lifetime, embedded once and never recomputed.
    pub fn make_jwts(&mut self, uid: u64, now: u64) -> (r: Tokens)
        requires
            now <= u64::MAX - 3600,
        ensures
            final(self).secrets == old(self).secrets,
            final(self).users == old(self).users,
            final(self).ledger.records@ == issued_records(old(self).ledger.records@, uid, now),
            old(self).wf() ==> final(self).wf(),
            ({
                let n = old(self).ledger.records@.len() as u64;
                let ca = access_claims(uid, n, now);
                let cr = refresh_claims(uid, (n + 1) as u64, now);
                &&& r.access@ == spec_token(old(self).secrets.access@, ca)
                &&& r.refresh@ == spec_token(old(self).secrets.refresh@, cr)
                &&& forall|k2: JwtKind, now2: u64|
                    spec_decode_outcome(old(self).secrets.access@, k2, now2, r.access@)
                        == expected_outcome(ca, k2, now2)
                &&& forall|k2: JwtKind, now2: u64|
                    spec_decode_outcome(old(self).secrets.refresh@, k2, now2, r.refresh@)
                        == expected_outcome(cr, k2, now2)
                &&& spec_decode_unverified(r.access@) == Some(ca)
                &&& spec_decode_unverified(r.refresh@) == Some(cr)
            }),
    {
        let ja = self.ledger.create(JwtKind::Access, uid, now);
        let jr = self.ledger.create(JwtKind::Refresh, uid, now);
        let ca = Claims { uid, jti: ja, sub: JwtKind::Access, iat: now, exp: now + 600 };
        let cr = Claims { uid, jti: jr, sub: JwtKind::Refresh, iat: now, exp: now + 3600 };
        let access = encode(JwtKind::Access, &ca, &self.secrets);
        let refresh = encode(JwtKind::Refresh, &cr, &self.secrets);
        Tokens { access, refresh }
    }

    /// Login: verifies the credentials and, on success, issues a fresh
    /// token pair for the owner. No such user and a wrong password return
    /// the same failure, with nothing changed.
    pub fn login(&mut self, email: &String, password: &str, now: u64) -> (r: Result<
        Tokens,
        AuthError,
    >)
        requires
            now <= u64::MAX - 3600,
        ensures
            final(self).secrets == old(self).secrets,
            final(self).users == old(self).users,
            old(self).wf() ==> final(self).wf(),
            match spec_credentials_ok(old(self).users.users@, email@, password.spec_bytes()) {
                None => r == Err::<Tokens, AuthError>(AuthError::InvalidCredentials)
                    && final(self).ledger.records@ == old(self).ledger.records@,
                Some(owner) => {
                    let n = old(self).ledger.records@.len() as u64;
                    let ca = access_claims(owner, n, now);
                    let cr = refresh_claims(owner, (n + 1) as u64, now);
                    &&& r is Ok
                    &&& final(self).ledger.records@ == issued_records(
                        old(self).ledger.records@,
                        owner,
                        now,
                    )
                    &&& r->Ok_0.access@ == spec_token(old(self).secrets.access@, ca)
                    &&& r->Ok_0.refresh@ == spec_token(old(self).secrets.refresh@, cr)
                    &&& forall|k2: JwtKind, now2: u64|
                        spec_decode_outcome(old(self).secrets.access@, k2, now2, r->Ok_0.access@)
                            == expected_outcome(ca, k2, now2)
                    &&& forall|k2: JwtKind, now2: u64|
                        spec_decode_outcome(
                            old(self).secrets.refresh@,
                            k2,
                            now2,
                            r->Ok_0.refresh@,
                        ) == expected_outcome(cr, k2, now2)
                    &&& spec_decode_unverified(r->Ok_0.access@) == Some(ca)
                    &&& spec_decode_unverified(r->Ok_0.refresh@) == Some(cr)
                },
            },
    {
        let owner = match self.users.verify_credentials(email, password) {
            Some(owner) => owner,
            None => {
                return Err(AuthError::InvalidCredentials);
            },
        };
        Ok(self.make_jwts(owner, now))
    }

    /// Registration: creates the user through the credential service and,
    /// on success, immediately issues a token pair exactly as login does.
    /// A taken email returns the already-exists outcome and writes neither
    /// a user row nor a token record.
    pub fn register(
        &mut self,
        email: &String,
        password: &str,
        tag_name: &String,
        display_name: &String,
        now: u64,
    ) -> (r: Result<Tokens, AuthError>)
        requires
            now <= u64::MAX - 3600,
        ensures
            final(self).secrets == old(self).secrets,
            old(self).wf() ==> final(self).wf(),
            r is Err ==> final(self).users.users@ == old(self).users.users@,
            r is Err ==> final(self).ledger.records@ == old(self).ledger.records@,
            r == Err::<Tokens, AuthError>(AuthError::AlreadyRegistered) <==> (spec_find_email(
                old(self).users.users@,
                email@,
            ) is Some || forall|a: int, b: int, c: int, d: int|
                0 <= a < 16 && 0 <= b < 16 && 0 <= c < 16 && 0 <= d < 16 ==> spec_tag_taken(
                    old(self).users.users@,
                    tag_name@,
                    a,
                    b,
                    c,
                    d,
                )),
            r is Err ==> (r == Err::<Tokens, AuthError>(AuthError::AlreadyRegistered) || r
                == Err::<Tokens, AuthError>(AuthError::StorageUnavailable)),
            r is Ok ==> ({
                let l0 = old(self).users.users@;
                let l1 = final(self).users.users@;
                let new = l1.last();
                let owner = l0.len() as u64;
                let n = old(self).ledger.records@.len() as u64;
                let ca = access_claims(owner, n, now);
                let cr = refresh_claims(owner, (n + 1) as u64, now);
                &&& spec_find_email(l0, email@) is None
                &&& l1.len() == l0.len() + 1
                &&& l1.subrange(0, l0.len() as int) == l0
                &&& new.id == owner
                &&& new.email@ == email@
                &&& new.display_name@ == display_name@
                &&& new.tag.0@ == tag_name@
                &&& forall|k: int| 0 <= k < 4 ==> 0 <= #[trigger] new.tag.1@[k] < 16
                &&& !spec_tag_taken(
                    l0,
                    tag_name@,
                    new.tag.1@[0] as int,
                    new.tag.1@[1] as int,
                    new.tag.1@[2] as int,
                    new.tag.1@[3] as int,
                )
                &&& bcrypt_check(password.spec_bytes(), new.password_hash@) == Some(true)
                &&& new.status == Status::Offline
                &&& new.theme == Theme::Dark
                &&& final(self).ledger.records@ == issued_records(
                    old(self).ledger.records@,
                    owner,
                    now,
                )
                &&& r->Ok_0.access@ == spec_token(old(self).secrets.access@, ca)
                &&& r->Ok_0.refresh@ == spec_token(old(self).secrets.refresh@, cr)
                &&& forall|k2: JwtKind, now2: u64|
                    spec_decode_outcome(old(self).secrets.access@, k2, now2, r->Ok_0.access@)
                        == expected_outcome(ca, k2, now2)
                &&& forall|k2: JwtKind, now2: u64|
                    spec_decode_outcome(old(self).secrets.refresh@, k2, now2, r->Ok_0.refresh@)
                        == expected_outcome(cr, k2, now2)
                &&& spec_decode_unverified(r->Ok_0.access@) == Some(ca)
                &&& spec_decode_unverified(r->Ok_0.refresh@) == Some(cr)
            }),
    {
        let owner = match self.users.register(email, password, tag_name, display_name) {
            Ok(owner) => owner,
            Err(e) => {
                return Err(e);
            },
        };
        Ok(self.make_jwts(owner, now))
    }

    /// Refresh rotation: fully verifies the string as a refresh token,
    /// consumes its ledger record through the compare-and-set — so of two
    /// competing calls on the same token at most one reaches issuance —
    /// and only then issues the replacement pair for the same owner. The
    /// consumed record can never satisfy a later refresh again.
    pub fn refresh(&mut self, token: &Vec<u8>, now: u64) -> (r: Result<Tokens, AuthError>)
        requires
            now <= u64::MAX - 3600,
        ensures
            final(self).secrets == old(self).secrets,
            final(self).users == old(self).users,
            old(self).wf() ==> final(self).wf(),
            match spec_decode_outcome(old(self).secrets.refresh@, JwtKind::Refresh, now, token@) {
                Err(e) => r == Err::<Tokens, AuthError>(e) && final(self).ledger.records@
                    == old(self).ledger.records@,
                Ok(c) => {
                    if spec_consumable(old(self).ledger.records@, c, now) {
                        let l1 = spec_deactivated(old(self).ledger.records@, c.jti);
                        let owner = old(self).ledger.records@[c.jti as int].uid;
                        let n = l1.len() as u64;
                        let ca = access_claims(owner, n, now);
                        let cr = refresh_claims(owner, (n + 1) as u64, now);
                        &&& r is Ok
                        &&& final(self).ledger.records@ == issued_records(l1, owner, now)
                        &&& r->Ok_0.access@ == spec_token(old(self).secrets.access@, ca)
                        &&& r->Ok_0.refresh@ == spec_token(old(self).secrets.refresh@, cr)
                        &&& forall|k2: JwtKind, now2: u64|
                            spec_decode_outcome(
                                old(self).secrets.access@,
                                k2,
                                now2,
                                r->Ok_0.access@,
                            ) == expected_outcome(ca, k2, now2)
                        &&& forall|k2: JwtKind, now2: u64|
                            spec_decode_outcome(
                                old(self).secrets.refresh@,
                                k2,
                                now2,
                                r->Ok_0.refresh@,
                            ) == expected_outcome(cr, k2, now2)
                        &&& spec_decode_unverified(r->Ok_0.access@) == Some(ca)
                        &&& spec_decode_unverified(r->Ok_0.refresh@) == Some(cr)
                    } else {
                        r == Err::<Tokens, AuthError>(AuthError::TokenInactive) && final(self).ledger.records@ == old(self).ledger.records@
                    }
                },
            },
    {
        let c = match decode(JwtKind::Refresh, token, &self.secrets, now) {
            Ok(c) => c,
            Err(e) => {
                return Err(e);
            },
        };
        let rec = match self.ledger.get(c.jti) {
            Some(rec) => rec,
            None => {
                return Err(AuthError::TokenInactive);
            },
        };
        let is_refresh = match rec.kind {
            JwtKind::Refresh => true,
            JwtKind::Access => false,
        };
        if !is_refresh {
            return Err(AuthError::TokenInactive);
        }
        let lifetime = rec.kind.lifetime();
        let fresh = now <= rec.issued_at || now - rec.issued_at <= lifetime;
        if !fresh {
            return Err(AuthError::TokenInactive);
        }
        if !self.ledger.deactivate_if_active(c.jti) {
            return Err(AuthError::TokenInactive);
        }
        Ok(self.make_jwts(rec.uid, now))
    }

    /// The liveness probe: recovers the ledger id through the unverified
    /// decode path (the lookup is harmless, and only a boolean ever leaves
    /// this function) and asks the ledger whether the record is usable.
    pub fn is_active(&self, token: &Vec<u8>, now: u64) -> (r: Result<bool, AuthError>)
        ensures
            r == match spec_decode_unverified(token@) {
                None => Err::<bool, AuthError>(AuthError::TokenMalformed),
                Some(c) => Ok::<bool, AuthError>(
                    spec_usable(self.ledger.records@, c.jti, now),
                ),
            },
    {
        let c = match decode_unverified(token) {
            Ok(c) => c,
            Err(e) => {
                return Err(e);
            },
        };
        Ok(self.ledger.is_usable(c.jti, now))
    }
}

/// Issued token pairs keep their kinds' lifetimes: the access token's
/// expiry is six hundred seconds after its issue time, the refresh token's
/// thirty-six hundred.
pub proof fn lemma_token_lifetimes(uid: u64, jti: u64, now: u64)
    requires
        now <= u64::MAX - 3600,
    ensures
        access_claims(uid, jti, now).exp - access_claims(uid, jti, now).iat == 600,
        refresh_claims(uid, jti, now).exp - refresh_claims(uid, jti, now).iat == 3600,
{
}

/// Both records written by an issuance event are usable the moment they
/// are written: the activity probe answers true immediately after
/// issuance.
pub proof fn lemma_usable_at_issue(l: Seq<TokenRecord>, uid: u64, now: u64)
    requires
        l.len() < usize::MAX as int,
    ensures
        spec_usable(issued_records(l, uid, now), l.len() as u64, now),
        spec_usable(issued_records(l, uid, now), (l.len() + 1) as u64, now),
{
    let l2 = issued_records(l, uid, now);
    assert(l2[l.len() as int].active && spec_fresh(l2[l.len() as int], now));
    assert(l2[l.len() as int + 1].active && spec_fresh(l2[l.len() as int + 1], now));
}

/// A record is unusable once `now` passes its issue time plus its kind's
/// lifetime: the activity probe answers false from then on, with nothing
/// written back.
pub proof fn lemma_usable_expires(l: Seq<TokenRecord>, id: u64, now: u64)
    requires
        now as int > l[id as int].issued_at as int + l[id as int].kind.spec_lifetime() as int,
    ensures
        !spec_usable(l, id, now),
{
}

/// A deactivated record is unusable at every time, regardless of expiry.
pub proof fn lemma_usable_after_deactivate(l: Seq<TokenRecord>, id: u64)
    ensures
        forall|now: u64| !spec_usable(spec_deactivated(l, id), id, now),
{
}

/// Refresh rotation, replayed: after one refresh has consumed its record
/// and issued the replacement pair, the new refresh token's id differs
/// from the consumed one, and presenting the old token again — at any
/// time — can no longer pass the record check: replay fails where the
/// first call succeeded.
pub proof fn lemma_refresh_rotation(
    key: Seq<u8>,
    t: Seq<u8>,
    l0: Seq<TokenRecord>,
    c: Claims,
    now: u64,
)
    requires
        spec_decode_outcome(key, JwtKind::Refresh, now, t) == Ok::<Claims, AuthError>(c),
        spec_consumable(l0, c, now),
        l0.len() < u64::MAX as int - 1,
    ensures
        ({
            let l1 = spec_deactivated(l0, c.jti);
            let l2 = issued_records(l1, l0[c.jti as int].uid, now);
            &&& (l1.len() + 1) as u64 != c.jti
            &&& !l2[c.jti as int].active
            &&& forall|now2: u64|
                #![trigger spec_decode_outcome(key, JwtKind::Refresh, now2, t)]
                match spec_decode_outcome(key, JwtKind::Refresh, now2, t) {
                    Ok(c2) => !spec_consumable(l2, c2, now2),
                    Err(_) => true,
                }
        }),
{
    let l1 = spec_deactivated(l0, c.jti);
    let l2 = issued_records(l1, l0[c.jti as int].uid, now);
    assert(l1.len() == l0.len());
    assert(!l2[c.jti as int].active);
    assert forall|now2: u64|
        #![trigger spec_decode_outcome(key, JwtKind::Refresh, now2, t)]
        match spec_decode_outcome(key, JwtKind::Refresh, now2, t) {
            Ok(c2) => !spec_consumable(l2, c2, now2),
            Err(_) => true,
        } by {
        crate::codec::lemma_decode_deterministic(key, JwtKind::Refresh, t, now, now2, c);
        if spec_decode_outcome(key, JwtKind::Refresh, now2, t) is Ok {
            assert(spec_decode_outcome(key, JwtKind::Refresh, now2, t) == Ok::<
                Claims,
                AuthError,
            >(c));
            assert(!l2[c.jti as int].active);
        }
    }
}

} // verus!
