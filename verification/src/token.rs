//! The token data model: token kinds with their lifetimes, the claims a
//! token carries, the signing keys, and the error taxonomy of the
//! authentication subsystem.
use vstd::prelude::*;

verus! {

/// The two kinds of token the service issues, each signed with its own key.
#[derive(Clone, Copy, Debug, PartialEq, Eq, Structural)]
pub enum JwtKind {
    Access,
    Refresh,
}

impl JwtKind {
    /// Lifetime of a token of this kind, in seconds.
    pub open spec fn spec_lifetime(self) -> u64 {
        match self {
            JwtKind::Access => 600,
            JwtKind::Refresh => 3600,
        }
    }

    /// Lifetime of a token of this kind, in seconds:
    /// ten minutes for access tokens, sixty minutes for refresh tokens.
    pub fn lifetime(&self) -> (r: u64)
        ensures
            r == self.spec_lifetime(),
    {
        match self {
            JwtKind::Access => 600,
            JwtKind::Refresh => 3600,
        }
    }

    /// The signing secret for this kind of token.
    pub fn key<'a>(&self, secrets: &'a SecretStore) -> (r: &'a Vec<u8>)
        ensures
            r@ == secrets.spec_key(*self),
    {
        match self {
            JwtKind::Access => &secrets.access,
            JwtKind::Refresh => &secrets.refresh,
        }
    }
}

/// The payload embedded in a signed token. `jti` is the ledger id of the
/// record written when the token was issued; `exp` is always `iat` plus the
/// kind's lifetime at issuance, and is never recomputed at verify time.
#[derive(Clone, Copy, Debug, PartialEq, Eq, Structural)]
pub struct Claims {
    pub uid: u64,
    pub jti: u64,
    pub sub: JwtKind,
    pub iat: u64,
    pub exp: u64,
}

/// The two process-wide symmetric signing keys, loaded once at startup and
/// immutable afterwards: one for access tokens, one distinct one for refresh
/// tokens.
pub struct SecretStore {
    pub access: Vec<u8>,
    pub refresh: Vec<u8>,
}

impl SecretStore {
    /// Both secrets present (nonempty) and distinct.
    pub open spec fn wf(&self) -> bool {
        self.access@.len() > 0 && self.refresh@.len() > 0 && self.access@ != self.refresh@
    }

    pub open spec fn spec_key(&self, kind: JwtKind) -> Seq<u8> {
        match kind {
            JwtKind::Access => self.access@,
            JwtKind::Refresh => self.refresh@,
        }
    }

    /// Startup check: accepts the pair of secrets only when both are present
    /// and they differ, as required of the process configuration.
    pub fn new(access: Vec<u8>, refresh: Vec<u8>) -> (r: Option<SecretStore>)
        ensures
            match r {
                Some(s) => s.access@ == access@ && s.refresh@ == refresh@ && s.wf(),
                None => access@.len() == 0 || refresh@.len() == 0 || access@ == refresh@,
            },
    {
        if access.len() == 0 || refresh.len() == 0 {
            return None;
        }
        if access == refresh {
            return None;
        }
        let s = SecretStore { access, refresh };
        Some(s)
    }
}

/// Everything that can go wrong in this subsystem. Credential and token
/// failures are surfaced to HTTP callers as one generic bad-request outcome;
/// the distinctions below exist for the callers inside the process.
#[derive(Clone, Copy, Debug, PartialEq, Eq, Structural)]
pub enum AuthError {
    /// No such user, or the password does not match (indistinguishable).
    InvalidCredentials,
    /// The email, or every discriminator of the requested tag, is taken.
    AlreadyRegistered,
    /// The token string cannot be parsed into the token format.
    TokenMalformed,
    /// The signature does not match the expected key.
    TokenInvalidSignature,
    /// The token's embedded expiry has passed.
    TokenExpired,
    /// The backing ledger record is missing, revoked, rotated away, or of
    /// the wrong kind, or its ledger lifetime has run out.
    TokenInactive,
    /// The wrong kind of token was presented (a refresh token where an
    /// access token was expected, or the reverse).
    TokenWrongKind,
    /// An underlying facility failed (password hashing could not obtain
    /// randomness); distinct from every authentication failure.
    StorageUnavailable,
}

} // verus!
