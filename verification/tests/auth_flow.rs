use base64::Engine;
use netherite_auth::codec::{decode, decode_unverified, encode};
use netherite_auth::middleware::{authenticate, AuthOutcome};
use netherite_auth::session::AuthState;
use netherite_auth::token::{AuthError, Claims, JwtKind, SecretStore};

const NOW: u64 = 1_700_000_000;

fn secrets() -> SecretStore {
    SecretStore::new(b"access-secret".to_vec(), b"refresh-secret".to_vec()).unwrap()
}

fn state_with_alice() -> (AuthState, netherite_auth::session::Tokens) {
    let mut state = AuthState::new(secrets());
    let pair = state
        .register(
            &"alice@example.com".to_string(),
            "secret123",
            &"alice".to_string(),
            &"Alice".to_string(),
            NOW,
        )
        .expect("registration must succeed on an empty store");
    (state, pair)
}

#[test]
fn login_issues_decodable_pair() {
    let (mut state, _) = state_with_alice();
    let pair = state
        .login(&"alice@example.com".to_string(), "secret123", NOW + 5)
        .expect("login with the registered password must succeed");
    let ac = decode(JwtKind::Access, &pair.access, &state.secrets, NOW + 5).unwrap();
    assert_eq!(ac.uid, 0);
    assert_eq!(ac.sub, JwtKind::Access);
    assert_eq!(ac.iat, NOW + 5);
    assert_eq!(ac.exp - ac.iat, 600);
    let rc = decode(JwtKind::Refresh, &pair.refresh, &state.secrets, NOW + 5).unwrap();
    assert_eq!(rc.uid, 0);
    assert_eq!(rc.sub, JwtKind::Refresh);
    assert_eq!(rc.exp - rc.iat, 3600);
    assert_ne!(ac.jti, rc.jti);
}

#[test]
fn is_active_window() {
    let (state, pair) = state_with_alice();
    let ac = decode_unverified(&pair.access).unwrap();
    let rc = decode_unverified(&pair.refresh).unwrap();
    // true immediately after issuance
    assert_eq!(state.is_active(&pair.access, NOW), Ok(true));
    assert_eq!(state.is_active(&pair.refresh, NOW), Ok(true));
    // still true at the edge of the lifetime, false one second past it
    assert_eq!(state.is_active(&pair.access, NOW + 600), Ok(true));
    assert_eq!(state.is_active(&pair.access, NOW + 601), Ok(false));
    assert_eq!(state.is_active(&pair.refresh, NOW + 601), Ok(true));
    assert_eq!(state.is_active(&pair.refresh, NOW + 3601), Ok(false));
    // false immediately after deactivation, regardless of expiry
    let mut state = state;
    state.ledger.deactivate(ac.jti);
    assert_eq!(state.is_active(&pair.access, NOW), Ok(false));
    state.ledger.deactivate(rc.jti);
    assert_eq!(state.is_active(&pair.refresh, NOW), Ok(false));
}

#[test]
fn refresh_rotation_replay_fails() {
    let (mut state, pair) = state_with_alice();
    let j0 = decode_unverified(&pair.refresh).unwrap().jti;
    let pair2 = state
        .refresh(&pair.refresh, NOW + 10)
        .expect("first refresh of a fresh token must succeed");
    let j1 = decode_unverified(&pair2.refresh).unwrap().jti;
    assert_ne!(j1, j0);
    // replaying the consumed token fails with the revoked outcome
    assert!(matches!(
        state.refresh(&pair.refresh, NOW + 20),
        Err(AuthError::TokenInactive)
    ));
    // while the replacement still works
    assert!(state.refresh(&pair2.refresh, NOW + 30).is_ok());
}

#[test]
fn double_refresh_single_winner() {
    // Two competing consumptions linearize on the ledger's compare-and-set:
    // exactly one observes the transition.
    let (mut state, pair) = state_with_alice();
    let jti = decode_unverified(&pair.refresh).unwrap().jti;
    assert!(state.ledger.deactivate_if_active(jti));
    assert!(!state.ledger.deactivate_if_active(jti));
    // and at the session level, of two identical refresh calls one wins
    let (mut state2, pair2) = state_with_alice();
    let first = state2.refresh(&pair2.refresh, NOW + 1);
    let second = state2.refresh(&pair2.refresh, NOW + 1);
    assert_eq!(first.is_ok() as u32 + second.is_ok() as u32, 1);
}

#[test]
fn login_failures_indistinguishable() {
    let (mut state, _) = state_with_alice();
    let no_user = state.login(&"nobody@example.com".to_string(), "anything", NOW);
    let bad_pass = state.login(&"alice@example.com".to_string(), "wrong-password", NOW);
    assert!(matches!(no_user, Err(AuthError::InvalidCredentials)));
    assert!(matches!(bad_pass, Err(AuthError::InvalidCredentials)));
    assert_eq!(no_user.err(), bad_pass.err());
}

#[test]
fn duplicate_email_rejected() {
    let (mut state, _) = state_with_alice();
    let users_before = state.users.users.len();
    let records_before = state.ledger.records.len();
    let r = state.register(
        &"alice@example.com".to_string(),
        "other-password",
        &"alice2".to_string(),
        &"Alice Again".to_string(),
        NOW + 1,
    );
    assert!(matches!(r, Err(AuthError::AlreadyRegistered)));
    assert_eq!(state.users.users.len(), users_before);
    assert_eq!(state.ledger.records.len(), records_before);
}

#[test]
fn end_to_end_register_then_refresh() {
    let mut state = AuthState::new(secrets());
    let pair = state
        .register(
            &"alice@example.com".to_string(),
            "secret123",
            &"alice".to_string(),
            &"Alice".to_string(),
            NOW,
        )
        .expect("registration must succeed");
    let user = &state.users.users[0];
    assert_eq!(user.tag.0, "alice");
    for k in 0..4 {
        assert!((0..16).contains(&user.tag.1[k]));
    }
    assert_eq!(user.display_name, "Alice");
    // the plaintext is never stored
    assert_ne!(user.password_hash, "secret123");
    assert!(bcrypt::verify("secret123", &user.password_hash).unwrap());
    let uid = user.id;
    let pair2 = state
        .refresh(&pair.refresh, NOW + 60)
        .expect("refreshing the fresh pair must succeed");
    let ac = decode(JwtKind::Access, &pair2.access, &state.secrets, NOW + 60).unwrap();
    assert_eq!(ac.uid, uid);
}

#[test]
fn same_tag_gets_distinct_discriminators() {
    let (mut state, _) = state_with_alice();
    state
        .register(
            &"alice2@example.com".to_string(),
            "secret456",
            &"alice".to_string(),
            &"Other Alice".to_string(),
            NOW + 2,
        )
        .expect("a second user may reuse the display name");
    let a = &state.users.users[0];
    let b = &state.users.users[1];
    assert_eq!(a.tag.0, b.tag.0);
    assert_ne!(a.tag.1, b.tag.1);
}

#[test]
fn malformed_tokens_rejected() {
    let (state, _) = state_with_alice();
    for garbage in [
        &b""[..],
        &b"garbage"[..],
        &b"a.b"[..],
        &b"a.b.c.d"[..],
        &b"a.!not-base64.c"[..],
    ] {
        assert_eq!(
            state.is_active(&garbage.to_vec(), NOW),
            Err(AuthError::TokenMalformed)
        );
    }
}

#[test]
fn foreign_signature_rejected() {
    let (mut state, pair) = state_with_alice();
    let other = SecretStore::new(b"other-access".to_vec(), b"other-refresh".to_vec()).unwrap();
    assert!(matches!(
        decode(JwtKind::Access, &pair.access, &other, NOW),
        Err(AuthError::TokenInvalidSignature)
    ));
    // an access token presented for refresh fails its signature check,
    // because the kinds are keyed separately
    assert!(matches!(
        state.refresh(&pair.access, NOW),
        Err(AuthError::TokenInvalidSignature)
    ));
}

#[test]
fn expired_token_rejected() {
    let (state, pair) = state_with_alice();
    assert!(matches!(
        decode(JwtKind::Access, &pair.access, &state.secrets, NOW + 601),
        Err(AuthError::TokenExpired)
    ));
    assert!(decode(JwtKind::Access, &pair.access, &state.secrets, NOW + 600).is_ok());
}

#[test]
fn wrong_kind_rejected() {
    let st = secrets();
    let c = Claims {
        uid: 1,
        jti: 0,
        sub: JwtKind::Refresh,
        iat: NOW,
        exp: NOW + 600,
    };
    // signed with the access key, but claiming to be a refresh token
    let t = encode(JwtKind::Access, &c, &st);
    assert!(matches!(
        decode(JwtKind::Access, &t, &st, NOW),
        Err(AuthError::TokenWrongKind)
    ));
}

#[test]
fn middleware_gate_decisions() {
    let (state, pair) = state_with_alice();
    let no_values: Vec<Vec<u8>> = vec![];
    assert_eq!(authenticate(&state, &no_values, NOW), AuthOutcome::Anonymous);

    let mut bearer = b"Bearer ".to_vec();
    bearer.extend_from_slice(&pair.access);
    let two = vec![bearer.clone(), bearer.clone()];
    assert_eq!(authenticate(&state, &two, NOW), AuthOutcome::Rejected);

    let basic = vec![b"Basic abc".to_vec()];
    assert_eq!(authenticate(&state, &basic, NOW), AuthOutcome::Anonymous);

    match authenticate(&state, &vec![bearer.clone()], NOW) {
        AuthOutcome::Authenticated(c) => {
            assert_eq!(c.uid, 0);
            assert_eq!(c.sub, JwtKind::Access);
        },
        other => panic!("expected an authenticated outcome, got {:?}", other),
    }

    // a refresh token on a protected endpoint is rejected
    let mut refresh_bearer = b"Bearer ".to_vec();
    refresh_bearer.extend_from_slice(&pair.refresh);
    assert_eq!(
        authenticate(&state, &vec![refresh_bearer], NOW),
        AuthOutcome::Rejected
    );

    // a revoked token is rejected even before expiry
    let mut state = state;
    let jti = decode_unverified(&pair.access).unwrap().jti;
    state.ledger.deactivate(jti);
    assert_eq!(
        authenticate(&state, &vec![bearer], NOW),
        AuthOutcome::Rejected
    );
}

#[test]
fn tokens_verify_under_jsonwebtoken() {
    // The emitted token is a real HS256 JWT: jsonwebtoken's own crypto
    // accepts the signature that our signing wrapper produced.
    let (state, pair) = state_with_alice();
    let token = String::from_utf8(pair.access.clone()).unwrap();
    let dot2 = token.rfind('.').unwrap();
    let (message, sig) = token.split_at(dot2);
    let key = jsonwebtoken::DecodingKey::from_secret(b"access-secret");
    let ok = jsonwebtoken::crypto::verify(
        &sig[1..],
        message.as_bytes(),
        &key,
        jsonwebtoken::Algorithm::HS256,
    )
    .unwrap();
    assert!(ok);
    // and a tampered payload no longer verifies under the library
    let mut tampered = pair.access.clone();
    let first_dot = tampered.iter().position(|&b| b == b'.').unwrap();
    tampered[first_dot + 1] ^= 1;
    assert!(decode(JwtKind::Access, &tampered, &state.secrets, NOW).is_err());
}

#[test]
fn payload_is_canonical_json() {
    let st = secrets();
    let c = Claims {
        uid: 7,
        jti: 42,
        sub: JwtKind::Access,
        iat: 1000,
        exp: 1600,
    };
    let t = encode(JwtKind::Access, &c, &st);
    let token = String::from_utf8(t.clone()).unwrap();
    let parts: Vec<&str> = token.split('.').collect();
    assert_eq!(parts.len(), 3);
    let header = base64::engine::general_purpose::URL_SAFE_NO_PAD
        .decode(parts[0])
        .unwrap();
    assert_eq!(header, b"{\"typ\":\"JWT\",\"alg\":\"HS256\"}");
    let payload = base64::engine::general_purpose::URL_SAFE_NO_PAD
        .decode(parts[1])
        .unwrap();
    assert_eq!(
        payload,
        b"{\"uid\":7,\"jti\":42,\"sub\":\"access\",\"iat\":1000,\"exp\":1600}"
    );
    assert_eq!(decode(JwtKind::Access, &t, &st, 1600), Ok(c));
    assert_eq!(decode_unverified(&t), Ok(c));
}

#[test]
fn secret_store_startup_checks() {
    assert!(SecretStore::new(b"".to_vec(), b"x".to_vec()).is_none());
    assert!(SecretStore::new(b"x".to_vec(), b"".to_vec()).is_none());
    assert!(SecretStore::new(b"same".to_vec(), b"same".to_vec()).is_none());
    assert!(SecretStore::new(b"a".to_vec(), b"b".to_vec()).is_some());
}
