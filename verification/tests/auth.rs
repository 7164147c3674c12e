use auth_core::password::{hash_password, hash_then_verify, verify_password};
use auth_core::session_auth::{
    auth_finish, auth_session_step, auth_token_step, denial_error, issue_proof, logout_action,
    refresh_ttl, AuthDenial, AuthStep, IdentityProof, IssuerConfig, LogoutAction, SessionLookup,
};
use auth_core::token::{decode_token, encode_token, issue_token, verify_token, Token, TokenClaims};

#[test]
fn hash_then_verify_succeeds() {
    assert_eq!(hash_then_verify("p@ss"), Some(true));
}

#[test]
fn verify_rejects_wrong_secret() {
    let phc = hash_password("p@ss").expect("hashing failed");
    assert!(verify_password("p@ss", &phc));
    assert!(!verify_password("wrong", &phc));
    assert!(!verify_password("", &phc));
}

#[test]
fn hashes_differ_per_call() {
    let a = hash_password("p@ss").expect("hashing failed");
    let b = hash_password("p@ss").expect("hashing failed");
    assert_ne!(a, b);
    assert!(verify_password("p@ss", &a));
    assert!(verify_password("p@ss", &b));
}

#[test]
fn malformed_stored_hash_verifies_false() {
    assert!(!verify_password("p@ss", "p@ss"));
    assert!(!verify_password("p@ss", ""));
    assert!(!verify_password("p@ss", "$argon2id$garbage"));
}

#[test]
fn token_valid_before_expiry_invalid_after() {
    let secret: u64 = 0x5eed;
    let now: u64 = 1_000_000;
    let lifetime: u64 = 600;
    let t = issue_token(secret, 42, now, lifetime);
    assert_eq!(t.claims.sub, 42);
    assert_eq!(t.claims.iat, now);
    assert_eq!(t.claims.exp, now + lifetime);
    assert_eq!(verify_token(&t, secret, now + lifetime - 1), Some(42));
    assert_eq!(verify_token(&t, secret, now + lifetime + 1), None);
    assert_eq!(verify_token(&t, secret, now + lifetime), None);
    assert_eq!(verify_token(&t, secret, now), Some(42));
}

#[test]
fn token_rejects_tampering_and_foreign_secret() {
    let secret: u64 = 0x5eed;
    let t = issue_token(secret, 42, 1000, 600);
    let forged = Token { claims: TokenClaims { sub: 43, ..t.claims }, tag: t.tag };
    assert_eq!(verify_token(&forged, secret, 1000), None);
    let stretched = Token { claims: TokenClaims { exp: t.claims.exp + 1000, ..t.claims }, tag: t.tag };
    assert_eq!(verify_token(&stretched, secret, 1000), None);
    assert_eq!(verify_token(&t, 0x0bad, 1000), None);
}

#[test]
fn token_wire_roundtrip() {
    let t = issue_token(7, 0xfeed_beef_dead_c0de_0123_4567_89ab_cdef, 123_456, 3600);
    let wire = encode_token(&t);
    assert_eq!(wire.len(), 80);
    assert!(wire.iter().all(|b| b.is_ascii_hexdigit()));
    assert_eq!(decode_token(&wire), Some(t));
}

#[test]
fn token_decode_rejects_garbage() {
    assert_eq!(decode_token(b""), None);
    assert_eq!(decode_token(b"deadbeef"), None);
    let mut wire = encode_token(&issue_token(7, 42, 1000, 60));
    wire[5] = b'g';
    assert_eq!(decode_token(&wire), None);
    let mut upper = encode_token(&issue_token(7, 42, 1000, 60));
    upper[0] = upper[0].to_ascii_uppercase();
    if upper[0].is_ascii_alphabetic() {
        assert_eq!(decode_token(&upper), None);
    }
}

#[test]
fn middleware_rejects_missing_proof() {
    assert_eq!(auth_token_step(None, 7, 1000), AuthStep::Reject(AuthDenial::Unauthorized));
}

#[test]
fn middleware_rejects_expired_proof() {
    let t = issue_token(7, 42, 1000, 600);
    assert_eq!(auth_token_step(Some(&t), 7, 1601), AuthStep::Reject(AuthDenial::Unauthorized));
    assert_eq!(auth_token_step(Some(&t), 7, 1599), AuthStep::LookupAccount(42));
}

#[test]
fn middleware_rejects_deleted_account() {
    assert!(matches!(auth_finish(None), Err(AuthDenial::Unauthorized)));
}

#[test]
fn middleware_session_steps() {
    assert_eq!(auth_session_step(SessionLookup::Found(9)), AuthStep::LookupAccount(9));
    assert_eq!(
        auth_session_step(SessionLookup::Missing),
        AuthStep::Reject(AuthDenial::Unauthorized)
    );
    assert_eq!(
        auth_session_step(SessionLookup::StoreFailure),
        AuthStep::Reject(AuthDenial::StoreFailure)
    );
}

#[test]
fn denial_maps_to_error_taxonomy() {
    let (code, msg) = denial_error(AuthDenial::Unauthorized).response_parts();
    assert_eq!(code, 401);
    assert_eq!(msg, "user unauthorized");
    let (code, _) = denial_error(AuthDenial::StoreFailure).response_parts();
    assert_eq!(code, 500);
}

#[test]
fn issuance_follows_configured_strategy() {
    let stateless = IssuerConfig::Stateless { secret: 7, lifetime_secs: 600 };
    match issue_proof(&stateless, 42, 1000, 0xabc) {
        IdentityProof::Token(t) => {
            assert_eq!(t.claims.sub, 42);
            assert_eq!(t.claims.exp, 1600);
            assert_eq!(verify_token(&t, 7, 1000), Some(42));
        }
        IdentityProof::SessionKey(_) => panic!("stateless deployment issued a session key"),
    }
    let stateful = IssuerConfig::Stateful { ttl_secs: 600 };
    assert_eq!(issue_proof(&stateful, 42, 1000, 0xabc), IdentityProof::SessionKey(0xabc));
}

#[test]
fn logout_per_strategy() {
    let t = issue_token(7, 42, 1000, 600);
    assert_eq!(logout_action(&IdentityProof::Token(t)), LogoutAction::ClearCookie);
    assert_eq!(
        logout_action(&IdentityProof::SessionKey(0xabc)),
        LogoutAction::DeleteSession(0xabc)
    );
}

#[test]
fn sliding_expiry_refresh_per_strategy() {
    assert_eq!(refresh_ttl(&IssuerConfig::Stateful { ttl_secs: 600 }), Some(600));
    assert_eq!(refresh_ttl(&IssuerConfig::Stateless { secret: 7, lifetime_secs: 600 }), None);
}
