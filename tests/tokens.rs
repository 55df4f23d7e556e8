use goseli::error::ApiError;
use goseli::models::UserRole;
use goseli::token::{
    authenticate, bearer_token, build_claims, hash_token, seconds_setting, Claims, TokenConfig,
    TokenError, TokenKind, DEVELOPMENT_SECRET,
};

fn config() -> TokenConfig {
    TokenConfig::from_settings(Some("s3cret".to_string()), None, None)
}

#[test]
fn settings_fall_back_to_defaults() {
    let c = TokenConfig::from_settings(None, None, None);
    assert_eq!(c.secret, DEVELOPMENT_SECRET);
    assert_eq!(c.access_ttl, 900);
    assert_eq!(c.refresh_ttl, 604800);
    assert!(c.uses_development_secret());
    let c = TokenConfig::from_settings(Some("x".to_string()), Some("60".to_string()), Some("oops".to_string()));
    assert_eq!(c.access_ttl, 60);
    assert_eq!(c.refresh_ttl, 604800);
    assert!(!c.uses_development_secret());
    assert_eq!(seconds_setting(Some("-5".to_string()), 1), -5);
    assert_eq!(seconds_setting(Some("+7".to_string()), 1), 7);
    assert_eq!(seconds_setting(Some("".to_string()), 1), 1);
    assert_eq!(seconds_setting(Some(" 5".to_string()), 1), 1);
    assert_eq!(seconds_setting(Some("99999999999999999999".to_string()), 3), 3);
}

#[test]
fn claims_carry_identity_and_expiry() {
    let c = build_claims(TokenKind::Access, 11, "test@example.com".to_string(), UserRole::Customer, 22, 33, 1000, &config()).unwrap();
    assert_eq!(c.jti, 33);
    assert_eq!(c.sub, 11);
    assert_eq!(c.email, "test@example.com");
    assert_eq!(c.role, "customer");
    assert_eq!(c.store_id, 22);
    assert_eq!(c.iat, 1000);
    assert_eq!(c.exp, 1900);
    let r = build_claims(TokenKind::Refresh, 11, "a@x.com".to_string(), UserRole::Staff, 22, 33, 1000, &config()).unwrap();
    assert_eq!(r.exp, 1000 + 604800);
    assert_eq!(r.role, "staff");
    let e = build_claims(TokenKind::Refresh, 11, "a@x.com".to_string(), UserRole::Staff, 22, 33, i64::MAX - 10, &config());
    assert!(matches!(e, Err(ApiError::Internal(_))));
}

#[test]
fn token_digest_is_sha256_hex() {
    assert_eq!(hash_token("abc"), "ba7816bf8f01cfea414140de5dae2223b00361a396177a9cb410ff61f20015ad");
    assert_ne!(hash_token("abc"), hash_token("abd"));
    assert_eq!(hash_token("a.b.c").len(), 64);
    assert!(hash_token("a.b.c").chars().all(|c| c.is_ascii_digit() || ('a'..='f').contains(&c)));
}

#[test]
fn bearer_header_parsing() {
    assert_eq!(bearer_token(Some("Bearer tok.en".to_string())).unwrap(), "tok.en");
    match bearer_token(None) {
        Err(ApiError::Unauthorized(m)) => assert_eq!(m, "Missing Authorization header"),
        _ => panic!("expected Unauthorized"),
    }
    match bearer_token(Some("Basic abc".to_string())) {
        Err(ApiError::Unauthorized(m)) => assert_eq!(m, "Invalid Authorization header format"),
        _ => panic!("expected Unauthorized"),
    }
}

#[test]
fn expired_and_malformed_are_told_apart() {
    match authenticate(Err(TokenError::Expired)) {
        Err(ApiError::Unauthorized(m)) => assert_eq!(m, "Token has expired"),
        _ => panic!("expected Unauthorized"),
    }
    match authenticate(Err(TokenError::Malformed)) {
        Err(ApiError::Unauthorized(m)) => assert_eq!(m, "Invalid token"),
        _ => panic!("expected Unauthorized"),
    }
    let claims = Claims { sub: 5, jti: 1, email: "a@x.com".to_string(), role: "customer".to_string(), store_id: 9, exp: 10, iat: 1 };
    let user = authenticate(Ok(claims)).unwrap();
    assert_eq!(user.user_id, 5);
    assert_eq!(user.email, "a@x.com");
    assert_eq!(user.role, "customer");
    assert_eq!(user.store_id, 9);
}
