use goseli::auth::Accounts;
use goseli::dto::{validate_registration, AuthResponse, LoginRequest, RegisterRequest};
use goseli::error::ApiError;
use goseli::token::{hash_token, Claims, TokenConfig, TokenError};

const STORE: u128 = 1;

fn config() -> TokenConfig {
    TokenConfig::from_settings(Some("s3cret".to_string()), None, None)
}

fn sign(c: Claims) -> Result<String, ApiError> {
    Ok(format!("{}.{}.{}.{}.{}", c.sub, c.jti, c.email, c.iat, c.exp))
}

fn verify(password: String, hash: String) -> bool {
    hash == format!("hash:{}", password)
}

fn claims_of(token: &str) -> Result<Claims, TokenError> {
    let parts: Vec<&str> = token.split('.').collect();
    if parts.len() < 5 {
        return Err(TokenError::Malformed);
    }
    Ok(Claims {
        sub: parts[0].parse().map_err(|_| TokenError::Malformed)?,
        jti: parts[1].parse().map_err(|_| TokenError::Malformed)?,
        email: parts[2..parts.len() - 2].join("."),
        role: "customer".to_string(),
        store_id: STORE,
        iat: parts[parts.len() - 2].parse().map_err(|_| TokenError::Malformed)?,
        exp: parts[parts.len() - 1].parse().map_err(|_| TokenError::Malformed)?,
    })
}

fn registration(email: &str, password: &str) -> RegisterRequest {
    RegisterRequest { email: email.to_string(), password: password.to_string(), first_name: None, last_name: None }
}

fn register(a: &mut Accounts, email: &str, password: &str, id: u128, token_id: u128, now: i64) -> Result<goseli::dto::SignedIn, ApiError> {
    a.register(&config(), STORE, registration(email, password), format!("hash:{}", password), id, token_id, now, &sign)
}

#[test]
fn registration_validation() {
    assert!(validate_registration(&registration("a@x.com", "password1")).is_ok());
    assert!(matches!(validate_registration(&registration("a@x.com", "short")), Err(ApiError::Validation(_))));
    assert!(matches!(validate_registration(&registration("not-an-email", "password1")), Err(ApiError::Validation(_))));
    assert!(matches!(validate_registration(&registration("", "password1")), Err(ApiError::Validation(_))));
    let long = "p".repeat(129);
    assert!(matches!(validate_registration(&registration("a@x.com", &long)), Err(ApiError::Validation(_))));
    let max = "p".repeat(128);
    assert!(validate_registration(&registration("a@x.com", &max)).is_ok());
}

#[test]
fn register_issues_both_tokens_and_stores_refresh_digest() {
    let mut a = Accounts::new();
    let out = register(&mut a, "a@x.com", "password1", 10, 100, 1000).unwrap();
    assert_eq!(out.user.id, 10);
    assert_eq!(out.user.email, "a@x.com");
    assert_eq!(out.tokens.access_token, "10.100.a@x.com.1000.1900");
    assert_eq!(out.tokens.refresh_token, format!("10.100.a@x.com.1000.{}", 1000 + 604800));
    assert_eq!(out.tokens.token_type, "Bearer");
    assert_eq!(out.tokens.expires_in, 900);
    assert_eq!(a.users.users.len(), 1);
    assert_eq!(a.users.users[0].password_hash, "hash:password1");
    assert_eq!(a.tokens.records.len(), 1);
    assert_eq!(a.tokens.records[0].token_hash, hash_token(&out.tokens.refresh_token));
    assert_eq!(a.tokens.records[0].expires_at, 1000 + 604800);
}

#[test]
fn second_registration_with_same_email_conflicts() {
    let mut a = Accounts::new();
    register(&mut a, "a@x.com", "password1", 10, 100, 1000).unwrap();
    let again = register(&mut a, "a@x.com", "password2", 11, 101, 1001);
    assert!(matches!(again, Err(ApiError::Conflict(_))));
    assert_eq!(a.users.users.len(), 1);
    assert_eq!(a.tokens.records.len(), 1);
    let other_store = a.register(&config(), 2, registration("a@x.com", "password1"), "hash:password1".to_string(), 12, 102, 1002, &sign);
    assert!(other_store.is_ok());
}

#[test]
fn login_checks_credentials_and_activity() {
    let mut a = Accounts::new();
    register(&mut a, "a@x.com", "password1", 10, 100, 1000).unwrap();
    let wrong = a.login(&config(), STORE, LoginRequest { email: "a@x.com".to_string(), password: "nope".to_string() }, 101, 1001, true, &verify, &sign);
    let unknown = a.login(&config(), STORE, LoginRequest { email: "b@x.com".to_string(), password: "password1".to_string() }, 101, 1001, true, &verify, &sign);
    match (wrong, unknown) {
        (Err(ApiError::Unauthorized(m1)), Err(ApiError::Unauthorized(m2))) => assert_eq!(m1, m2),
        _ => panic!("expected the same Unauthorized twice"),
    }
    a.users.set_active(10, false, 1002).unwrap();
    let disabled = a.login(&config(), STORE, LoginRequest { email: "a@x.com".to_string(), password: "password1".to_string() }, 101, 1003, true, &verify, &sign);
    assert!(matches!(disabled, Err(ApiError::Forbidden(_))));
}

#[test]
fn register_then_login_then_old_refresh_fails() {
    let mut a = Accounts::new();
    let first = register(&mut a, "a@x.com", "password1", 10, 100, 1000).unwrap();
    assert!(!first.tokens.access_token.is_empty() && !first.tokens.refresh_token.is_empty());
    let login = a
        .login(&config(), STORE, LoginRequest { email: "a@x.com".to_string(), password: "password1".to_string() }, 101, 2000, true, &verify, &sign)
        .unwrap();
    assert_eq!(login.user.id, 10);
    assert_eq!(a.tokens.records.len(), 1);
    let old = first.tokens.refresh_token.clone();
    let r = a.refresh(&config(), &old, claims_of(&old), 102, 2001, &sign);
    assert!(matches!(r, Err(ApiError::Unauthorized(_))));
    let fresh = login.tokens.refresh_token.clone();
    let r = a.refresh(&config(), &fresh, claims_of(&fresh), 103, 2002, &sign).unwrap();
    assert_ne!(r.refresh_token, fresh);
}

#[test]
fn login_without_single_session_keeps_other_devices() {
    let mut a = Accounts::new();
    let first = register(&mut a, "a@x.com", "password1", 10, 100, 1000).unwrap();
    a.login(&config(), STORE, LoginRequest { email: "a@x.com".to_string(), password: "password1".to_string() }, 101, 2000, false, &verify, &sign).unwrap();
    assert_eq!(a.tokens.records.len(), 2);
    let old = first.tokens.refresh_token.clone();
    assert!(a.refresh(&config(), &old, claims_of(&old), 102, 2001, &sign).is_ok());
}

#[test]
fn refresh_rotates_the_stored_token() {
    let mut a = Accounts::new();
    let first = register(&mut a, "a@x.com", "password1", 10, 100, 1000).unwrap();
    let old = first.tokens.refresh_token.clone();
    let pair: AuthResponse = a.refresh(&config(), &old, claims_of(&old), 101, 1500, &sign).unwrap();
    assert_eq!(pair.access_token, "10.101.a@x.com.1500.2400");
    assert_eq!(a.tokens.records.len(), 1);
    assert_eq!(a.tokens.records[0].token_hash, hash_token(&pair.refresh_token));
    let again = a.refresh(&config(), &old, claims_of(&old), 102, 1600, &sign);
    assert!(matches!(again, Err(ApiError::Unauthorized(_))));
}

#[test]
fn failed_store_of_new_token_keeps_the_old_one() {
    let mut a = Accounts::new();
    let first = register(&mut a, "a@x.com", "password1", 10, 100, 1000).unwrap();
    let old = first.tokens.refresh_token.clone();
    // The new record reuses an id already on the ledger, so storing it fails.
    let failed = a.refresh(&config(), &old, claims_of(&old), 100, 1500, &sign);
    assert!(matches!(failed, Err(ApiError::Database(_))));
    assert_eq!(a.tokens.records.len(), 1);
    assert!(a.tokens.find_refresh_token(&hash_token(&old)).is_some());
    assert!(a.refresh(&config(), &old, claims_of(&old), 101, 1501, &sign).is_ok());
}

#[test]
fn refresh_refusals() {
    let mut a = Accounts::new();
    let first = register(&mut a, "a@x.com", "password1", 10, 100, 1000).unwrap();
    let old = first.tokens.refresh_token.clone();
    match a.refresh(&config(), &old, Err(TokenError::Expired), 101, 1500, &sign) {
        Err(ApiError::Unauthorized(m)) => assert_eq!(m, "Token has expired"),
        _ => panic!("expected Unauthorized"),
    }
    let unknown = "10.7.a@x.com.5.6";
    assert!(matches!(a.refresh(&config(), unknown, claims_of(unknown), 101, 1500, &sign), Err(ApiError::Unauthorized(_))));
    let late = 1000 + 604800 + 1;
    assert!(matches!(a.refresh(&config(), &old, claims_of(&old), 101, late, &sign), Err(ApiError::Unauthorized(_))));
    assert_eq!(a.tokens.records.len(), 0);
}

#[test]
fn refresh_refuses_disabled_account() {
    let mut a = Accounts::new();
    let first = register(&mut a, "a@x.com", "password1", 10, 100, 1000).unwrap();
    a.users.set_active(10, false, 1001).unwrap();
    let old = first.tokens.refresh_token.clone();
    assert!(matches!(a.refresh(&config(), &old, claims_of(&old), 101, 1500, &sign), Err(ApiError::Forbidden(_))));
    assert_eq!(a.tokens.records.len(), 1);
}

#[test]
fn logout_deletes_and_is_idempotent() {
    let mut a = Accounts::new();
    let first = register(&mut a, "a@x.com", "password1", 10, 100, 1000).unwrap();
    let t = first.tokens.refresh_token.clone();
    assert!(a.logout(&t, claims_of(&t)).is_ok());
    assert_eq!(a.tokens.records.len(), 0);
    assert!(a.logout(&t, claims_of(&t)).is_ok());
    let second = a.login(&config(), STORE, LoginRequest { email: "a@x.com".to_string(), password: "password1".to_string() }, 101, 2000, false, &verify, &sign).unwrap();
    assert!(a.logout("invalid.token.here", Err(TokenError::Malformed)).is_ok());
    assert_eq!(a.tokens.records.len(), 1);
    assert_eq!(a.tokens.records[0].token_hash, hash_token(&second.tokens.refresh_token));
}

#[test]
fn me_reads_profile() {
    let mut a = Accounts::new();
    register(&mut a, "a@x.com", "password1", 10, 100, 1000).unwrap();
    assert_eq!(a.me(10).unwrap().email, "a@x.com");
    assert!(matches!(a.me(99), Err(ApiError::NotFound(_))));
}

#[test]
fn login_in_the_same_second_revokes_the_old_token() {
    let mut a = Accounts::new();
    let first = register(&mut a, "a@x.com", "password1", 10, 100, 1000).unwrap();
    let login = a
        .login(&config(), STORE, LoginRequest { email: "a@x.com".to_string(), password: "password1".to_string() }, 101, 1000, true, &verify, &sign)
        .unwrap();
    assert_ne!(login.tokens.refresh_token, first.tokens.refresh_token);
    let old = first.tokens.refresh_token.clone();
    assert!(matches!(a.refresh(&config(), &old, claims_of(&old), 102, 1000, &sign), Err(ApiError::Unauthorized(_))));
}

#[test]
fn failed_login_keeps_other_sessions() {
    let mut a = Accounts::new();
    register(&mut a, "a@x.com", "password1", 10, 100, 1000).unwrap();
    let refuse = |_c: Claims| -> Result<String, ApiError> { Err(ApiError::internal("signer down".to_string())) };
    let r = a.login(&config(), STORE, LoginRequest { email: "a@x.com".to_string(), password: "password1".to_string() }, 101, 2000, true, &verify, &refuse);
    assert!(matches!(r, Err(ApiError::Internal(_))));
    assert_eq!(a.tokens.records.len(), 1);
    let reused_id = a.login(&config(), STORE, LoginRequest { email: "a@x.com".to_string(), password: "password1".to_string() }, 100, 2000, true, &verify, &sign);
    assert!(matches!(reused_id, Err(ApiError::Database(_))));
    assert_eq!(a.tokens.records.len(), 1);
}

#[test]
fn failed_registration_records_nothing() {
    let mut a = Accounts::new();
    let refuse = |_c: Claims| -> Result<String, ApiError> { Err(ApiError::internal("signer down".to_string())) };
    let r = a.register(&config(), STORE, registration("a@x.com", "password1"), "hash:password1".to_string(), 10, 100, 1000, &refuse);
    assert!(matches!(r, Err(ApiError::Internal(_))));
    assert_eq!(a.users.users.len(), 0);
    assert_eq!(a.tokens.records.len(), 0);
}
