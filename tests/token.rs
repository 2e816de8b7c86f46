use sitecore::response::Claims;
use sitecore::token::{check_claims, issue_token, validate_token, AuthConfig, AuthError, ConfigError, TOKEN_LIFETIME_SECS};

fn config() -> AuthConfig {
    AuthConfig::new(b"test-signing-secret".to_vec()).unwrap()
}

const NOW: u64 = 1_700_000_000;

#[test]
fn empty_secret_is_refused() {
    assert!(matches!(AuthConfig::new(Vec::new()), Err(ConfigError::MissingSecret)));
}

#[test]
fn token_validates_right_after_issue() {
    let c = config();
    let t = issue_token(&c, "user-42", NOW);
    assert_eq!(validate_token(&c, &t, NOW), Ok("user-42".to_string()));
}

#[test]
fn token_validates_until_just_before_expiry() {
    let c = config();
    let t = issue_token(&c, "user-42", NOW);
    assert_eq!(validate_token(&c, &t, NOW + TOKEN_LIFETIME_SECS - 1), Ok("user-42".to_string()));
}

#[test]
fn token_expires_after_a_day() {
    let c = config();
    let t = issue_token(&c, "user-42", NOW);
    assert_eq!(TOKEN_LIFETIME_SECS, 86400);
    assert_eq!(validate_token(&c, &t, NOW + 86400), Err(AuthError::Expired));
    assert_eq!(validate_token(&c, &t, NOW + 86400 * 3), Err(AuthError::Expired));
}

#[test]
fn token_from_other_secret_is_invalid() {
    let other = AuthConfig::new(b"another-secret".to_vec()).unwrap();
    let t = issue_token(&other, "user-42", NOW);
    assert_eq!(validate_token(&config(), &t, NOW), Err(AuthError::Invalid));
}

#[test]
fn tampered_token_is_invalid() {
    let c = config();
    let t = issue_token(&c, "user-42", NOW);
    let mut tampered = t.clone();
    tampered.pop();
    tampered.push(if t.ends_with('A') { 'B' } else { 'A' });
    assert_eq!(validate_token(&c, &tampered, NOW), Err(AuthError::Invalid));
    assert_eq!(validate_token(&c, "garbage", NOW), Err(AuthError::Invalid));
    assert_eq!(validate_token(&c, "", NOW), Err(AuthError::Invalid));
}

#[test]
fn claims_are_judged_against_now() {
    let c = Claims { sub: "7".to_string(), exp: 100 };
    assert_eq!(check_claims(Some(c), 99), Ok("7".to_string()));
    let c = Claims { sub: "7".to_string(), exp: 100 };
    assert_eq!(check_claims(Some(c), 100), Err(AuthError::Expired));
    assert_eq!(check_claims(None, 0), Err(AuthError::Invalid));
}

#[test]
fn every_auth_error_is_401() {
    assert_eq!(AuthError::Missing.status(), 401);
    assert_eq!(AuthError::Invalid.status(), 401);
    assert_eq!(AuthError::Expired.status(), 401);
}
