use sitecore::middleware::auth::{authorize, bearer_token, AccessLog, AuthMiddleware, AuthMiddlewareMiddleware, Guarded};
use sitecore::token::{issue_token, AuthConfig, AuthError};

const NOW: u64 = 1_700_000_000;

fn config() -> AuthConfig {
    AuthConfig::new(b"guard-secret".to_vec()).unwrap()
}

fn guarded() -> AuthMiddlewareMiddleware<AccessLog> {
    AuthMiddleware::new(config()).new_transform(AccessLog::new())
}

#[test]
fn bearer_header_forms() {
    assert_eq!(bearer_token("Bearer abc.def"), Some("abc.def".to_string()));
    assert_eq!(bearer_token("Bearer Bearer x"), Some("Bearer x".to_string()));
    assert_eq!(bearer_token("Bearer "), None);
    assert_eq!(bearer_token("bearer abc"), None);
    assert_eq!(bearer_token("Basic abc"), None);
    assert_eq!(bearer_token("Bearerabc"), None);
    assert_eq!(bearer_token(""), None);
}

#[test]
fn missing_or_malformed_header_is_missing() {
    let c = config();
    assert_eq!(authorize(&c, None, NOW), Err(AuthError::Missing));
    assert_eq!(authorize(&c, Some("Token abc"), NOW), Err(AuthError::Missing));
    assert_eq!(authorize(&c, Some("Bearer not-a-jwt"), NOW), Err(AuthError::Invalid));
}

#[test]
fn rejected_requests_never_reach_the_handler() {
    let mut m = guarded();
    for header in [None, Some(""), Some("Bearer"), Some("Bearer "), Some("Basic dXNlcjpwYXNz"), Some("Bearer xyz")] {
        match m.call(header, NOW) {
            Guarded::Unauthorized(e) => assert_eq!(e.status(), 401),
            Guarded::Passed(_) => panic!("request should have been refused"),
        }
    }
    assert!(m.inner().subjects().is_empty());
}

#[test]
fn expired_token_never_reaches_the_handler() {
    let t = issue_token(&config(), "u1", NOW);
    let header = format!("Bearer {}", t);
    let mut m = guarded();
    assert!(matches!(m.call(Some(&header), NOW + 86400), Guarded::Unauthorized(AuthError::Expired)));
    assert!(m.inner().subjects().is_empty());
}

#[test]
fn valid_token_reaches_the_handler_once() {
    let t = issue_token(&config(), "u1", NOW);
    let header = format!("Bearer {}", t);
    let mut m = guarded();
    assert!(matches!(m.call(Some(&header), NOW + 10), Guarded::Passed(1)));
    assert_eq!(m.inner().subjects(), &vec!["u1".to_string()]);
    assert!(matches!(m.call(Some(&header), NOW + 20), Guarded::Passed(2)));
    assert!(matches!(m.call(None, NOW + 20), Guarded::Unauthorized(AuthError::Missing)));
    assert_eq!(m.inner().subjects().len(), 2);
}
