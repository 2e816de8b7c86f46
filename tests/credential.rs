use sitecore::credential::{accept_verdict, hash_password, verify_password};

const KNOWN_HASH: &str = "$2a$04$UuTkLRZZ6QofpDOlMz32MuuxEHA43WOemOYHPz6.SjsVsyO1tDU96";

#[test]
fn known_hash_accepts_its_password() {
    assert!(verify_password("password", KNOWN_HASH));
}

#[test]
fn known_hash_rejects_other_password() {
    assert!(!verify_password("passw0rd", KNOWN_HASH));
}

#[test]
fn malformed_hash_fails_closed() {
    assert!(!verify_password("password", "not-a-hash"));
    assert!(!verify_password("password", ""));
    assert!(!verify_password("password", "$2a$04$short"));
}

#[test]
fn verdicts_fail_closed() {
    assert!(accept_verdict(Some(true)));
    assert!(!accept_verdict(Some(false)));
    assert!(!accept_verdict(None));
}

#[test]
fn hashed_password_verifies() {
    let h = hash_password("s3cret pass").unwrap();
    assert!(h.starts_with("$2b$12$"));
    assert!(verify_password("s3cret pass", &h));
    assert!(!verify_password("s3cret pas", &h));
}

#[test]
fn hashing_twice_gives_different_hashes() {
    let a = hash_password("same").unwrap();
    let b = hash_password("same").unwrap();
    assert_ne!(a, b);
}
