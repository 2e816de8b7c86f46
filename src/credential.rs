//! Password hashing and verification with bcrypt.

use vstd::prelude::*;

verus! {

/// What `bcrypt::verify(plain, hashed)` returns: `Some(matches)` when
/// `hashed` is a well-formed bcrypt hash, `None` when it is malformed.
pub uninterp spec fn bcrypt_verdict(plain: Seq<char>, hashed: Seq<char>) -> Option<bool>;

#[verifier::external_type_specification]
#[verifier::external_body]
pub struct ExBcryptError(bcrypt::BcryptError);

/// Relies on `bcrypt::verify`: it parses `hashed` (prefix, cost, salt and
/// digest) and compares the digest of `plain` under that salt and cost; it
/// fails on a malformed hash and depends on its arguments alone.
#[verifier::external_body]
fn bcrypt_verify(plain: &str, hashed: &str) -> (r: Result<bool, bcrypt::BcryptError>)
    ensures
        match r {
            Ok(b) => bcrypt_verdict(plain@, hashed@) == Some(b),
            Err(_) => bcrypt_verdict(plain@, hashed@) is None,
        },
{
    bcrypt::verify(plain, hashed)
}

/// Relies on `bcrypt::hash` with `bcrypt::DEFAULT_COST`: a fresh random salt
/// on each call, and a hash that `bcrypt::verify` accepts for the same
/// password.
#[verifier::external_body]
fn bcrypt_hash(plain: &str) -> (r: Result<String, bcrypt::BcryptError>)
    ensures
        r matches Ok(h) ==> bcrypt_verdict(plain@, h@) == Some(true),
{
    bcrypt::hash(plain, bcrypt::DEFAULT_COST)
}

/// A password is accepted only when the stored hash is well-formed and
/// matches it.
pub open spec fn password_accepted(plain: Seq<char>, hashed: Seq<char>) -> bool {
    bcrypt_verdict(plain, hashed) == Some(true)
}

#[derive(Debug, Clone, Copy, PartialEq, Eq, Structural)]
pub enum CredentialError {
    /// The hashing routine could not produce a hash (no randomness, bad cost).
    HashingFailed,
}

/// Turns the outcome of a hash comparison into a yes/no answer, failing
/// closed: a malformed stored hash is a mismatch.
pub fn accept_verdict(verdict: Option<bool>) -> (r: bool)
    ensures
        r <==> verdict == Some(true),
{
    match verdict {
        Some(b) => b,
        None => false,
    }
}

/// Checks a plaintext password against a stored salted hash.
pub fn verify_password(plain: &str, hashed: &str) -> (r: bool)
    ensures
        r <==> password_accepted(plain@, hashed@),
{
    let verdict = match bcrypt_verify(plain, hashed) {
        Ok(b) => Some(b),
        Err(_) => None,
    };
    accept_verdict(verdict)
}

/// Hashes a password with a fresh salt; the hash verifies against it.
pub fn hash_password(plain: &str) -> (r: Result<String, CredentialError>)
    ensures
        r matches Ok(h) ==> password_accepted(plain@, h@),
{
    match bcrypt_hash(plain) {
        Ok(h) => Ok(h),
        Err(_) => Err(CredentialError::HashingFailed),
    }
}

} // verus!
