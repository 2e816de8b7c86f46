//! Stateless, signed, time-limited identity tokens (HS256 JSON Web Tokens).

use vstd::prelude::*;
use crate::response::Claims;

verus! {

/// How long an issued token stays valid, in seconds (24 hours).
pub const TOKEN_LIFETIME_SECS: u64 = 86400;

/// Why a token or a request was refused.
#[derive(Debug, Clone, Copy, PartialEq, Eq, Structural)]
pub enum AuthError {
    /// No `Authorization: Bearer <token>` header.
    Missing,
    /// Bad signature or malformed token.
    Invalid,
    /// The token's expiry time has passed.
    Expired,
}

impl AuthError {
    /// Every authentication failure is answered with 401 Unauthorized.
    pub fn status(&self) -> (r: u16)
        ensures
            r == 401,
    {
        401
    }
}

#[derive(Debug, Clone, Copy, PartialEq, Eq, Structural)]
pub enum ConfigError {
    /// No signing secret was configured.
    MissingSecret,
}

/// The server-held symmetric signing secret, loaded from configuration.
pub struct AuthConfig {
    secret: Vec<u8>,
}

impl AuthConfig {
    pub closed spec fn secret(&self) -> Seq<u8> {
        self.secret@
    }

    /// Builds the configuration; an empty secret counts as absent.
    pub fn new(secret: Vec<u8>) -> (r: Result<AuthConfig, ConfigError>)
        ensures
            secret@.len() == 0 ==> r == Err::<AuthConfig, ConfigError>(ConfigError::MissingSecret),
            secret@.len() > 0 ==> (r matches Ok(c) && c.secret() == secret@),
    {
        if secret.len() == 0 {
            Err(ConfigError::MissingSecret)
        } else {
            Ok(AuthConfig { secret })
        }
    }
}

/// The token that `jsonwebtoken::encode` produces for the claims
/// `{sub, exp}` under HS256 with `secret`.
pub uninterp spec fn jwt_signed(sub: Seq<char>, exp: u64, secret: Seq<u8>) -> Seq<char>;

/// What `jsonwebtoken::decode` reads from `token` under HS256 with `secret`,
/// expiry not checked: `Some((sub, exp))` when the signature is good and the
/// claims hold a string `sub` and an integer `exp`, `None` otherwise.
pub uninterp spec fn jwt_claims(token: Seq<char>, secret: Seq<u8>) -> Option<(Seq<char>, u64)>;

/// Relies on `jsonwebtoken::encode` with the default header (HS256) and an
/// HMAC key from `secret`: HMAC signing and serialising a map of one string
/// and one integer cannot fail, the token is determined by its arguments,
/// and `jsonwebtoken::decode` with the same secret gives the claims back.
#[verifier::external_body]
fn jwt_encode(sub: &str, exp: u64, secret: &[u8]) -> (r: String)
    ensures
        r@ == jwt_signed(sub@, exp, secret@),
        jwt_claims(r@, secret@) == Some((sub@, exp)),
{
    let mut claims = serde_json::Map::new();
    claims.insert("sub".to_string(), serde_json::Value::from(sub));
    claims.insert("exp".to_string(), serde_json::Value::from(exp));
    let key = jsonwebtoken::EncodingKey::from_secret(secret);
    jsonwebtoken::encode(&jsonwebtoken::Header::default(), &claims, &key).unwrap_or_default()
}

/// Relies on `jsonwebtoken::decode` under HS256 with an HMAC key from
/// `secret` and expiry checking switched off: it checks the signature and
/// reads the `sub` and `exp` claims.
#[verifier::external_body]
fn jwt_decode(token: &str, secret: &[u8]) -> (r: Option<Claims>)
    ensures
        match r {
            Some(c) => jwt_claims(token@, secret@) == Some((c.sub@, c.exp)),
            None => jwt_claims(token@, secret@) is None,
        },
{
    let mut validation = jsonwebtoken::Validation::new(jsonwebtoken::Algorithm::HS256);
    validation.validate_exp = false;
    let key = jsonwebtoken::DecodingKey::from_secret(secret);
    let data = jsonwebtoken::decode::<serde_json::Map<String, serde_json::Value>>(token, &key, &validation).ok()?;
    let sub = data.claims.get("sub")?.as_str()?.to_string();
    let exp = data.claims.get("exp")?.as_u64()?;
    Some(Claims { sub, exp })
}

/// The decision on decoded claims at time `now`: the subject while the
/// token has not expired.
pub open spec fn claims_verdict(decoded: Option<(Seq<char>, u64)>, now: u64) -> Result<Seq<char>, AuthError> {
    match decoded {
        None => Err(AuthError::Invalid),
        Some((sub, exp)) => if exp > now {
            Ok(sub)
        } else {
            Err(AuthError::Expired)
        },
    }
}

/// What validating `token` at time `now` yields.
pub open spec fn token_verdict(secret: Seq<u8>, token: Seq<char>, now: u64) -> Result<Seq<char>, AuthError> {
    claims_verdict(jwt_claims(token, secret), now)
}

/// `r` is the string form of the verdict `v`.
pub open spec fn same_verdict(r: Result<String, AuthError>, v: Result<Seq<char>, AuthError>) -> bool {
    match v {
        Ok(s) => (r matches Ok(t) && t@ == s),
        Err(e) => r == Err::<String, AuthError>(e),
    }
}

/// Decides on decoded claims: `Invalid` when nothing could be decoded,
/// `Expired` once `exp <= now`, the subject otherwise.
pub fn check_claims(decoded: Option<Claims>, now: u64) -> (r: Result<String, AuthError>)
    ensures
        same_verdict(
            r,
            claims_verdict(
                match decoded {
                    Some(c) => Some((c.sub@, c.exp)),
                    None => None,
                },
                now,
            ),
        ),
{
    match decoded {
        None => Err(AuthError::Invalid),
        Some(c) => if c.exp > now {
            Ok(c.sub)
        } else {
            Err(AuthError::Expired)
        },
    }
}

/// Issues a token for `subject` at time `now`, expiring 24 hours later.
pub fn issue_token(config: &AuthConfig, subject: &str, now: u64) -> (r: String)
    requires
        now + TOKEN_LIFETIME_SECS <= u64::MAX,
    ensures
        r@ == jwt_signed(subject@, (now + TOKEN_LIFETIME_SECS) as u64, config.secret()),
        jwt_claims(r@, config.secret()) == Some((subject@, (now + TOKEN_LIFETIME_SECS) as u64)),
{
    let exp = now + TOKEN_LIFETIME_SECS;
    jwt_encode(subject, exp, config.secret.as_slice())
}

/// Validates `token` at time `now`, giving its subject.
pub fn validate_token(config: &AuthConfig, token: &str, now: u64) -> (r: Result<String, AuthError>)
    ensures
        same_verdict(r, token_verdict(config.secret(), token@, now)),
{
    check_claims(jwt_decode(token, config.secret.as_slice()), now)
}

/// A token validates from the moment it is issued until just before its
/// expiry time, and gives back the subject it was issued for.
pub proof fn lemma_fresh_token_validates(secret: Seq<u8>, subject: Seq<char>, issued_at: u64, token: Seq<char>, now: u64)
    requires
        issued_at + TOKEN_LIFETIME_SECS <= u64::MAX,
        jwt_claims(token, secret) == Some((subject, (issued_at + TOKEN_LIFETIME_SECS) as u64)),
        issued_at <= now < issued_at + TOKEN_LIFETIME_SECS,
    ensures
        token_verdict(secret, token, now) == Ok::<Seq<char>, AuthError>(subject),
{
}

/// A token issued 24 hours or more before `now` fails validation with
/// `Expired`.
pub proof fn lemma_old_token_expired(secret: Seq<u8>, subject: Seq<char>, issued_at: u64, token: Seq<char>, now: u64)
    requires
        issued_at + TOKEN_LIFETIME_SECS <= u64::MAX,
        jwt_claims(token, secret) == Some((subject, (issued_at + TOKEN_LIFETIME_SECS) as u64)),
        now >= issued_at + TOKEN_LIFETIME_SECS,
    ensures
        token_verdict(secret, token, now) == Err::<Seq<char>, AuthError>(AuthError::Expired),
{
}

} // verus!
