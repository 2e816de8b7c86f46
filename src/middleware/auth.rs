//! The guard in front of protected routes: a request passes only with an
//! `Authorization: Bearer <token>` header whose token validates.

use vstd::prelude::*;
use crate::text::{chars_of, string_of};
use crate::token::{validate_token, token_verdict, same_verdict, AuthConfig, AuthError};

verus! {

/// The characters `Bearer ` that open a bearer credential.
pub open spec fn bearer_prefix() -> Seq<char> {
    seq!['B', 'e', 'a', 'r', 'e', 'r', ' ']
}

/// The token carried by an `Authorization` header value, when the value is
/// `Bearer ` followed by a non-empty token.
pub open spec fn bearer_spec(h: Seq<char>) -> Option<Seq<char>> {
    if h.len() > 7 && h.subrange(0, 7) == bearer_prefix() {
        Some(h.subrange(7, h.len() as int))
    } else {
        None
    }
}

/// The header as characters, if present.
pub open spec fn header_view(header: Option<&str>) -> Option<Seq<char>> {
    match header {
        Some(h) => Some(h@),
        None => None,
    }
}

/// What the guard decides for a request with `header` at time `now`.
pub open spec fn guard_verdict(secret: Seq<u8>, header: Option<Seq<char>>, now: u64) -> Result<Seq<char>, AuthError> {
    match header {
        None => Err(AuthError::Missing),
        Some(h) => match bearer_spec(h) {
            None => Err(AuthError::Missing),
            Some(t) => token_verdict(secret, t, now),
        },
    }
}

/// A request whose `Authorization` header is absent or not of the form
/// `Bearer <token>` is refused as `Missing`, whatever the time and secret.
pub proof fn lemma_malformed_header_refused(secret: Seq<u8>, header: Option<Seq<char>>, now: u64)
    requires
        header matches Some(h) ==> bearer_spec(h) is None,
    ensures
        guard_verdict(secret, header, now) == Err::<Seq<char>, AuthError>(AuthError::Missing),
{
}

/// Extracts the token from an `Authorization` header value of the form
/// `Bearer <token>`.
pub fn bearer_token(header: &str) -> (r: Option<String>)
    ensures
        match bearer_spec(header@) {
            Some(t) => (r matches Some(s) && s@ == t),
            None => r is None,
        },
{
    let v = chars_of(header);
    if v.len() <= 7 {
        return None;
    }
    let prefix: [char; 7] = ['B', 'e', 'a', 'r', 'e', 'r', ' '];
    let mut i: usize = 0;
    while i < 7
        invariant
            v@ == header@,
            v.len() > 7,
            i <= 7,
            prefix@ == bearer_prefix(),
            forall|j: int| 0 <= j < i ==> v@[j] == bearer_prefix()[j],
        decreases 7 - i,
    {
        if v[i] != prefix[i] {
            assert(v@.subrange(0, 7)[i as int] != bearer_prefix()[i as int]);
            return None;
        }
        i = i + 1;
    }
    assert(v@.subrange(0, 7) =~= bearer_prefix());
    let mut rest: Vec<char> = Vec::new();
    let mut k: usize = 7;
    while k < v.len()
        invariant
            7 <= k <= v.len(),
            rest@ == v@.subrange(7, k as int),
        decreases v.len() - k,
    {
        rest.push(v[k]);
        k = k + 1;
        assert(rest@ =~= v@.subrange(7, k as int));
    }
    Some(string_of(&rest))
}

/// Decides on a request: the subject of its bearer token, or why it is
/// refused.
pub fn authorize(config: &AuthConfig, header: Option<&str>, now: u64) -> (r: Result<String, AuthError>)
    ensures
        same_verdict(r, guard_verdict(config.secret(), header_view(header), now)),
{
    match header {
        None => Err(AuthError::Missing),
        Some(h) => match bearer_token(h) {
            None => Err(AuthError::Missing),
            Some(t) => validate_token(config, t.as_str(), now),
        },
    }
}

/// A protected handler, called with the subject of a valid token. Each
/// handler says, through `serves`, how one call for `subject` takes it
/// from `self` to `next` and what it answers.
pub trait Endpoint: Sized {
    type Output;

    spec fn serves(&self, subject: Seq<char>, next: Self, out: Self::Output) -> bool;

    fn call(&mut self, subject: &str) -> (out: Self::Output)
        ensures
            old(self).serves(subject@, *final(self), out),
    ;
}

/// A protected endpoint that keeps the subject of every request it served
/// and answers with how many it has served.
pub struct AccessLog {
    subjects: Vec<String>,
}

impl AccessLog {
    /// The subjects served so far, oldest first.
    pub closed spec fn served(&self) -> Seq<Seq<char>> {
        self.subjects@.map_values(|s: String| s@)
    }

    pub fn new() -> (r: AccessLog)
        ensures
            r.served() == Seq::<Seq<char>>::empty(),
    {
        let r = AccessLog { subjects: Vec::new() };
        assert(r.served() =~= Seq::<Seq<char>>::empty());
        r
    }

    /// The subjects served so far, oldest first.
    pub fn subjects(&self) -> (r: &Vec<String>)
        ensures
            r@.map_values(|s: String| s@) == self.served(),
    {
        &self.subjects
    }
}

impl Endpoint for AccessLog {
    type Output = usize;

    open spec fn serves(&self, subject: Seq<char>, next: Self, out: usize) -> bool {
        next.served() == self.served().push(subject) && out == next.served().len()
    }

    fn call(&mut self, subject: &str) -> (out: usize) {
        self.subjects.push(subject.to_owned());
        assert(self.served() =~= old(self).served().push(subject@));
        self.subjects.len()
    }
}

/// The outcome of a request that went through the guard.
pub enum Guarded<T> {
    /// The handler ran and produced this.
    Passed(T),
    /// The guard refused the request (401); the handler did not run.
    Unauthorized(AuthError),
}

/// Builds guarded endpoints that share one signing configuration.
pub struct AuthMiddleware {
    config: AuthConfig,
}

/// An endpoint behind the guard.
pub struct AuthMiddlewareMiddleware<S> {
    service: S,
    config: AuthConfig,
}

impl AuthMiddleware {
    pub closed spec fn secret(&self) -> Seq<u8> {
        self.config.secret()
    }

    pub fn new(config: AuthConfig) -> (r: AuthMiddleware)
        ensures
            r.secret() == config.secret(),
    {
        AuthMiddleware { config }
    }

    /// Puts `service` behind the guard.
    pub fn new_transform<S>(self, service: S) -> (r: AuthMiddlewareMiddleware<S>)
        ensures
            r.secret() == self.secret(),
            r.service() == service,
    {
        AuthMiddlewareMiddleware { service, config: self.config }
    }
}

impl<S> AuthMiddlewareMiddleware<S> {
    pub closed spec fn secret(&self) -> Seq<u8> {
        self.config.secret()
    }

    pub closed spec fn service(&self) -> S {
        self.service
    }

    /// The wrapped endpoint.
    pub fn inner(&self) -> (r: &S)
        ensures
            *r == self.service(),
    {
        &self.service
    }
}

impl<S: Endpoint> AuthMiddlewareMiddleware<S> {
    /// Runs the wrapped endpoint for a request whose `Authorization` header
    /// is `header`, at time `now`. A refused request never reaches the
    /// endpoint: the endpoint is left exactly as it was. An accepted one
    /// makes exactly one call of the endpoint, with the token's subject, and
    /// answers with what that call returned.
    pub fn call(&mut self, header: Option<&str>, now: u64) -> (r: Guarded<S::Output>)
        ensures
            final(self).secret() == old(self).secret(),
            match guard_verdict(old(self).secret(), header_view(header), now) {
                Err(e) => (r matches Guarded::Unauthorized(e2) && e2 == e) && final(self).service()
                    == old(self).service(),
                Ok(sub) => (r matches Guarded::Passed(out) && old(self).service().serves(
                    sub,
                    final(self).service(),
                    out,
                )),
            },
    {
        match authorize(&self.config, header, now) {
            Ok(subject) => Guarded::Passed(self.service.call(subject.as_str())),
            Err(e) => Guarded::Unauthorized(e),
        }
    }
}

} // verus!
