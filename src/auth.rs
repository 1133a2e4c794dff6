use vstd::prelude::*;

use crate::errors::{ApiError, UNAUTHORIZED};
use crate::jwt::{claims_text, subject_ok, token_accepted, validar_token, verified_payload, Claims};
use crate::text::{same_text, text_at};

verus! {

/// The paths that pass without a token: health check, service info, login
/// and registration.
pub open spec fn public_path(path: Seq<char>) -> bool {
    path == "/api/salud"@ || path == "/api/info"@ || path == "/api/auth/login"@ || path
        == "/api/auth/registro"@
}

/// The scheme word that starts an `Authorization` header.
pub open spec fn bearer_prefix() -> Seq<char> {
    seq!['B', 'e', 'a', 'r', 'e', 'r', ' ']
}

/// The token that a `Bearer <token>` header carries.
pub open spec fn bearer_token(header: Seq<char>) -> Option<Seq<char>> {
    if header.len() >= 7 && header.subrange(0, 7) == bearer_prefix() {
        Some(header.skip(7))
    } else {
        None
    }
}

/// The text of the answer to a request that is turned away.
pub open spec fn rejection_message() -> Seq<char> {
    "Token inválido o faltante"@
}

/// What becomes of a request at the authentication step.
#[derive(Debug, Clone)]
pub enum AuthDecision {
    /// The path is public: the request goes on unchecked.
    Public,
    /// The token is valid: the request goes on with these claims.
    Authorized(Claims),
    /// The request is answered with this error and goes no further.
    Rejected(ApiError),
}

/// Whether a path passes without a token.
pub fn is_public_path(path: &str) -> (r: bool)
    ensures
        r == public_path(path@),
{
    same_text(path, "/api/salud") || same_text(path, "/api/info") || same_text(
        path,
        "/api/auth/login",
    ) || same_text(path, "/api/auth/registro")
}

/// The token of a `Bearer <token>` header.
pub fn strip_bearer(header: &str) -> (r: Option<&str>)
    ensures
        r matches Some(t) ==> bearer_token(header@) == Some(t@),
        r is None ==> bearer_token(header@) is None,
{
    proof {
        reveal_strlit("Bearer ");
        assert("Bearer "@ =~= bearer_prefix());
    }
    if text_at(header, 0, "Bearer ") {
        let n = header.unicode_len();
        let t = header.substring_char(7, n);
        assert(t@ =~= header@.skip(7));
        Some(t)
    } else {
        None
    }
}

/// Decides a request by its path and its `Authorization` header, at `now`.
///
/// Public paths pass unchecked. Any other path needs a `Bearer` header whose
/// token is valid under `secret`; otherwise the request is rejected as
/// unauthorized.
pub fn authorize(path: &str, authorization: Option<&str>, secret: Option<&str>, now: u64) -> (r:
    AuthDecision)
    ensures
        public_path(path@) ==> r is Public,
        !public_path(path@) ==> !(r is Public),
        !public_path(path@) && authorization is None ==> r is Rejected,
        r matches AuthDecision::Rejected(e) ==> e.codigo_estado == UNAUTHORIZED && e.mensaje@
            == rejection_message(),
        !public_path(path@) ==> (r is Authorized <==> (authorization matches Some(h)
            && bearer_token(h@) matches Some(t) && secret matches Some(k) && token_accepted(
            verified_payload(t, k@),
            now as nat,
        ))),
        r matches AuthDecision::Authorized(c) ==> authorization matches Some(h) && bearer_token(
            h@,
        ) matches Some(t) && secret matches Some(k) && subject_ok(c.sub@) && now <= c.exp
            && verified_payload(t, k@) == Some(claims_text(c.sub@, c.exp as nat)),
{
    if is_public_path(path) {
        return AuthDecision::Public;
    }
    if let Some(header) = authorization {
        if let Some(token) = strip_bearer(header) {
            match validar_token(token, secret, now) {
                Ok(claims) => {
                    return AuthDecision::Authorized(claims);
                },
                Err(_) => {},
            }
        }
    }
    proof {
        reveal_strlit("Token inválido o faltante");
    }
    AuthDecision::Rejected(ApiError::unauthorized(String::from_str("Token inválido o faltante")))
}

/// The request guard, holding the secret that tokens are signed with.
pub struct Authentication {
    pub secret: Option<String>,
}

impl Authentication {
    pub fn new(secret: Option<String>) -> (r: Self)
        ensures
            r.secret == secret,
    {
        Authentication { secret }
    }

    /// Decides a request at `now`, as `authorize` does under this secret.
    pub fn check(&self, path: &str, authorization: Option<&str>, now: u64) -> (r: AuthDecision)
        ensures
            public_path(path@) ==> r is Public,
            !public_path(path@) && authorization is None ==> r is Rejected,
            !public_path(path@) ==> !(r is Public),
            r matches AuthDecision::Rejected(e) ==> e.codigo_estado == UNAUTHORIZED && e.mensaje@
                == rejection_message(),
            !public_path(path@) ==> (r is Authorized <==> (authorization matches Some(h)
                && bearer_token(h@) matches Some(t) && self.secret matches Some(k)
                && token_accepted(verified_payload(t, k@), now as nat))),
            r matches AuthDecision::Authorized(c) ==> authorization matches Some(h)
                && bearer_token(h@) matches Some(t) && self.secret matches Some(k) && subject_ok(
                c.sub@,
            ) && now <= c.exp && verified_payload(t, k@) == Some(
                claims_text(c.sub@, c.exp as nat),
            ),
    {
        let secret = match &self.secret {
            Some(k) => Some(k.as_str()),
            None => None,
        };
        authorize(path, authorization, secret, now)
    }
}

} // verus!
