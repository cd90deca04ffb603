//! Authentication: trusted-local mode accepts everyone; token mode accepts
//! the shared secret from an `Authorization: Bearer` header or from the
//! request's `meta.auth`.
use vstd::prelude::*;

use crate::config::{ApiConfig, AuthMode};
use crate::errors::{ApiError, RpcErrorCode};
use crate::text::{ci_prefix, starts_with_ci, str_eq, trim, trim_str};

verus! {

/// The bearer token in an `Authorization` header value.
pub open spec fn header_token(h: Seq<char>) -> Option<Seq<char>> {
    let t = trim(h);
    if ci_prefix(t, "bearer "@) {
        Some(t.subrange(7, t.len() as int))
    } else {
        None
    }
}

/// `meta.auth` of a request.
#[derive(Debug, Clone)]
pub struct AuthMeta {
    pub mode: String,
    pub token: Option<String>,
}

/// `meta` of a request.
#[derive(Debug, Clone)]
pub struct RequestMeta {
    pub idempotency_key: Option<String>,
    pub auth: Option<AuthMeta>,
    pub timeout_ms: Option<u64>,
    pub request_ts: Option<String>,
}

/// The token a request carries in `meta.auth`, when its mode is `token`.
pub open spec fn meta_token(meta: Option<RequestMeta>) -> Option<Seq<char>> {
    match meta {
        Some(m) => match m.auth {
            Some(a) => if a.mode@ == "token"@ {
                match a.token {
                    Some(t) => Some(t@),
                    None => None,
                }
            } else {
                None
            },
            None => None,
        },
        None => None,
    }
}

/// The token a request presents: the header's first, else `meta.auth`'s.
pub open spec fn provided_token(header: Option<Seq<char>>, meta: Option<RequestMeta>) -> Option<Seq<char>> {
    match header {
        Some(h) => match header_token(h) {
            Some(t) => Some(t),
            None => meta_token(meta),
        },
        None => meta_token(meta),
    }
}

/// The bearer token of an `Authorization` header value; the scheme is
/// matched without regard to case.
pub fn token_from_header(header: &str) -> (r: Option<String>)
    ensures
        r is None <==> header_token(header@) is None,
        r matches Some(t) ==> Some(t@) == header_token(header@),
{
    let t = trim_str(header);
    proof {
        reveal_strlit("bearer ");
    }
    if starts_with_ci(t, "bearer ") {
        let n = t.unicode_len();
        Some(t.substring_char(7, n).to_owned())
    } else {
        None
    }
}

fn token_from_meta(meta: &Option<RequestMeta>) -> (r: Option<String>)
    ensures
        r is None <==> meta_token(*meta) is None,
        r matches Some(t) ==> Some(t@) == meta_token(*meta),
{
    match meta {
        Some(m) => match &m.auth {
            Some(a) => {
                if str_eq(a.mode.as_str(), "token") {
                    match &a.token {
                        Some(t) => Some(t.clone()),
                        None => None,
                    }
                } else {
                    None
                }
            },
            None => None,
        },
        None => None,
    }
}

/// Accepts every request as `trusted_local`.
#[derive(Debug, Clone)]
pub struct TrustedLocalAuthenticator;

/// Accepts requests that present the shared token.
#[derive(Debug, Clone)]
pub struct TokenAuthenticator {
    expected_token: String,
}

impl TrustedLocalAuthenticator {
    pub fn authorize(&self) -> (r: Result<String, ApiError>)
        ensures
            r matches Ok(p) && p@ == "trusted_local"@,
    {
        Ok("trusted_local".to_owned())
    }

    pub fn mode(&self) -> (r: AuthMode)
        ensures
            r == AuthMode::TrustedLocal,
    {
        AuthMode::TrustedLocal
    }
}

impl TokenAuthenticator {
    pub closed spec fn expected(&self) -> Seq<char> {
        self.expected_token@
    }

    pub fn new(expected_token: String) -> (r: TokenAuthenticator)
        ensures
            r.expected() == expected_token@,
    {
        TokenAuthenticator { expected_token }
    }

    /// The principal is the token itself.
    pub fn authorize(&self, header: Option<&str>, meta: &Option<RequestMeta>) -> (r: Result<String, ApiError>)
        ensures
            r matches Ok(p) ==> provided_token(
                match header {
                    Some(h) => Some(h@),
                    None => None,
                },
                *meta,
            ) == Some(p@) && p@ == self.expected(),
            r is Err <==> provided_token(
                match header {
                    Some(h) => Some(h@),
                    None => None,
                },
                *meta,
            ) != Some(self.expected()),
            r matches Err(e) ==> e.has_code(RpcErrorCode::Unauthorized),
    {
        let from_header = match header {
            Some(h) => token_from_header(h),
            None => None,
        };
        let provided = match from_header {
            Some(t) => Some(t),
            None => token_from_meta(meta),
        };
        match provided {
            Some(token) => {
                if token == self.expected_token {
                    Ok(token)
                } else {
                    Err(ApiError::unauthorized("invalid token".to_owned()))
                }
            },
            None => Err(
                ApiError::unauthorized("token auth is enabled and no token was provided".to_owned()),
            ),
        }
    }

    pub fn mode(&self) -> (r: AuthMode)
        ensures
            r == AuthMode::Token,
    {
        AuthMode::Token
    }
}

/// The two authenticators.
#[derive(Debug, Clone)]
pub enum Authenticator {
    TrustedLocal(TrustedLocalAuthenticator),
    Token(TokenAuthenticator),
}

impl Authenticator {
    /// The principal of a request, from its `Authorization` header value and
    /// its `meta`.
    pub fn authorize(&self, header: Option<&str>, meta: &Option<RequestMeta>) -> (r: Result<String, ApiError>)
        ensures
            self is TrustedLocal ==> (r matches Ok(p) && p@ == "trusted_local"@),
            self matches Authenticator::Token(t) ==> (r is Err <==> provided_token(
                match header {
                    Some(h) => Some(h@),
                    None => None,
                },
                *meta,
            ) != Some(t.expected())),
            self matches Authenticator::Token(t) ==> (r matches Ok(p) ==> p@ == t.expected()),
            r matches Err(e) ==> e.has_code(RpcErrorCode::Unauthorized),
    {
        match self {
            Authenticator::TrustedLocal(a) => a.authorize(),
            Authenticator::Token(a) => a.authorize(header, meta),
        }
    }

    pub fn mode(&self) -> (r: AuthMode)
        ensures
            r == (if self is TrustedLocal {
                AuthMode::TrustedLocal
            } else {
                AuthMode::Token
            }),
    {
        match self {
            Authenticator::TrustedLocal(a) => a.mode(),
            Authenticator::Token(a) => a.mode(),
        }
    }
}

/// The authenticator for a configuration; token mode needs a non-blank token.
pub fn from_config(config: &ApiConfig) -> (r: Result<Authenticator, String>)
    ensures
        config.auth_mode == AuthMode::TrustedLocal ==> (r matches Ok(a) && a is TrustedLocal),
        config.auth_mode == AuthMode::Token ==> match config.token {
            Some(t) => if trim(t@).len() > 0 {
                r matches Ok(a) && (a matches Authenticator::Token(x) && x.expected() == t@)
            } else {
                r is Err
            },
            None => r is Err,
        },
{
    match config.auth_mode {
        AuthMode::TrustedLocal => Ok(Authenticator::TrustedLocal(TrustedLocalAuthenticator)),
        AuthMode::Token => match &config.token {
            Some(t) => {
                if trim_str(t.as_str()).unicode_len() > 0 {
                    Ok(Authenticator::Token(TokenAuthenticator::new(t.clone())))
                } else {
                    Err("token auth mode requires RALPH_API_TOKEN".to_owned())
                }
            },
            None => Err("token auth mode requires RALPH_API_TOKEN".to_owned()),
        },
    }
}

} // verus!
