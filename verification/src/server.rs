//! The decisions of the HTTP server: which token a request carries, when a
//! token admits its bearer, what a session token claims, the session cookie,
//! and the server's settings. The transport runs in the server binary.

use vstd::prelude::*;
use crate::models::UserModel;
use crate::datetime::{from_unix_timestamp, utc_at, MAX_UNIX_TIMESTAMP, MIN_UNIX_TIMESTAMP};

verus! {

/// Why a request was refused.
#[derive(Debug, Clone, Copy, PartialEq, Eq, Structural)]
pub enum ServerError {
    /// No bearer token and no session cookie.
    MissingToken,
    /// The token does not verify, or it was revoked.
    InvalidToken,
    /// No user with that address and password.
    InvalidCredentials,
    /// A failure inside the server.
    Internal,
    /// A failure of the database.
    Database,
    /// The settings could not be loaded.
    Config,
}

/// What a session token claims.
#[derive(Debug, Clone, PartialEq, Eq)]
pub struct Claims {
    /// The user id.
    pub sub: String,
    /// The token id, under which it can be revoked.
    pub jti: String,
    /// Expiry, in seconds since the Unix epoch.
    pub exp: i64,
    /// Issue time, in seconds since the Unix epoch.
    pub iat: i64,
}

/// How long a session lasts: 24 hours, in seconds.
pub const SESSION_SECONDS: i64 = 86400;

impl Claims {
    /// The claims of a token issued at `now` (seconds since the Unix epoch)
    /// to the user `sub` under the token id `jti`: it expires 24 hours later.
    pub fn issued_at(sub: String, jti: String, now: i64) -> (c: Self)
        requires
            now <= i64::MAX - SESSION_SECONDS,
        ensures
            c.sub == sub,
            c.jti == jti,
            c.iat == now,
            c.exp == now + SESSION_SECONDS,
    {
        Claims { sub, jti, exp: now + SESSION_SECONDS, iat: now }
    }
}

/// An authenticated request: the claims of its verified, unrevoked token.
pub struct AuthUser(pub Claims);

impl AuthUser {
    /// Admits the bearer of verified claims unless their token was revoked.
    pub fn accept(claims: Claims, revoked: bool) -> (r: Result<AuthUser, ServerError>)
        ensures
            revoked ==> (r matches Err(e) && e == ServerError::InvalidToken),
            !revoked ==> (r matches Ok(user) && user.0 == claims),
    {
        if revoked {
            Err(ServerError::InvalidToken)
        } else {
            Ok(AuthUser(claims))
        }
    }
}

/// The token of a request: the bearer token of the `Authorization` header
/// when there is one, else the value of the `session` cookie, else none.
pub fn select_token(bearer: Option<String>, session_cookie: Option<String>) -> (r: Result<String, ServerError>)
    ensures
        match (bearer, session_cookie) {
            (Some(b), _) => r == Ok::<String, ServerError>(b),
            (None, Some(c)) => r == Ok::<String, ServerError>(c),
            (None, None) => r == Err::<String, ServerError>(ServerError::MissingToken),
        },
{
    match bearer {
        Some(b) => Ok(b),
        None => match session_cookie {
            Some(c) => Ok(c),
            None => Err(ServerError::MissingToken),
        },
    }
}

/// What the authentication of a request has learnt so far.
pub enum AuthEvent {
    /// The request's credentials: its bearer token and its session cookie.
    Started { bearer: Option<String>, session_cookie: Option<String> },
    /// The token was checked: its claims, or `None` when it did not verify.
    Verified(Option<Claims>),
    /// The revocation list was consulted for the claims' token id: whether
    /// it is revoked, or `None` when the lookup failed.
    LookedUp(Claims, Option<bool>),
}

/// What the authentication of a request does next.
pub enum AuthAction {
    /// Check this token's signature and expiry.
    VerifyToken(String),
    /// Look up whether the token of these claims was revoked.
    LookUpRevocation(Claims),
    /// Answer the request.
    Finish(Result<AuthUser, ServerError>),
}

/// One step of authenticating a request: a request without a token is
/// refused with `MissingToken`, a token that does not verify with
/// `InvalidToken`, a failed revocation lookup with `Internal`, a revoked
/// token with `InvalidToken`; otherwise the bearer of the claims is
/// admitted. The server performs each action and hands back the event.
pub fn auth_step(event: AuthEvent) -> (r: AuthAction)
    ensures
        match event {
            AuthEvent::Started { bearer, session_cookie } => match (bearer, session_cookie) {
                (Some(b), _) => r matches AuthAction::VerifyToken(t) && t == b,
                (None, Some(c)) => r matches AuthAction::VerifyToken(t) && t == c,
                (None, None) => r matches AuthAction::Finish(Err(e)) && e == ServerError::MissingToken,
            },
            AuthEvent::Verified(None) => r matches AuthAction::Finish(Err(e)) && e == ServerError::InvalidToken,
            AuthEvent::Verified(Some(claims)) => r matches AuthAction::LookUpRevocation(c) && c == claims,
            AuthEvent::LookedUp(_, None) => r matches AuthAction::Finish(Err(e)) && e == ServerError::Internal,
            AuthEvent::LookedUp(_, Some(true)) => r matches AuthAction::Finish(Err(e)) && e == ServerError::InvalidToken,
            AuthEvent::LookedUp(claims, Some(false)) => r matches AuthAction::Finish(Ok(user)) && user.0 == claims,
        },
{
    match event {
        AuthEvent::Started { bearer, session_cookie } => match select_token(bearer, session_cookie) {
            Ok(t) => AuthAction::VerifyToken(t),
            Err(e) => AuthAction::Finish(Err(e)),
        },
        AuthEvent::Verified(None) => AuthAction::Finish(Err(ServerError::InvalidToken)),
        AuthEvent::Verified(Some(claims)) => AuthAction::LookUpRevocation(claims),
        AuthEvent::LookedUp(_, None) => AuthAction::Finish(Err(ServerError::Internal)),
        AuthEvent::LookedUp(claims, Some(revoked)) => AuthAction::Finish(AuthUser::accept(claims, revoked)),
    }
}

/// The `SameSite` policy of a cookie.
#[derive(Debug, Clone, Copy, PartialEq, Eq, Structural)]
pub enum SameSitePolicy {
    Strict,
    Lax,
    NoRestriction,
}

/// A cookie to be set on a response.
#[derive(Debug, Clone, PartialEq, Eq)]
pub struct CookieSpec {
    pub name: String,
    pub value: String,
    pub http_only: bool,
    pub secure: bool,
    pub same_site: SameSitePolicy,
    /// Lifetime in seconds.
    pub max_age: i64,
    pub path: String,
}

/// The name of the session cookie.
pub open spec fn session_cookie_name() -> Seq<char> {
    "session"@
}

/// The cookie that carries a session token: `session`, HTTP-only, secure,
/// same-site strict, for the whole site, living as long as the token.
pub fn session_cookie(token: String) -> (c: CookieSpec)
    ensures
        c.name@ == session_cookie_name(),
        c.value == token,
        c.http_only,
        c.secure,
        c.same_site == SameSitePolicy::Strict,
        c.max_age == SESSION_SECONDS,
        c.path@ == "/"@,
{
    CookieSpec {
        name: "session".to_owned(),
        value: token,
        http_only: true,
        secure: true,
        same_site: SameSitePolicy::Strict,
        max_age: SESSION_SECONDS,
        path: "/".to_owned(),
    }
}

/// The name of the session cookie, to read it from a request or to remove it.
pub fn session_cookie_name_text() -> (s: String)
    ensures
        s@ == session_cookie_name(),
{
    "session".to_owned()
}

/// A login request.
pub struct LoginRequest {
    pub email: String,
    pub password: String,
}

/// The reply to a successful login.
pub struct LoginResponse {
    pub token: String,
}

/// A registration request.
pub struct RegisterRequest {
    pub name: String,
    pub email: String,
    pub password: String,
}

/// The user a login admits: a failed lookup is an internal error, an
/// unknown address or a wrong password are invalid credentials.
pub fn login_user<E>(authenticated: Result<Option<UserModel>, E>) -> (r: Result<UserModel, ServerError>)
    ensures
        match authenticated {
            Err(_) => r == Err::<UserModel, ServerError>(ServerError::Internal),
            Ok(None) => r == Err::<UserModel, ServerError>(ServerError::InvalidCredentials),
            Ok(Some(user)) => r == Ok::<UserModel, ServerError>(user),
        },
{
    match authenticated {
        Err(_) => Err(ServerError::Internal),
        Ok(None) => Err(ServerError::InvalidCredentials),
        Ok(Some(user)) => Ok(user),
    }
}

/// The server's settings.
#[derive(Debug, Clone)]
pub struct ServerConfig {
    pub database_url: String,
    pub jwt_secret: String,
    pub host: String,
    pub port: i32,
}

pub const DEFAULT_PORT: i32 = 8080;

impl ServerConfig {
    /// Settings from the values found: the address and secret are required,
    /// the host defaults to `0.0.0.0` and the port to 8080.
    pub fn from_values(database_url: String, jwt_secret: String, host: Option<String>, port: Option<i32>) -> (c: Self)
        ensures
            c.database_url == database_url,
            c.jwt_secret == jwt_secret,
            c.host@ == (match host {
                Some(h) => h@,
                None => "0.0.0.0"@,
            }),
            c.port == (match port {
                Some(p) => p,
                None => DEFAULT_PORT,
            }),
    {
        let host = match host {
            Some(h) => h,
            None => "0.0.0.0".to_owned(),
        };
        let port = match port {
            Some(p) => p,
            None => DEFAULT_PORT,
        };
        ServerConfig { database_url, jwt_secret, host, port }
    }
}

/// When the revocation of a session token may be forgotten: the moment
/// its `exp` claim names. A claim outside the dates a timestamp can hold
/// is an `Internal` failure.
pub fn revocation_expiry(exp: i64) -> (r: Result<time::OffsetDateTime, ServerError>)
    ensures
        MIN_UNIX_TIMESTAMP <= exp <= MAX_UNIX_TIMESTAMP ==> r is Ok,
        r matches Ok(t) ==> t == utc_at(exp),
        r matches Err(e) ==> e == ServerError::Internal,
{
    match from_unix_timestamp(exp) {
        Some(t) => Ok(t),
        None => Err(ServerError::Internal),
    }
}

} // verus!
