use vstd::prelude::*;
use vstd::string::StringExecFns;
use crate::error::ApiError;
use crate::models::{role_name, UserRole};

verus! {

/// Lifetime of an access token unless configured otherwise: 15 minutes.
pub const DEFAULT_ACCESS_TTL: i64 = 900;

/// Lifetime of a refresh token unless configured otherwise: 7 days.
pub const DEFAULT_REFRESH_TTL: i64 = 604800;

/// The signing secret used when none is configured. It is public and fit
/// for local development only; see [`TokenConfig::uses_development_secret`].
pub const DEVELOPMENT_SECRET: &'static str = "change-me-in-production-use-64-char-random-string";

/// What both kinds of token carry. Instants are unix seconds.
#[derive(Debug, Clone)]
pub struct Claims {
    pub sub: u128,
    /// The id of this issuance; it makes every token of a pair unique.
    pub jti: u128,
    pub email: String,
    pub role: String,
    pub store_id: u128,
    pub exp: i64,
    pub iat: i64,
}

#[derive(Debug, Clone, Copy, PartialEq, Eq, Structural)]
pub enum TokenKind {
    Access,
    Refresh,
}

/// Why a token was refused: its expiry has passed, or anything else.
#[derive(Debug, Clone, Copy, PartialEq, Eq, Structural)]
pub enum TokenError {
    Expired,
    Malformed,
}

/// Signing secret and token lifetimes, in seconds.
#[derive(Debug, Clone)]
pub struct TokenConfig {
    pub secret: String,
    pub access_ttl: i64,
    pub refresh_ttl: i64,
}

pub open spec fn is_digit(c: char) -> bool {
    '0' <= c && c <= '9'
}

/// The value of a string of decimal digits.
pub open spec fn decimal_value(s: Seq<char>) -> int
    decreases s.len(),
{
    if s.len() == 0 {
        0
    } else {
        decimal_value(s.drop_last()) * 10 + (s.last() as int - '0' as int)
    }
}

/// What `str::parse::<i64>` accepts: an optional `+` or `-`, then one or
/// more decimal digits, with a value that fits.
pub open spec fn parsed_i64(s: Seq<char>) -> Option<i64> {
    let signed = s.len() > 0 && (s[0] == '-' || s[0] == '+');
    let digits = if signed {
        s.drop_first()
    } else {
        s
    };
    let v = if s.len() > 0 && s[0] == '-' {
        -decimal_value(digits)
    } else {
        decimal_value(digits)
    };
    if digits.len() > 0 && (forall|i: int| 0 <= i < digits.len() ==> is_digit(#[trigger] digits[i]))
        && i64::MIN <= v <= i64::MAX {
        Some(v as i64)
    } else {
        None
    }
}

/// Relies on `str::parse::<i64>` (std's `FromStr` for `i64`).
#[verifier::external_body]
fn parse_i64(s: &str) -> (r: Option<i64>)
    ensures
        r == parsed_i64(s@),
{
    s.parse::<i64>().ok()
}

/// A configured number of seconds, or the default where none is set or it
/// does not parse.
pub fn seconds_setting(raw: Option<String>, default: i64) -> (r: i64)
    ensures
        r == match raw {
            Some(s) => match parsed_i64(s@) {
                Some(v) => v,
                None => default,
            },
            None => default,
        },
{
    match raw {
        Some(s) => match parse_i64(s.as_str()) {
            Some(v) => v,
            None => default,
        },
        None => default,
    }
}

impl TokenConfig {
    /// The configuration from raw settings: the secret, falling back to the
    /// development secret, and both lifetimes, falling back to their defaults.
    pub fn from_settings(secret: Option<String>, access_ttl: Option<String>, refresh_ttl: Option<String>) -> (r:
        Self)
        ensures
            r.secret@ == match secret {
                Some(s) => s@,
                None => DEVELOPMENT_SECRET@,
            },
            r.access_ttl == match access_ttl {
                Some(s) => match parsed_i64(s@) {
                    Some(v) => v,
                    None => DEFAULT_ACCESS_TTL,
                },
                None => DEFAULT_ACCESS_TTL,
            },
            r.refresh_ttl == match refresh_ttl {
                Some(s) => match parsed_i64(s@) {
                    Some(v) => v,
                    None => DEFAULT_REFRESH_TTL,
                },
                None => DEFAULT_REFRESH_TTL,
            },
    {
        let secret = match secret {
            Some(s) => s,
            None => String::from_str(DEVELOPMENT_SECRET),
        };
        TokenConfig {
            secret,
            access_ttl: seconds_setting(access_ttl, DEFAULT_ACCESS_TTL),
            refresh_ttl: seconds_setting(refresh_ttl, DEFAULT_REFRESH_TTL),
        }
    }

    /// True when tokens would be signed with the public development secret:
    /// a deployment must refuse to start so.
    pub fn uses_development_secret(&self) -> (r: bool)
        ensures
            r == (self.secret@ == DEVELOPMENT_SECRET@),
    {
        let dev = String::from_str(DEVELOPMENT_SECRET);
        self.secret.eq(&dev)
    }

    pub open spec fn ttl_of(&self, kind: TokenKind) -> i64 {
        match kind {
            TokenKind::Access => self.access_ttl,
            TokenKind::Refresh => self.refresh_ttl,
        }
    }
}

/// The claims of a token of `kind` issued at `now`.
pub open spec fn claims_for(
    kind: TokenKind,
    user_id: u128,
    email: Seq<char>,
    role: UserRole,
    store_id: u128,
    jti: u128,
    now: i64,
    config: TokenConfig,
    c: Claims,
) -> bool {
    &&& c.sub == user_id
    &&& c.jti == jti
    &&& c.email@ == email
    &&& c.role@ == role_name(role)
    &&& c.store_id == store_id
    &&& c.iat == now
    &&& c.exp == now + config.ttl_of(kind)
}

/// The claims of a new token: issued now, expiring after the lifetime of
/// its kind. Fails with `Internal` where that instant is out of range.
pub fn build_claims(
    kind: TokenKind,
    user_id: u128,
    email: String,
    role: UserRole,
    store_id: u128,
    jti: u128,
    now: i64,
    config: &TokenConfig,
) -> (r: Result<Claims, ApiError>)
    ensures
        r is Ok <==> i64::MIN <= now + config.ttl_of(kind) <= i64::MAX,
        r matches Ok(c) ==> claims_for(kind, user_id, email@, role, store_id, jti, now, *config, c),
        r matches Err(e) ==> e is Internal,
{
    let ttl = match kind {
        TokenKind::Access => config.access_ttl,
        TokenKind::Refresh => config.refresh_ttl,
    };
    let exp: i128 = now as i128 + ttl as i128;
    if exp > i64::MAX as i128 || exp < i64::MIN as i128 {
        return Err(ApiError::internal(String::from_str("Token generation failed: expiry out of range")));
    }
    Ok(Claims { sub: user_id, jti, email, role: role.as_string(), store_id, exp: exp as i64, iat: now })
}

pub open spec fn token_error_message(e: TokenError) -> Seq<char> {
    match e {
        TokenError::Expired => "Token has expired"@,
        TokenError::Malformed => "Invalid token"@,
    }
}

impl TokenError {
    /// Both kinds of refusal are `Unauthorized`; the message tells them apart.
    pub fn to_api_error(&self) -> (r: ApiError)
        ensures
            r matches ApiError::Unauthorized(m) && m@ == token_error_message(*self),
    {
        match self {
            TokenError::Expired => ApiError::unauthorized(String::from_str("Token has expired")),
            TokenError::Malformed => ApiError::unauthorized(String::from_str("Invalid token")),
        }
    }
}

/// A digit of lower-case hexadecimal.
pub open spec fn is_lower_hex(c: char) -> bool {
    ('0' <= c && c <= '9') || ('a' <= c && c <= 'f')
}

/// The digest under which a refresh token is stored.
pub uninterp spec fn sha256_hex_of(s: Seq<char>) -> Seq<char>;

/// Relies on sha2's `Sha256::digest` over the UTF-8 bytes of the token,
/// written as lower-case hex (two digits for each of the 32 bytes): the text
/// depends on the token alone.
#[verifier::external_body]
pub fn hash_token(token: &str) -> (r: String)
    ensures
        r@ == sha256_hex_of(token@),
        r@.len() == 64,
        forall|i: int| 0 <= i < r@.len() ==> is_lower_hex(#[trigger] r@[i]),
{
    format!("{:x}", <sha2::Sha256 as sha2::Digest>::digest(token.as_bytes()))
}

/// Relies on `str::strip_prefix`: what follows `prefix` where `s` starts
/// with it.
#[verifier::external_body]
fn strip_prefix(s: &str, prefix: &str) -> (r: Option<String>)
    ensures
        r is None <==> !prefix@.is_prefix_of(s@),
        r matches Some(rest) ==> s@ == prefix@ + rest@,
{
    s.strip_prefix(prefix).map(|rest| rest.to_string())
}

/// The token of an `Authorization: Bearer <token>` header.
pub fn bearer_token(header: Option<String>) -> (r: Result<String, ApiError>)
    ensures
        r is Ok <==> (header matches Some(h) && "Bearer "@.is_prefix_of(h@)),
        r matches Ok(t) ==> header matches Some(h) && h@ == "Bearer "@ + t@,
        r matches Err(e) ==> e is Unauthorized,
{
    match header {
        None => Err(ApiError::unauthorized(String::from_str("Missing Authorization header"))),
        Some(h) => match strip_prefix(h.as_str(), "Bearer ") {
            Some(t) => Ok(t),
            None => Err(ApiError::unauthorized(String::from_str("Invalid Authorization header format"))),
        },
    }
}

/// The identity a verified access token gives a request.
#[derive(Debug, Clone)]
pub struct AuthUser {
    pub user_id: u128,
    pub email: String,
    pub role: String,
    pub store_id: u128,
}

impl AuthUser {
    pub fn from_claims(c: Claims) -> (r: Self)
        ensures
            r.user_id == c.sub,
            r.email == c.email,
            r.role == c.role,
            r.store_id == c.store_id,
    {
        AuthUser { user_id: c.sub, email: c.email, role: c.role, store_id: c.store_id }
    }
}

/// The identity of a request from the outcome of checking its token.
pub fn authenticate(checked: Result<Claims, TokenError>) -> (r: Result<AuthUser, ApiError>)
    ensures
        match checked {
            Ok(c) => r matches Ok(u) && u.user_id == c.sub && u.email == c.email && u.role == c.role
                && u.store_id == c.store_id,
            Err(e) => r matches Err(ApiError::Unauthorized(m)) && m@ == token_error_message(e),
        },
{
    match checked {
        Ok(c) => Ok(AuthUser::from_claims(c)),
        Err(e) => Err(e.to_api_error()),
    }
}

} // verus!
