//! Core authentication data types: claims, token bodies, refresh tokens and
//! the error taxonomy shared by the whole authentication subsystem.

use vstd::prelude::*;
use rand::RngExt;

verus! {

/// Seconds an access token stays valid after issuance (15 minutes).
pub const ACCESS_TOKEN_LIFETIME_SECS: u64 = 900;

/// Seconds a refresh token stays valid after creation (5 days).
pub const REFRESH_TOKEN_LIFETIME_SECS: u64 = 432000;

/// Length of the random identifier of a refresh token.
pub const REFRESH_ID_LEN: usize = 8;

/// Length of the random secret of a refresh token.
pub const REFRESH_SECRET_LEN: usize = 32;

/// A unix timestamp `lifetime` seconds after `now`, pinned at `u64::MAX`
/// so that expiry computation never overflows.
pub open spec fn spec_expiry(now: u64, lifetime: u64) -> u64 {
    if now + lifetime <= u64::MAX {
        (now + lifetime) as u64
    } else {
        u64::MAX
    }
}

/// Computes the expiry timestamp `lifetime` seconds after `now`,
/// saturating at `u64::MAX`.
pub fn expiry_timestamp(now: u64, lifetime: u64) -> (r: u64)
    ensures
        r == spec_expiry(now, lifetime),
{
    if now <= u64::MAX - lifetime {
        now + lifetime
    } else {
        u64::MAX
    }
}

/// The possible errors when a user attempts to authenticate.
#[derive(Clone, Copy, Debug, PartialEq, Eq, Structural)]
pub enum AuthError {
    WrongCredentials,
    MissingCredentials,
    TokenCreation,
    InvalidToken,
}

impl AuthError {
    /// The HTTP status code that the error is reported with.
    pub fn http_status(&self) -> (s: u16)
        ensures
            s == match *self {
                AuthError::WrongCredentials => 401u16,
                AuthError::MissingCredentials => 400u16,
                AuthError::TokenCreation => 500u16,
                AuthError::InvalidToken => 400u16,
            },
    {
        match *self {
            AuthError::WrongCredentials => 401,
            AuthError::MissingCredentials => 400,
            AuthError::TokenCreation => 500,
            AuthError::InvalidToken => 400,
        }
    }

    /// The message that the error is reported with.
    pub fn error_message(&self) -> (m: &'static str)
        ensures
            *self == AuthError::WrongCredentials ==> m@ == "Wrong credentials"@,
            *self == AuthError::MissingCredentials ==> m@ == "Missing credentials"@,
            *self == AuthError::TokenCreation ==> m@ == "Token creation error"@,
            *self == AuthError::InvalidToken ==> m@ == "Invalid token"@,
    {
        match *self {
            AuthError::WrongCredentials => "Wrong credentials",
            AuthError::MissingCredentials => "Missing credentials",
            AuthError::TokenCreation => "Token creation error",
            AuthError::InvalidToken => "Invalid token",
        }
    }
}

/// The claims carried inside an access token: the subject (a username)
/// and the unix timestamp at which the token expires.
pub struct Claims {
    pub sub: String,
    pub exp: u64,
}

impl Claims {
    /// Creates the claims for an access token issued at `now`:
    /// the expiry is fifteen minutes later.
    pub fn new(sub: String, now: u64) -> (r: Claims)
        ensures
            r.sub@ == sub@,
            r.exp == spec_expiry(now, ACCESS_TOKEN_LIFETIME_SECS),
    {
        let exp = expiry_timestamp(now, ACCESS_TOKEN_LIFETIME_SECS);
        Claims { sub, exp }
    }

    /// Returns the subject of this [`Claims`].
    pub fn sub(&self) -> (r: &str)
        ensures
            r@ == self.sub@,
    {
        self.sub.as_str()
    }

    /// Returns the expiry timestamp of this [`Claims`].
    pub fn exp(&self) -> (r: u64)
        ensures
            r == self.exp,
    {
        self.exp
    }
}

/// Carries an access token together with its type, which is always `Bearer`.
pub struct AuthBody {
    pub access_token: String,
    pub token_type: String,
}

impl AuthBody {
    /// Create a new `Bearer`-typed [`AuthBody`].
    pub fn new_bearer(access_token: String) -> (r: AuthBody)
        ensures
            r.access_token@ == access_token@,
            r.token_type@ == "Bearer"@,
    {
        AuthBody { access_token, token_type: bearer_label() }
    }

    /// Same as [`AuthBody::new_bearer`]; kept as the constructor name used
    /// by older call sites.
    pub fn new(access_token: String) -> (r: AuthBody)
        ensures
            r.access_token@ == access_token@,
            r.token_type@ == "Bearer"@,
    {
        AuthBody::new_bearer(access_token)
    }

    /// Returns the access token of this [`AuthBody`].
    pub fn access_token(&self) -> (r: &str)
        ensures
            r@ == self.access_token@,
    {
        self.access_token.as_str()
    }

    /// Returns the token type of this [`AuthBody`].
    pub fn token_type(&self) -> (r: &str)
        ensures
            r@ == self.token_type@,
    {
        self.token_type.as_str()
    }
}

/// The `Bearer` token-type label as an owned string.
fn bearer_label() -> (r: String)
    ensures
        r@ == "Bearer"@,
{
    String::from_str("Bearer")
}

/// A refresh token: a short random identifier, a longer random secret and
/// the unix timestamp at which it expires.
#[derive(Clone, Debug)]
pub struct RefreshToken {
    pub id: String,
    pub token: String,
    pub exp: u64,
}

/// The mathematical view of a refresh token: both strings as character
/// sequences plus the expiry timestamp.
pub struct TokenView {
    pub id: Seq<char>,
    pub token: Seq<char>,
    pub exp: u64,
}

impl View for RefreshToken {
    type V = TokenView;

    open spec fn view(&self) -> TokenView {
        TokenView { id: self.id@, token: self.token@, exp: self.exp }
    }
}

impl RefreshToken {
    /// A field-by-field copy of this refresh token.
    pub fn duplicate(&self) -> (r: RefreshToken)
        ensures
            r@ == self@,
    {
        RefreshToken { id: self.id.clone(), token: self.token.clone(), exp: self.exp }
    }
}

/// Check that two refresh tokens agree on every field.
pub fn tokens_are_equal(lhs: &RefreshToken, rhs: &RefreshToken) -> (r: bool)
    ensures
        r == (lhs@.id == rhs@.id && lhs@.token == rhs@.token && lhs@.exp == rhs@.exp),
{
    lhs.exp == rhs.exp && lhs.id == rhs.id && lhs.token == rhs.token
}

/// The response to a successful login: an access token plus the refresh
/// token that can later be traded for a new access token.
pub struct AuthBodyWithRefreshToken {
    pub auth_body: AuthBody,
    pub refresh_token: RefreshToken,
}

impl AuthBodyWithRefreshToken {
    /// Creates a new [`AuthBodyWithRefreshToken`].
    pub fn new(auth_body: AuthBody, refresh_token: RefreshToken) -> (r: AuthBodyWithRefreshToken)
        ensures
            r.auth_body.access_token@ == auth_body.access_token@,
            r.auth_body.token_type@ == auth_body.token_type@,
            r.refresh_token@ == refresh_token@,
    {
        AuthBodyWithRefreshToken { auth_body, refresh_token }
    }
}

/// True of the characters that a random alphanumeric draw can produce.
pub open spec fn is_alphanumeric_char(c: char) -> bool {
    ('a' <= c && c <= 'z') || ('A' <= c && c <= 'Z') || ('0' <= c && c <= '9')
}

/// Generate `size` random alphanumeric characters.
///
/// Relies on `rand::distr::Alphanumeric`: every sampled byte is one of
/// `A-Z`, `a-z` or `0-9`, and exactly `size` are taken.
#[verifier::external_body]
pub fn generate_random_alphanumeric(size: usize) -> (r: String)
    ensures
        r@.len() == size,
        forall|i: int| 0 <= i < r@.len() ==> #[trigger] is_alphanumeric_char(r@[i]),
{
    rand::rng().sample_iter(&rand::distr::Alphanumeric).take(size).map(char::from).collect()
}

/// The unix timestamp of the current moment.
///
/// Relies on `chrono::Utc::now`; nothing is assumed of the clock's value.
/// A clock reading before the unix epoch is clamped to zero, so the
/// result is never a wrapped negative time.
#[verifier::external_body]
fn current_timestamp() -> u64
{
    let now: i64 = chrono::Utc::now().timestamp();
    if now >= 0 { now as u64 } else { 0 }
}

/// True of a refresh token whose identifier and secret have the generated
/// lengths and alphabet.
pub open spec fn well_formed_refresh_token(t: TokenView) -> bool {
    &&& t.id.len() == REFRESH_ID_LEN
    &&& t.token.len() == REFRESH_SECRET_LEN
    &&& forall|i: int| 0 <= i < t.id.len() ==> #[trigger] is_alphanumeric_char(t.id[i])
    &&& forall|i: int| 0 <= i < t.token.len() ==> #[trigger] is_alphanumeric_char(t.token[i])
}

/// Generate a refresh token as of time `now`: an 8-character random
/// identifier, a 32-character random secret, and an expiry five days later.
pub fn generate_refresh_token_at(now: u64) -> (r: RefreshToken)
    ensures
        well_formed_refresh_token(r@),
        r.exp == spec_expiry(now, REFRESH_TOKEN_LIFETIME_SECS),
{
    let token = generate_random_alphanumeric(REFRESH_SECRET_LEN);
    let id = generate_random_alphanumeric(REFRESH_ID_LEN);
    let exp = expiry_timestamp(now, REFRESH_TOKEN_LIFETIME_SECS);
    RefreshToken { id, token, exp }
}

/// Generate a refresh token that is valid for five days from the current
/// moment, as read from the system clock.
pub fn generate_refresh_token() -> (r: RefreshToken)
    ensures
        well_formed_refresh_token(r@),
{
    let now = current_timestamp();
    generate_refresh_token_at(now)
}

} // verus!
