use vstd::prelude::*;
use vstd::string::{StrSliceExecFns, StringExecFns};
use crate::error::ApiError;
use crate::models::UserProfile;

verus! {

/// Shortest and longest password accepted at registration, in characters.
pub const MIN_PASSWORD_LEN: usize = 8;

pub const MAX_PASSWORD_LEN: usize = 128;

#[derive(Debug, Clone)]
pub struct RegisterRequest {
    pub email: String,
    pub password: String,
    pub first_name: Option<String>,
    pub last_name: Option<String>,
}

#[derive(Debug, Clone)]
pub struct LoginRequest {
    pub email: String,
    pub password: String,
}

#[derive(Debug, Clone)]
pub struct RefreshTokenRequest {
    pub refresh_token: String,
}

/// A token pair as handed to a client.
#[derive(Debug, Clone)]
pub struct AuthResponse {
    pub access_token: String,
    pub refresh_token: String,
    pub token_type: String,
    pub expires_in: i64,
}

impl AuthResponse {
    pub fn new(access_token: String, refresh_token: String, expires_in: i64) -> (r: Self)
        ensures
            r.access_token == access_token,
            r.refresh_token == refresh_token,
            r.token_type@ == "Bearer"@,
            r.expires_in == expires_in,
    {
        AuthResponse { access_token, refresh_token, token_type: String::from_str("Bearer"), expires_in }
    }
}

/// What registration and login hand back: the public profile and a fresh
/// token pair.
#[derive(Debug, Clone)]
pub struct SignedIn {
    pub user: UserProfile,
    pub tokens: AuthResponse,
}

#[derive(Debug, Clone, Copy)]
pub struct AddToCartRequest {
    pub product_id: u128,
    pub variant_id: Option<u128>,
    pub quantity: i32,
}

#[derive(Debug, Clone, Copy)]
pub struct UpdateCartItemRequest {
    pub quantity: i32,
}

/// The verdict on an address; it depends on the text alone.
pub uninterp spec fn email_valid_of(s: Seq<char>) -> bool;

/// Relies on validator's `ValidateEmail::validate_email` for `&str` (the
/// HTML5 rule), which refuses an empty address and one without `@`.
#[verifier::external_body]
fn is_valid_email(s: &str) -> (r: bool)
    ensures
        r == email_valid_of(s@),
        s@.len() == 0 ==> !r,
        !s@.contains('@') ==> !r,
{
    <&str as validator::ValidateEmail>::validate_email(&s)
}

/// A registration names a well-formed email and a password of 8 to 128
/// characters.
pub open spec fn registration_ok(req: RegisterRequest) -> bool {
    &&& email_valid_of(req.email@)
    &&& MIN_PASSWORD_LEN <= req.password@.len() <= MAX_PASSWORD_LEN
}

pub fn validate_registration(req: &RegisterRequest) -> (r: Result<(), ApiError>)
    ensures
        r is Ok <==> registration_ok(*req),
        r matches Err(e) ==> e is Validation,
{
    if !is_valid_email(req.email.as_str()) {
        return Err(ApiError::validation(String::from_str("email: not a valid address")));
    }
    let n = req.password.as_str().unicode_len();
    if n < MIN_PASSWORD_LEN || n > MAX_PASSWORD_LEN {
        return Err(ApiError::validation(String::from_str("password: must be 8 to 128 characters")));
    }
    Ok(())
}

/// A cart quantity in a request must be at least 1.
pub fn validate_quantity(quantity: i32) -> (r: Result<(), ApiError>)
    ensures
        r is Ok <==> quantity >= 1,
        r matches Err(e) ==> e is Validation,
{
    if quantity < 1 {
        Err(ApiError::validation(String::from_str("quantity: must be at least 1")))
    } else {
        Ok(())
    }
}

} // verus!
