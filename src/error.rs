use vstd::prelude::*;
use vstd::string::StringExecFns;

verus! {

/// The error taxonomy shared by every operation of the library.
///
/// `Database` carries a failure of the persistence layer; it is never shown
/// to a caller as such, see [`ApiError::public_message`].
#[derive(Debug, Clone)]
pub enum ApiError {
    NotFound(String),
    BadRequest(String),
    Unauthorized(String),
    Forbidden(String),
    Conflict(String),
    Validation(String),
    Internal(String),
    Database(String),
}

/// The transport status that goes with each kind of error.
pub open spec fn status_of(e: ApiError) -> u16 {
    match e {
        ApiError::NotFound(_) => 404,
        ApiError::BadRequest(_) => 400,
        ApiError::Unauthorized(_) => 401,
        ApiError::Forbidden(_) => 403,
        ApiError::Conflict(_) => 409,
        ApiError::Validation(_) => 422,
        ApiError::Internal(_) => 500,
        ApiError::Database(_) => 500,
    }
}

/// The stable machine-readable code of each kind of error.
pub open spec fn code_of(e: ApiError) -> Seq<char> {
    match e {
        ApiError::NotFound(_) => "not_found"@,
        ApiError::BadRequest(_) => "bad_request"@,
        ApiError::Unauthorized(_) => "unauthorized"@,
        ApiError::Forbidden(_) => "forbidden"@,
        ApiError::Conflict(_) => "conflict"@,
        ApiError::Validation(_) => "validation_error"@,
        ApiError::Internal(_) => "internal_error"@,
        ApiError::Database(_) => "internal_error"@,
    }
}

/// What a caller may read: the message of a domain error, and a fixed
/// sentence for internal and persistence failures.
pub open spec fn public_message_of(e: ApiError) -> Seq<char> {
    match e {
        ApiError::NotFound(m) => m@,
        ApiError::BadRequest(m) => m@,
        ApiError::Unauthorized(m) => m@,
        ApiError::Forbidden(m) => m@,
        ApiError::Conflict(m) => m@,
        ApiError::Validation(m) => m@,
        ApiError::Internal(_) => "An internal error occurred"@,
        ApiError::Database(_) => "An internal error occurred"@,
    }
}

impl ApiError {
    pub fn not_found(msg: String) -> (r: Self)
        ensures
            r == ApiError::NotFound(msg),
    {
        ApiError::NotFound(msg)
    }

    pub fn bad_request(msg: String) -> (r: Self)
        ensures
            r == ApiError::BadRequest(msg),
    {
        ApiError::BadRequest(msg)
    }

    pub fn unauthorized(msg: String) -> (r: Self)
        ensures
            r == ApiError::Unauthorized(msg),
    {
        ApiError::Unauthorized(msg)
    }

    pub fn forbidden(msg: String) -> (r: Self)
        ensures
            r == ApiError::Forbidden(msg),
    {
        ApiError::Forbidden(msg)
    }

    pub fn internal(msg: String) -> (r: Self)
        ensures
            r == ApiError::Internal(msg),
    {
        ApiError::Internal(msg)
    }

    pub fn conflict(msg: String) -> (r: Self)
        ensures
            r == ApiError::Conflict(msg),
    {
        ApiError::Conflict(msg)
    }

    pub fn validation(msg: String) -> (r: Self)
        ensures
            r == ApiError::Validation(msg),
    {
        ApiError::Validation(msg)
    }

    pub fn status_code(&self) -> (r: u16)
        ensures
            r == status_of(*self),
    {
        match self {
            ApiError::NotFound(_) => 404,
            ApiError::BadRequest(_) => 400,
            ApiError::Unauthorized(_) => 401,
            ApiError::Forbidden(_) => 403,
            ApiError::Conflict(_) => 409,
            ApiError::Validation(_) => 422,
            ApiError::Internal(_) => 500,
            ApiError::Database(_) => 500,
        }
    }

    pub fn code(&self) -> (r: String)
        ensures
            r@ == code_of(*self),
    {
        match self {
            ApiError::NotFound(_) => String::from_str("not_found"),
            ApiError::BadRequest(_) => String::from_str("bad_request"),
            ApiError::Unauthorized(_) => String::from_str("unauthorized"),
            ApiError::Forbidden(_) => String::from_str("forbidden"),
            ApiError::Conflict(_) => String::from_str("conflict"),
            ApiError::Validation(_) => String::from_str("validation_error"),
            ApiError::Internal(_) => String::from_str("internal_error"),
            ApiError::Database(_) => String::from_str("internal_error"),
        }
    }

    /// The message a caller may see; internal details never leave here.
    pub fn public_message(&self) -> (r: String)
        ensures
            r@ == public_message_of(*self),
    {
        match self {
            ApiError::NotFound(m) => m.clone(),
            ApiError::BadRequest(m) => m.clone(),
            ApiError::Unauthorized(m) => m.clone(),
            ApiError::Forbidden(m) => m.clone(),
            ApiError::Conflict(m) => m.clone(),
            ApiError::Validation(m) => m.clone(),
            ApiError::Internal(_) => String::from_str("An internal error occurred"),
            ApiError::Database(_) => String::from_str("An internal error occurred"),
        }
    }

    /// The JSON error body that goes with this error.
    pub fn to_response(&self) -> (r: ErrorResponse)
        ensures
            r.error.code@ == code_of(*self),
            r.error.message@ == public_message_of(*self),
            r.error.details.is_none(),
    {
        ErrorResponse {
            error: ErrorBody { code: self.code(), message: self.public_message(), details: None },
        }
    }
}

/// `{ "error": { "code", "message", "details"? } }`
#[derive(Debug, Clone)]
pub struct ErrorResponse {
    pub error: ErrorBody,
}

#[derive(Debug, Clone)]
pub struct ErrorBody {
    pub code: String,
    pub message: String,
    pub details: Option<Vec<ValidationDetail>>,
}

/// One failed field of a request body.
#[derive(Debug, Clone)]
pub struct ValidationDetail {
    pub field: String,
    pub message: String,
}

} // verus!
