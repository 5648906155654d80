//! The error taxonomy of the service, and the pure mapping from each error
//! to the HTTP status class it is reported under.

use vstd::prelude::*;

verus! {

/// A response body carrying one error message.
#[derive(Debug, Clone)]
pub struct ErrorResponse {
    pub error: String,
}

/// Errors of value-type construction: malformed input data.
#[derive(Debug, Clone)]
pub enum DataError {
    InvalidData(String),
    PasswordTooShort(usize),
    InvalidEmail(String),
    MissingField(String),
}

impl DataError {
    /// The status every data error maps to.
    pub open spec fn spec_status_code(&self) -> u16 {
        400
    }

    pub fn status_code(&self) -> (r: u16)
        ensures
            r == self.spec_status_code(),
    {
        match self {
            DataError::InvalidData(_) => 400,
            DataError::PasswordTooShort(_) => 400,
            DataError::InvalidEmail(_) => 400,
            DataError::MissingField(_) => 400,
        }
    }
}

/// Errors of the user store.
#[derive(Debug, Clone)]
pub enum UserStoreError {
    UserAlreadyExists,
    UserNotFound,
    InvalidCredentials,
    UnexpectedError(String),
}

impl UserStoreError {
    pub open spec fn spec_status_code(&self) -> u16 {
        match self {
            UserStoreError::UserAlreadyExists => 409,
            UserStoreError::UserNotFound => 404,
            UserStoreError::InvalidCredentials => 401,
            UserStoreError::UnexpectedError(_) => 500,
        }
    }

    pub fn status_code(&self) -> (r: u16)
        ensures
            r == self.spec_status_code(),
    {
        match self {
            UserStoreError::UserAlreadyExists => 409,
            UserStoreError::UserNotFound => 404,
            UserStoreError::InvalidCredentials => 401,
            UserStoreError::UnexpectedError(_) => 500,
        }
    }
}

/// Errors of signup request handling.
#[derive(Debug, Clone)]
pub enum SignupError {
    UnsupportedMethod,
    InvalidRequest,
    UserStoreError(UserStoreError),
    InvalidEmail(String),
    InvalidPassword(String),
}

impl SignupError {
    pub open spec fn spec_status_code(&self) -> u16 {
        match self {
            SignupError::UnsupportedMethod => 400,
            SignupError::InvalidRequest => 400,
            SignupError::UserStoreError(e) => e.spec_status_code(),
            SignupError::InvalidEmail(_) => 400,
            SignupError::InvalidPassword(_) => 400,
        }
    }

    pub fn status_code(&self) -> (r: u16)
        ensures
            r == self.spec_status_code(),
    {
        match self {
            SignupError::UnsupportedMethod => 400,
            SignupError::InvalidRequest => 400,
            SignupError::UserStoreError(e) => e.status_code(),
            SignupError::InvalidEmail(_) => 400,
            SignupError::InvalidPassword(_) => 400,
        }
    }
}

/// The top-level error of the service.
#[derive(Debug, Clone)]
pub enum AuthApiError {
    MalformedRequest,
    Unauthorized,
    InvalidData(String),
    PasswordTooShort(usize),
    InvalidEmail(String),
    EmailSendError(String),
    MissingField(String),
    UserAlreadyExists,
    UserNotFound,
    TwoFactorCodeNotFound,
    TwoFactorCodeMismatch,
    TwoFactorCodeGenFailed,
    InvalidLoginAttemptId,
    InvalidCredentials,
    InvalidToken,
    MissingToken,
    UnexpectedError(String),
}

/// Errors of request-body extraction: the body was neither a well-formed
/// form nor well-formed JSON.
#[derive(Debug, Clone)]
pub enum FormOrJsonError {
    Invalid,
    Form(String),
    Json(String),
}

impl FormOrJsonError {
    /// Every extraction error is an unprocessable request.
    pub open spec fn spec_status_code(&self) -> u16 {
        422
    }

    pub fn status_code(&self) -> (r: u16)
        ensures
            r == self.spec_status_code(),
    {
        match self {
            FormOrJsonError::Invalid => 422,
            FormOrJsonError::Form(_) => 422,
            FormOrJsonError::Json(_) => 422,
        }
    }

    /// The message the response body carries.
    pub fn message(&self) -> (r: String)
        ensures
            self matches FormOrJsonError::Invalid ==> r@ == "Invalid request format"@,
            self matches FormOrJsonError::Form(m) ==> r@ == "Form parsing error: "@ + m@,
            self matches FormOrJsonError::Json(m) ==> r@ == "JSON parsing error: "@ + m@,
    {
        match self {
            FormOrJsonError::Invalid => String::from_str("Invalid request format"),
            FormOrJsonError::Form(m) => String::from_str("Form parsing error: ").concat(m.as_str()),
            FormOrJsonError::Json(m) => String::from_str("JSON parsing error: ").concat(m.as_str()),
        }
    }
}

/// Anything that maps to an HTTP status class.
pub trait StatusCoded {
    spec fn spec_status_code(&self) -> u16;

    fn status_code(&self) -> (r: u16)
        ensures
            r == self.spec_status_code(),
    ;
}

impl StatusCoded for AuthApiError {
    open spec fn spec_status_code(&self) -> u16 {
        match self {
            AuthApiError::InvalidCredentials => 400,
            AuthApiError::PasswordTooShort(_) => 400,
            AuthApiError::InvalidEmail(_) => 400,
            AuthApiError::MissingToken => 400,
            AuthApiError::MalformedRequest => 422,
            AuthApiError::InvalidData(_) => 422,
            AuthApiError::MissingField(_) => 422,
            AuthApiError::Unauthorized => 401,
            AuthApiError::UserAlreadyExists => 409,
            AuthApiError::UserNotFound => 404,
            AuthApiError::UnexpectedError(_) => 500,
            AuthApiError::InvalidToken => 401,
            AuthApiError::TwoFactorCodeNotFound => 404,
            AuthApiError::TwoFactorCodeMismatch => 401,
            AuthApiError::TwoFactorCodeGenFailed => 500,
            AuthApiError::InvalidLoginAttemptId => 400,
            AuthApiError::EmailSendError(_) => 500,
        }
    }

    fn status_code(&self) -> (r: u16) {
        match self {
            AuthApiError::InvalidCredentials => 400,
            AuthApiError::PasswordTooShort(_) => 400,
            AuthApiError::InvalidEmail(_) => 400,
            AuthApiError::MissingToken => 400,
            AuthApiError::MalformedRequest => 422,
            AuthApiError::InvalidData(_) => 422,
            AuthApiError::MissingField(_) => 422,
            AuthApiError::Unauthorized => 401,
            AuthApiError::UserAlreadyExists => 409,
            AuthApiError::UserNotFound => 404,
            AuthApiError::UnexpectedError(_) => 500,
            AuthApiError::InvalidToken => 401,
            AuthApiError::TwoFactorCodeNotFound => 404,
            AuthApiError::TwoFactorCodeMismatch => 401,
            AuthApiError::TwoFactorCodeGenFailed => 500,
            AuthApiError::InvalidLoginAttemptId => 400,
            AuthApiError::EmailSendError(_) => 500,
        }
    }
}

} // verus!
