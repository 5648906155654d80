//! Signup request handling: shape checks and the conversion of a request
//! into a user record.

use vstd::prelude::*;

use crate::domain::{
    valid_email, Email, HashedPassword, Password, TwoFactorMethod, User, MIN_PASSWORD_LEN,
};
use crate::errors::SignupError;

verus! {

/// A signup request, by method.
#[derive(Debug)]
pub enum SignupRequest {
    EmailPassword { email: String, password: String, two_factor: TwoFactorMethod },
    MagicLink { email: String },
    Passkey { email: String },
}

/// The body of a successful signup response.
#[derive(Debug)]
pub struct SignupResponse {
    pub message: String,
}

/// Shape checks applied to signup input.
pub struct SignupValidator;

impl SignupValidator {
    /// At least `MIN_PASSWORD_LEN` characters.
    pub fn validate_password(password: &str) -> (r: Result<(), SignupError>)
        ensures
            r is Ok <==> password@.len() >= MIN_PASSWORD_LEN,
            r matches Err(e) ==> e matches SignupError::InvalidPassword(_),
    {
        let n = password.unicode_len();
        if n < MIN_PASSWORD_LEN {
            return Err(
                SignupError::InvalidPassword(
                    String::from_str("Password must be at least 8 characters long"),
                ),
            );
        }
        Ok(())
    }

    /// A well-formed address.
    pub fn validate_email(email: &str) -> (r: Result<(), SignupError>)
        ensures
            r is Ok <==> valid_email(email@),
            r matches Err(e) ==> e matches SignupError::InvalidEmail(_),
    {
        match Email::parse(email) {
            Ok(_) => Ok(()),
            Err(_) => Err(SignupError::InvalidEmail(String::from_str("Email format is invalid"))),
        }
    }
}

impl User {
    /// Builds the user record a signup request describes: checks the
    /// password, then the email, hashes the password and keeps the chosen
    /// second-factor method. Only the email/password method is supported.
    pub fn try_from(req: SignupRequest) -> (r: Result<User, SignupError>)
        ensures
            req matches SignupRequest::EmailPassword { email, password, two_factor } ==> {
                &&& password@.len() < MIN_PASSWORD_LEN ==> (r matches Err(
                    SignupError::InvalidPassword(_),
                ))
                &&& password@.len() >= MIN_PASSWORD_LEN && !valid_email(email@) ==> (r matches Err(
                    SignupError::InvalidEmail(_),
                ))
                &&& password@.len() >= MIN_PASSWORD_LEN && valid_email(email@) ==> (r matches Ok(u)
                    && u@.email == email@ && u@.password == crate::domain::spec_hashed(password@)
                    && u@.two_factor == two_factor && u.email.wf())
            },
            !(req matches SignupRequest::EmailPassword { .. }) ==> r matches Err(
                SignupError::UnsupportedMethod,
            ),
    {
        match req {
            SignupRequest::EmailPassword { email, password, two_factor } => {
                SignupValidator::validate_password(password.as_str())?;
                let parsed_email = match Email::parse(email.as_str()) {
                    Ok(e) => e,
                    Err(_) => {
                        return Err(
                            SignupError::InvalidEmail(
                                String::from_str("Email format is invalid"),
                            ),
                        );
                    },
                };
                let parsed_password = match Password::parse(password.as_str()) {
                    Ok(p) => p,
                    Err(_) => {
                        return Err(
                            SignupError::InvalidPassword(
                                String::from_str("Password must be at least 8 characters long"),
                            ),
                        );
                    },
                };
                let hashed = HashedPassword::from(&parsed_password);
                Ok(User::new(parsed_email, hashed, two_factor))
            },
            SignupRequest::MagicLink { .. } => Err(SignupError::UnsupportedMethod),
            SignupRequest::Passkey { .. } => Err(SignupError::UnsupportedMethod),
        }
    }
}

} // verus!
