use lgr_auth::domain::{hash_password, Email, HashedPassword, Password, TwoFactorMethod, User};
use lgr_auth::config::{Config, EmailConfig, ServerEnv};
use lgr_auth::errors::{
    AuthApiError, DataError, FormOrJsonError, SignupError, StatusCoded, UserStoreError,
};

#[test]
fn test_email_invalid() {
    let cases = vec!["plainaddress", "@no-local-part.com", "Outlook Contact"];

    for case in cases {
        let result = Email::parse(case);
        assert!(result.is_err(), "Expected error for case: {}", case);
    }
}

#[test]
fn test_email_valid() {
    let cases = vec!["there@go.com", "hello@joy.net", "what@me.org"];
    for case in cases {
        let result = Email::parse(case);
        assert!(result.is_ok(), "Expected success for case: {}", case);
    }
}

#[test]
fn test_email_examples() {
    assert!(Email::parse("a@b.co").is_ok());
    assert!(Email::parse("a@b").is_err());
    assert!(Email::parse("@b.co").is_err());
    // Two at-signs, empty host, one-character TLD.
    assert!(Email::parse("a@b@c.co").is_err());
    assert!(Email::parse("a@.co").is_err());
    assert!(Email::parse("a@b.c").is_err());
}

#[test]
fn test_email_error_carries_input() {
    match Email::parse("nope") {
        Err(DataError::InvalidEmail(s)) => assert_eq!(s, "nope"),
        other => panic!("Expected InvalidEmail, got {:?}", other),
    }
}

#[test]
fn test_password_too_short() {
    let short_password = "short";
    let result = Password::parse(short_password);
    assert!(result.is_err());
    if let Err(e) = result {
        match e {
            DataError::PasswordTooShort(len) => assert_eq!(len, short_password.len()),
            _ => panic!("Expected PasswordTooShort error"),
        }
    }
}

#[test]
fn test_password_valid() {
    let valid_password = "longenoughpassword";
    let result = Password::parse(valid_password);
    assert!(result.is_ok());
}

#[test]
fn test_password_boundary() {
    assert!(Password::parse("1234567").is_err());
    assert!(Password::parse("12345678").is_ok());
}

#[test]
fn test_hash_password_exact() {
    let hashed = hash_password("secretpw").unwrap();
    assert_eq!(hashed, "hashed_secretpw");
}

#[test]
fn test_hashed_password_from() {
    let p = Password::parse("password123").unwrap();
    let h = HashedPassword::from(&p);
    assert_eq!(h.as_str(), "hashed_password123");
}

#[test]
fn test_user_new_keeps_fields() {
    let email = Email::parse("me@you.com").unwrap();
    let p = Password::parse("password123").unwrap();
    let h = HashedPassword::from(&p);
    let user = User::new(email, h, TwoFactorMethod::Disabled);
    assert_eq!(user.email.as_str(), "me@you.com");
    assert_eq!(user.password.as_str(), "hashed_password123");
    assert_eq!(user.two_factor, TwoFactorMethod::Disabled);
}

#[test]
fn test_status_codes() {
    assert_eq!(DataError::PasswordTooShort(3).status_code(), 400);
    assert_eq!(UserStoreError::UserAlreadyExists.status_code(), 409);
    assert_eq!(UserStoreError::UserNotFound.status_code(), 404);
    assert_eq!(UserStoreError::InvalidCredentials.status_code(), 401);
    assert_eq!(UserStoreError::UnexpectedError(String::new()).status_code(), 500);
    assert_eq!(AuthApiError::Unauthorized.status_code(), 401);
    assert_eq!(AuthApiError::MalformedRequest.status_code(), 422);
    assert_eq!(AuthApiError::MissingToken.status_code(), 400);
    assert_eq!(AuthApiError::InvalidToken.status_code(), 401);
    assert_eq!(AuthApiError::UserAlreadyExists.status_code(), 409);
    assert_eq!(SignupError::UnsupportedMethod.status_code(), 400);
    assert_eq!(
        SignupError::UserStoreError(UserStoreError::UserAlreadyExists).status_code(),
        409
    );
}

#[test]
fn test_form_or_json_error() {
    assert_eq!(FormOrJsonError::Invalid.status_code(), 422);
    assert_eq!(FormOrJsonError::Invalid.message(), "Invalid request format");
    assert_eq!(
        FormOrJsonError::Form("bad field".to_string()).message(),
        "Form parsing error: bad field"
    );
    assert_eq!(
        FormOrJsonError::Json("eof".to_string()).message(),
        "JSON parsing error: eof"
    );
}

#[test]
fn test_config_defaults() {
    let config = Config::default();
    assert_eq!(config.server.host, "0.0.0.0");
    assert_eq!(config.server.port, 3000);
    assert_eq!(config.env, ServerEnv::Development);
    assert_eq!(config.jwt.cookie_name, "jwt_auth_token");
    assert_eq!(config.app.url, "http://localhost:5173");
    assert_eq!(
        config.app.two_factor_redirect_url,
        "http://localhost:5173/login/2fa"
    );
    let email = EmailConfig::default();
    assert_eq!(email.smtp_host, "127.0.0.1");
    assert_eq!(email.smtp_port, 1025);
    assert_eq!(email.sender.as_str(), "dev@local.test");
}
