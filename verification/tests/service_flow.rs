use lgr_auth::domain::TwoFactorMethod;
use lgr_auth::errors::{AuthApiError, SignupError, StatusCoded, UserStoreError};
use lgr_auth::service::{AuthService, LoginRequest, LoginResponse, Verify2FARequest};
use lgr_auth::signup::SignupRequest;
use lgr_auth::token::JwtConfig;

fn service() -> AuthService {
    AuthService::new(JwtConfig::default())
}

fn signup_req(email: &str, password: &str, two_factor: TwoFactorMethod) -> SignupRequest {
    SignupRequest::EmailPassword {
        email: email.to_string(),
        password: password.to_string(),
        two_factor,
    }
}

fn login_req(email: &str, password: &str) -> LoginRequest {
    LoginRequest::EmailPassword {
        email: email.to_string(),
        password: password.to_string(),
    }
}

#[test]
fn test_signup_login_verify_token_flow() {
    // Signup without a second factor, login, then verify the issued token.
    let mut s = service();
    let r = s.signup(signup_req("u@x.com", "password123", TwoFactorMethod::Disabled));
    assert!(r.is_ok());

    let outcome = s.login(&login_req("u@x.com", "password123")).unwrap();
    assert_eq!(outcome.status_code(), 200);
    let token = match outcome {
        LoginResponse::Success { email, token } => {
            assert_eq!(email.as_str(), "u@x.com");
            token
        }
        _ => panic!("expected a direct success"),
    };

    assert!(s.verify_token(&token).is_ok());
}

#[test]
fn test_signup_duplicate_email() {
    let mut s = service();
    assert!(s
        .signup(signup_req("u@x.com", "password123", TwoFactorMethod::Disabled))
        .is_ok());
    let second = s.signup(signup_req("u@x.com", "password456", TwoFactorMethod::Email));
    match second {
        Err(e @ SignupError::UserStoreError(UserStoreError::UserAlreadyExists)) => {
            assert_eq!(e.status_code(), 409);
        }
        other => panic!("expected UserAlreadyExists, got {:?}", other),
    }
}

#[test]
fn test_signup_rejects_malformed_input() {
    let mut s = service();
    assert!(matches!(
        s.signup(signup_req("u@x.com", "short", TwoFactorMethod::Disabled)),
        Err(SignupError::InvalidPassword(_))
    ));
    assert!(matches!(
        s.signup(signup_req("not-an-email", "password123", TwoFactorMethod::Disabled)),
        Err(SignupError::InvalidEmail(_))
    ));
    assert!(matches!(
        s.signup(SignupRequest::MagicLink {
            email: "u@x.com".to_string()
        }),
        Err(SignupError::UnsupportedMethod)
    ));
}

#[test]
fn test_login_rejects_bad_credentials() {
    let mut s = service();
    s.signup(signup_req("u@x.com", "password123", TwoFactorMethod::Disabled))
        .unwrap();

    // Unknown user and wrong password fail alike: plain unauthorized.
    assert!(matches!(
        s.login(&login_req("other@x.com", "password123")),
        Err(AuthApiError::Unauthorized)
    ));
    assert!(matches!(
        s.login(&login_req("u@x.com", "wrongpassword")),
        Err(AuthApiError::Unauthorized)
    ));
    // Shape errors are reported as such.
    assert!(matches!(
        s.login(&login_req("not-an-email", "password123")),
        Err(AuthApiError::InvalidEmail(_))
    ));
    match s.login(&login_req("u@x.com", "short")) {
        Err(AuthApiError::PasswordTooShort(l)) => assert_eq!(l, 5),
        other => panic!("expected PasswordTooShort, got {:?}", other),
    }
    assert!(matches!(
        s.login(&LoginRequest::MagicLink {
            email: "u@x.com".to_string()
        }),
        Err(AuthApiError::MalformedRequest)
    ));
}

#[test]
fn test_two_factor_login_flow() {
    // Signup with the email second factor: login yields a challenge and no
    // token; only the matching triple completes it.
    let mut s = service();
    s.signup(signup_req("u@x.com", "password123", TwoFactorMethod::Email))
        .unwrap();

    let outcome = s.login(&login_req("u@x.com", "password123")).unwrap();
    assert_eq!(outcome.status_code(), 206);
    let (id, code) = match outcome {
        LoginResponse::TwoFactor {
            email,
            method,
            id,
            code,
            ..
        } => {
            assert_eq!(email.as_str(), "u@x.com");
            assert_eq!(method, TwoFactorMethod::Email);
            (id, code)
        }
        _ => panic!("expected a pending challenge"),
    };

    // The wrong code is rejected.
    let wrong_code = if code.as_str() == "000000" { "000001" } else { "000000" };
    let rejected = s.verify_2fa_login(&Verify2FARequest {
        method: TwoFactorMethod::Email,
        email: "u@x.com".to_string(),
        id: id.as_str().to_string(),
        code: wrong_code.to_string(),
    });
    match rejected {
        Err(e @ AuthApiError::Unauthorized) => assert_eq!(e.status_code(), 401),
        other => panic!("expected Unauthorized, got {:?}", other),
    }

    // The matching triple yields a verifiable session token.
    let completed = s
        .verify_2fa_login(&Verify2FARequest {
            method: TwoFactorMethod::Email,
            email: "u@x.com".to_string(),
            id: id.as_str().to_string(),
            code: code.as_str().to_string(),
        })
        .unwrap();
    assert_eq!(completed.status_code(), 200);
    match completed {
        LoginResponse::Success { email, token } => {
            assert_eq!(email.as_str(), "u@x.com");
            assert!(s.verify_token(&token).is_ok());
        }
        _ => panic!("expected a session token"),
    }
}

#[test]
fn test_two_factor_challenge_absent() {
    let s = service();
    let r = s.verify_2fa(&Verify2FARequest {
        method: TwoFactorMethod::Email,
        email: "u@x.com".to_string(),
        id: "00000000-0000-4000-8000-000000000000".to_string(),
        code: "123456".to_string(),
    });
    assert!(matches!(r, Err(AuthApiError::Unauthorized)));
}

#[test]
fn test_logout_revokes_token() {
    // Login, logout, then verification of the same token fails as revoked.
    let mut s = service();
    s.signup(signup_req("u@x.com", "password123", TwoFactorMethod::Disabled))
        .unwrap();
    let token = match s.login(&login_req("u@x.com", "password123")).unwrap() {
        LoginResponse::Success { token, .. } => token,
        _ => panic!("expected a direct success"),
    };
    assert!(s.verify_token(&token).is_ok());

    assert!(s.logout(Some(&token)).is_ok());

    let rejected = s.verify_token(&token);
    match rejected {
        Err(e @ AuthApiError::Unauthorized) => assert_eq!(e.status_code(), 401),
        other => panic!("expected Unauthorized for the revoked token, got {:?}", other),
    }
}

#[test]
fn test_logout_error_cases() {
    let mut s = service();
    assert!(matches!(
        s.logout(None),
        Err(AuthApiError::MissingToken)
    ));
    assert!(matches!(
        s.logout(Some("not-a-token")),
        Err(AuthApiError::InvalidToken)
    ));
    // A second logout with the same token: the token is already banned but
    // still well signed, so the revocation write is simply repeated.
    s.signup(signup_req("u@x.com", "password123", TwoFactorMethod::Disabled))
        .unwrap();
    let token = match s.login(&login_req("u@x.com", "password123")).unwrap() {
        LoginResponse::Success { token, .. } => token,
        _ => panic!("expected a direct success"),
    };
    assert!(s.logout(Some(&token)).is_ok());
    assert!(s.logout(Some(&token)).is_ok());
    assert!(matches!(
        s.verify_token(&token),
        Err(AuthApiError::Unauthorized)
    ));
}

#[test]
fn test_verify_token_rejects_garbage() {
    let s = service();
    assert!(matches!(
        s.verify_token("three.part.nonsense"),
        Err(AuthApiError::InvalidToken)
    ));
}

#[test]
fn test_server_config_address() {
    let config = lgr_auth::config::ServerConfig::default();
    assert_eq!(config.address(), "0.0.0.0:3000");
}
